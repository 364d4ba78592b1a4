//! The wire spelling of references, `namespace::owner>...>local`, and the
//! facts that tie spelling and parsing together.

use vstd::prelude::*;
use vstd::utf8::*;

use crate::rules::split_from;
use crate::text::{has_double_colon, lemma_valid_token_ascii, token_pred, token_violation_spec};

verus! {

/// The pieces of `cs` joined by `sep`.
pub open spec fn join<A>(cs: Seq<Seq<A>>, sep: A) -> Seq<A>
    decreases cs.len(),
{
    if cs.len() == 0 {
        seq![]
    } else if cs.len() == 1 {
        cs[0]
    } else {
        join(cs.drop_last(), sep) + seq![sep] + cs.last()
    }
}

/// Joining splits off the first piece.
pub proof fn lemma_join_first<A>(cs: Seq<Seq<A>>, sep: A)
    requires
        cs.len() >= 2,
    ensures
        join(cs, sep) == cs[0] + seq![sep] + join(cs.drop_first(), sep),
    decreases cs.len(),
{
    if cs.len() == 2 {
        assert(cs.drop_last().len() == 1);
        assert(cs.drop_first().len() == 1);
        assert(join(cs.drop_first(), sep) == cs[1]);
    } else {
        lemma_join_first(cs.drop_last(), sep);
        assert(cs.drop_last().drop_first() =~= cs.drop_first().drop_last());
        assert(cs.drop_first().last() == cs.last());
        assert(cs.drop_last()[0] == cs[0]);
    }
}

/// The length of a join: the pieces and one separator between each two.
pub proof fn lemma_join_len<A>(cs: Seq<Seq<A>>, sep: A)
    requires
        cs.len() >= 1,
    ensures
        join(cs, sep).len() == pieces_len(cs) + cs.len() - 1,
    decreases cs.len(),
{
    if cs.len() > 1 {
        lemma_join_len(cs.drop_last(), sep);
    } else {
        assert(cs.drop_last().len() == 0);
        assert(pieces_len(cs.drop_last()) == 0);
    }
}

/// The total length of the pieces.
pub open spec fn pieces_len<A>(cs: Seq<Seq<A>>) -> nat
    decreases cs.len(),
{
    if cs.len() == 0 {
        0
    } else {
        pieces_len(cs.drop_last()) + cs.last().len()
    }
}

/// A prefix of the pieces is no longer than all of them.
pub proof fn lemma_pieces_len_prefix<A>(cs: Seq<Seq<A>>, k: int)
    requires
        0 <= k <= cs.len(),
    ensures
        pieces_len(cs.take(k)) <= pieces_len(cs),
    decreases cs.len(),
{
    if k < cs.len() {
        assert(cs.drop_last().take(k) =~= cs.take(k));
        lemma_pieces_len_prefix(cs.drop_last(), k);
    } else {
        assert(cs.take(k) =~= cs);
    }
}

/// UTF-8 encoding distributes over concatenation.
pub proof fn lemma_encode_concat(a: Seq<char>, b: Seq<char>)
    ensures
        encode_utf8(a + b) == encode_utf8(a) + encode_utf8(b),
    decreases a.len(),
{
    if a.len() == 0 {
        assert(a + b =~= b);
        assert(encode_utf8(a) =~= Seq::<u8>::empty());
        assert(encode_utf8(a) + encode_utf8(b) =~= encode_utf8(b));
    } else {
        assert((a + b).drop_first() =~= a.drop_first() + b);
        assert((a + b)[0] == a[0]);
        lemma_encode_concat(a.drop_first(), b);
        assert(encode_utf8(a + b) =~= encode_utf8(a) + encode_utf8(b));
    }
}

/// The UTF-8 encoding of a `>`-join is the `>`-join of the encodings.
pub proof fn lemma_encode_join(cs: Seq<Seq<char>>)
    ensures
        encode_utf8(join(cs, '>')) == join(cs.map_values(|c: Seq<char>| encode_utf8(c)), 62u8),
    decreases cs.len(),
{
    let es = cs.map_values(|c: Seq<char>| encode_utf8(c));
    if cs.len() == 0 {
        assert(encode_utf8(Seq::<char>::empty()) =~= Seq::<u8>::empty());
    } else if cs.len() == 1 {
        assert(es[0] == encode_utf8(cs[0]));
    } else {
        lemma_encode_join(cs.drop_last());
        assert(cs.drop_last().map_values(|c: Seq<char>| encode_utf8(c)) =~= es.drop_last());
        lemma_encode_concat(join(cs.drop_last(), '>') + seq!['>'], cs.last());
        lemma_encode_concat(join(cs.drop_last(), '>'), seq!['>']);
        assert(encode_utf8(seq!['>']) =~= seq![62u8]) by {
            assert(seq!['>'].drop_first() =~= Seq::<char>::empty());
            assert(encode_utf8(Seq::<char>::empty()) =~= Seq::<u8>::empty());
            assert(('>' as u32) == 62);
            assert((62u32 & 0x7Fu32) as u8 == 62u8) by (bit_vector);
            assert(encode_scalar(62u32) =~= seq![62u8]);
        }
        assert(es.last() == encode_utf8(cs.last()));
    }
}

/// Scanning bytes that are not `>` does not change the pieces found.
proof fn lemma_split_skips(s: Seq<u8>, start: int, i: int, j: int)
    requires
        0 <= i <= j <= s.len(),
        forall|k: int| i <= k < j ==> s[k] != 62,
    ensures
        split_from(s, start, i) == split_from(s, start, j),
    decreases j - i,
{
    if i < j {
        lemma_split_skips(s, start, i + 1, j);
    }
}

/// Splitting `prefix + join(cs, '>')` from the end of `prefix` gives back the
/// pieces, when no piece holds a `>`.
proof fn lemma_split_join_from(prefix: Seq<u8>, cs: Seq<Seq<u8>>)
    requires
        cs.len() >= 1,
        forall|p: int, k: int| 0 <= p < cs.len() && 0 <= k < cs[p].len() ==> #[trigger] cs[p][k] != 62,
    ensures
        split_from(prefix + join(cs, 62u8), prefix.len() as int, prefix.len() as int) == cs,
    decreases cs.len(),
{
    let s = prefix + join(cs, 62u8);
    let a = prefix.len() as int;
    let b = a + cs[0].len();
    if cs.len() == 1 {
        assert(s =~= prefix + cs[0]);
        assert forall|k: int| a <= k < s.len() implies s[k] != 62 by {
            assert(s[k] == cs[0][k - a]);
        }
        lemma_split_skips(s, a, a, s.len() as int);
        assert(s.subrange(a, s.len() as int) =~= cs[0]);
        assert(cs =~= seq![cs[0]]);
    } else {
        lemma_join_first(cs, 62u8);
        let rest = cs.drop_first();
        let prefix2 = prefix + cs[0] + seq![62u8];
        assert(s =~= prefix2 + join(rest, 62u8));
        assert forall|k: int| a <= k < b implies s[k] != 62 by {
            assert(s[k] == cs[0][k - a]);
        }
        lemma_split_skips(s, a, a, b);
        assert(s[b] == 62);
        assert(s.subrange(a, b) =~= cs[0]);
        assert forall|p: int, k: int| 0 <= p < rest.len() && 0 <= k < rest[p].len() implies #[trigger] rest[p][k]
            != 62 by {
            assert(rest[p] == cs[p + 1]);
        }
        lemma_split_join_from(prefix2, rest);
        assert(prefix2.len() == b + 1);
        assert(cs =~= seq![cs[0]] + rest);
    }
}

/// Splitting a `>`-join at `>` gives back its pieces, when no piece holds `>`.
pub proof fn lemma_split_join(cs: Seq<Seq<u8>>)
    requires
        cs.len() >= 1,
        forall|p: int, k: int| 0 <= p < cs.len() && 0 <= k < cs[p].len() ==> #[trigger] cs[p][k] != 62,
    ensures
        crate::rules::split_components(join(cs, 62u8)) == cs,
{
    lemma_split_join_from(Seq::<u8>::empty(), cs);
    assert(Seq::<u8>::empty() + join(cs, 62u8) =~= join(cs, 62u8));
}

/// A piece with no `::` stays without one when joined by `>`.
proof fn lemma_join_step_no_double_colon(a: Seq<u8>, b: Seq<u8>)
    requires
        !has_double_colon(a),
        !has_double_colon(b),
    ensures
        !has_double_colon(a + seq![62u8] + b),
{
    let s = a + seq![62u8] + b;
    if has_double_colon(s) {
        let i = choose|i: int| 0 <= i && i + 1 < s.len() && #[trigger] s[i] == 58 && s[i + 1] == 58;
        if i + 1 < a.len() {
            assert(s[i] == a[i] && s[i + 1] == a[i + 1]);
            assert(has_double_colon(a));
        } else if i + 1 == a.len() {
            assert(s[i + 1] == 62);
        } else if i == a.len() {
            assert(s[i] == 62);
        } else {
            let k = i - a.len() - 1;
            assert(s[i] == b[k] && s[i + 1] == b[k + 1]);
            assert(has_double_colon(b));
        }
    }
}

/// Pieces without `::` joined by `>` hold no `::`.
pub proof fn lemma_join_no_double_colon(cs: Seq<Seq<u8>>)
    requires
        forall|p: int| 0 <= p < cs.len() ==> !has_double_colon(#[trigger] cs[p]),
    ensures
        !has_double_colon(join(cs, 62u8)),
    decreases cs.len(),
{
    if cs.len() == 0 {
    } else if cs.len() == 1 {
        assert(!has_double_colon(cs[0]));
    } else {
        assert forall|p: int| 0 <= p < cs.drop_last().len() implies !has_double_colon(#[trigger] cs.drop_last()[p]) by {
            assert(cs.drop_last()[p] == cs[p]);
        }
        lemma_join_no_double_colon(cs.drop_last());
        assert(!has_double_colon(cs[cs.len() - 1]));
        lemma_join_step_no_double_colon(join(cs.drop_last(), 62u8), cs.last());
    }
}

/// Pieces of at most `bound` bytes add up to at most `bound` per piece.
pub proof fn lemma_pieces_len_bound<A>(cs: Seq<Seq<A>>, bound: nat)
    requires
        forall|p: int| 0 <= p < cs.len() ==> (#[trigger] cs[p]).len() <= bound,
    ensures
        pieces_len(cs) <= bound * cs.len(),
    decreases cs.len(),
{
    if cs.len() > 0 {
        assert forall|p: int| 0 <= p < cs.drop_last().len() implies (#[trigger] cs.drop_last()[p]).len() <= bound by {
            assert(cs.drop_last()[p] == cs[p]);
        }
        lemma_pieces_len_bound(cs.drop_last(), bound);
        assert(cs.last().len() <= bound);
        assert(bound * cs.len() == bound * cs.drop_last().len() + bound) by (nonlinear_arith)
            requires
                cs.drop_last().len() + 1 == cs.len(),
        ;
    }
}

/// A token that is valid without a length bound is valid under any bound that
/// its length meets.
pub proof fn lemma_token_within_bound(s: Seq<u8>, limit: u64)
    requires
        token_violation_spec(s, u64::MAX, true) is None,
        s.len() <= limit,
    ensures
        token_violation_spec(s, limit, true) is None,
{
}

/// A valid token holds neither `>` nor `::`.
pub proof fn lemma_token_has_no_separator(s: Seq<u8>)
    requires
        token_violation_spec(s, u64::MAX, true) is None,
    ensures
        forall|k: int| 0 <= k < s.len() ==> #[trigger] s[k] != 62,
        !has_double_colon(s),
{
    lemma_valid_token_ascii(s, u64::MAX, true);
    assert forall|k: int| 0 <= k < s.len() implies #[trigger] s[k] != 62 by {
        assert((token_pred())(s[k]));
    }
}

} // verus!
