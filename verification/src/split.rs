//! Splitting string slices at ASCII delimiters (`::`, `>`), stated over bytes.

use vstd::prelude::*;
use vstd::string::StringSliceAdditionalSpecFns;
use vstd::utf8::*;

use crate::text::{find_double_colon, first_double_colon, has_double_colon, lemma_first_double_colon_unique};

verus! {

broadcast use encode_utf8_valid_utf8;

/// A prefix of ASCII bytes ends on a character boundary.
proof fn lemma_ascii_prefix_boundary(b: Seq<u8>, n: int)
    requires
        valid_utf8(b),
        0 <= n <= b.len(),
        forall|j: int| 0 <= j < n ==> #[trigger] b[j] < 128,
    ensures
        is_char_boundary(b, n),
    decreases n,
{
    if n > 0 {
        reveal_with_fuel(is_char_boundary, 2);
        assert(length_of_first_scalar(b) == 1);
        let rest = pop_first_scalar(b);
        assert(rest =~= b.skip(1));
        assert(valid_utf8(rest));
        assert forall|j: int| 0 <= j < n - 1 implies #[trigger] rest[j] < 128 by {
            assert(rest[j] == b[j + 1]);
        }
        lemma_ascii_prefix_boundary(rest, n - 1);
    }
}

/// Splits `value` at byte `mid`, which must start an ASCII byte or be the end.
pub fn split_at_ascii(value: &str, mid: usize) -> (r: (&str, &str))
    requires
        mid <= value.spec_bytes().len(),
        mid < value.spec_bytes().len() ==> value.spec_bytes()[mid as int] < 128,
    ensures
        r.0.spec_bytes() == value.spec_bytes().take(mid as int),
        r.1.spec_bytes() == value.spec_bytes().skip(mid as int),
{
    let ghost b = value.spec_bytes();
    proof {
        if mid < b.len() {
            is_char_boundary_iff_not_is_continuation_byte(b, mid as int);
        } else {
            is_char_boundary_start_end_of_seq(b);
        }
    }
    let (head, tail) = value.split_at(mid);
    proof {
        assert(head.spec_bytes() =~= b.take(mid as int));
        assert(tail.spec_bytes() =~= b.skip(mid as int));
    }
    (head, tail)
}

/// Drops the first `n` bytes of `value`, all of which are ASCII.
pub fn skip_ascii(value: &str, n: usize) -> (r: &str)
    requires
        n <= value.spec_bytes().len(),
        forall|j: int| 0 <= j < n ==> #[trigger] value.spec_bytes()[j] < 128,
    ensures
        r.spec_bytes() == value.spec_bytes().skip(n as int),
{
    let ghost b = value.spec_bytes();
    proof {
        lemma_ascii_prefix_boundary(b, n as int);
    }
    let (_, tail) = value.split_at(n);
    proof {
        assert(tail.spec_bytes() =~= b.skip(n as int));
    }
    tail
}

/// `str::split_once("::")`: the parts before and after the first `::`.
pub fn split_once_double_colon(value: &str) -> (r: Option<(&str, &str)>)
    ensures
        r is Some <==> has_double_colon(value.spec_bytes()),
        r matches Some((a, b)) ==> {
            &&& a.spec_bytes() == value.spec_bytes().take(first_double_colon(value.spec_bytes()))
            &&& b.spec_bytes() == value.spec_bytes().skip(first_double_colon(value.spec_bytes()) + 2)
        },
{
    let bytes = value.as_bytes();
    match find_double_colon(bytes) {
        Some(i) => {
            proof {
                lemma_first_double_colon_unique(bytes@, i as int);
            }
            let (head, tail) = split_at_ascii(value, i);
            let rest = skip_ascii(tail, 2);
            proof {
                assert(rest.spec_bytes() =~= bytes@.skip(i + 2));
            }
            Some((head, rest))
        },
        None => None,
    }
}

/// `i` is the last position of `>` in `s`.
pub open spec fn is_last_gt(s: Seq<u8>, i: int) -> bool {
    &&& 0 <= i < s.len()
    &&& s[i] == 62
    &&& forall|j: int| i < j < s.len() ==> #[trigger] s[j] != 62
}

/// `s` holds the owner separator `>`.
pub open spec fn has_gt(s: Seq<u8>) -> bool {
    exists|i: int| 0 <= i < s.len() && #[trigger] s[i] == 62
}

/// The position of the last owner separator `>` of `s`.
pub open spec fn last_gt(s: Seq<u8>) -> int {
    choose|i: int| is_last_gt(s, i)
}

proof fn lemma_last_gt_unique(s: Seq<u8>, i: int)
    requires
        is_last_gt(s, i),
    ensures
        has_gt(s),
        last_gt(s) == i,
{
    assert(s[i] == 62);
    let k = last_gt(s);
    assert(is_last_gt(s, k));
    if k < i {
        assert(s[i] != 62);
    }
    if i < k {
        assert(s[k] != 62);
    }
}

/// `str::rsplit_once('>')`: the parts before and after the last `>`.
pub fn rsplit_once_gt(value: &str) -> (r: Option<(&str, &str)>)
    ensures
        r is Some <==> has_gt(value.spec_bytes()),
        r matches Some((a, b)) ==> {
            &&& a.spec_bytes() == value.spec_bytes().take(last_gt(value.spec_bytes()))
            &&& b.spec_bytes() == value.spec_bytes().skip(last_gt(value.spec_bytes()) + 1)
        },
{
    let bytes = value.as_bytes();
    let mut i: usize = bytes.len();
    while i > 0
        invariant
            i <= bytes@.len(),
            bytes@ == value.spec_bytes(),
            forall|j: int| i <= j < bytes@.len() ==> #[trigger] bytes@[j] != 62,
        decreases i,
    {
        if bytes[i - 1] == 62 {
            proof {
                lemma_last_gt_unique(bytes@, i - 1);
            }
            let (head, tail) = split_at_ascii(value, i - 1);
            let rest = skip_ascii(tail, 1);
            proof {
                assert(rest.spec_bytes() =~= bytes@.skip(i as int));
            }
            return Some((head, rest));
        }
        i = i - 1;
    }
    proof {
        if has_gt(bytes@) {
            let k = choose|k: int| 0 <= k < bytes@.len() && #[trigger] bytes@[k] == 62;
            assert(bytes@[k] != 62);
        }
    }
    None
}

/// Whether two string slices have the same bytes.
pub fn str_equal(a: &str, b: &str) -> (r: bool)
    ensures
        r == (a.spec_bytes() == b.spec_bytes()),
{
    crate::declaration::bytes_equal(a.as_bytes(), b.as_bytes())
}

} // verus!
