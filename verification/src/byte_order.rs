//! Byte-lexicographic comparison of byte strings and of sequences of them.

use vstd::prelude::*;
use vstd::string::StringSliceAdditionalSpecFns;

use crate::policy::{bytes_lt, lemma_bytes_lt_irreflexive, lemma_bytes_lt_total, lemma_bytes_lt_transitive};
use crate::text::string_bytes;

verus! {

/// How one value compares with another.
#[derive(Clone, Copy, Debug, PartialEq, Eq, Structural)]
pub enum Comparison {
    Less,
    Equal,
    Greater,
}

/// Lexicographic order of sequences of byte strings: the first differing
/// string decides by bytes, and a proper prefix sorts first.
pub open spec fn byte_strings_lt(a: Seq<Seq<u8>>, b: Seq<Seq<u8>>) -> bool
    decreases a.len(),
{
    if a.len() == 0 {
        b.len() > 0
    } else if b.len() == 0 {
        false
    } else if a[0] != b[0] {
        bytes_lt(a[0], b[0])
    } else {
        byte_strings_lt(a.skip(1), b.skip(1))
    }
}

/// `r` says how `a` compares with `b` under `lt`.
pub open spec fn orders<T>(r: Comparison, a: T, b: T, lt: spec_fn(T, T) -> bool) -> bool {
    &&& (r is Less) == lt(a, b)
    &&& (r is Greater) == lt(b, a)
    &&& (r is Equal) == (a == b)
}

/// A byte string never sorts before itself.
pub proof fn lemma_bytes_lt_asymmetric(a: Seq<u8>, b: Seq<u8>)
    requires
        bytes_lt(a, b),
    ensures
        !bytes_lt(b, a),
        a != b,
{
    lemma_bytes_lt_irreflexive(a);
    if bytes_lt(b, a) {
        lemma_bytes_lt_transitive(a, b, a);
    }
}

/// Compares two byte strings.
pub fn bytes_compare(a: &[u8], b: &[u8]) -> (r: Comparison)
    ensures
        orders(r, a@, b@, |x: Seq<u8>, y: Seq<u8>| bytes_lt(x, y)),
{
    proof {
        assert(a@.skip(0) =~= a@);
        assert(b@.skip(0) =~= b@);
    }
    let mut i: usize = 0;
    while i < a.len() && i < b.len()
        invariant
            i <= a@.len(),
            i <= b@.len(),
            a@.take(i as int) == b@.take(i as int),
            bytes_lt(a@, b@) == bytes_lt(a@.skip(i as int), b@.skip(i as int)),
            bytes_lt(b@, a@) == bytes_lt(b@.skip(i as int), a@.skip(i as int)),
        decreases a@.len() - i,
    {
        if a[i] != b[i] {
            proof {
                if a[i as int] < b[i as int] {
                    lemma_bytes_lt_asymmetric(a@, b@);
                } else {
                    lemma_bytes_lt_asymmetric(b@, a@);
                }
            }
            if a[i] < b[i] {
                return Comparison::Less;
            } else {
                return Comparison::Greater;
            }
        }
        proof {
            assert(a@.skip(i as int).skip(1) =~= a@.skip(i + 1));
            assert(b@.skip(i as int).skip(1) =~= b@.skip(i + 1));
            assert(a@.take(i + 1) =~= a@.take(i as int).push(a@[i as int]));
            assert(b@.take(i + 1) =~= b@.take(i as int).push(b@[i as int]));
        }
        i = i + 1;
    }
    if i < b.len() {
        proof {
            assert(a@.take(i as int) =~= a@);
            assert(a@ != b@);
        }
        Comparison::Less
    } else if i < a.len() {
        proof {
            assert(b@.take(i as int) =~= b@);
            assert(a@ != b@);
        }
        Comparison::Greater
    } else {
        proof {
            assert(a@.take(i as int) =~= a@);
            assert(b@.take(i as int) =~= b@);
            lemma_bytes_lt_irreflexive(a@);
        }
        Comparison::Equal
    }
}

/// The byte strings of owned strings.
pub open spec fn strings_bytes(values: Seq<String>) -> Seq<Seq<u8>> {
    values.map_values(|k: String| string_bytes(k@))
}

/// The order of sequences of byte strings is irreflexive.
pub proof fn lemma_byte_strings_lt_irreflexive(a: Seq<Seq<u8>>)
    ensures
        !byte_strings_lt(a, a),
    decreases a.len(),
{
    if a.len() > 0 {
        lemma_byte_strings_lt_irreflexive(a.skip(1));
    }
}

/// The order of sequences of byte strings is transitive.
pub proof fn lemma_byte_strings_lt_transitive(a: Seq<Seq<u8>>, b: Seq<Seq<u8>>, c: Seq<Seq<u8>>)
    requires
        byte_strings_lt(a, b),
        byte_strings_lt(b, c),
    ensures
        byte_strings_lt(a, c),
    decreases a.len(),
{
    if a.len() > 0 && b.len() > 0 && c.len() > 0 {
        if a[0] == b[0] && b[0] == c[0] {
            lemma_byte_strings_lt_transitive(a.skip(1), b.skip(1), c.skip(1));
        } else if a[0] == b[0] {
            assert(bytes_lt(b[0], c[0]));
        } else if b[0] == c[0] {
            assert(bytes_lt(a[0], b[0]));
        } else {
            lemma_bytes_lt_transitive(a[0], b[0], c[0]);
            if a[0] == c[0] {
                lemma_bytes_lt_irreflexive(a[0]);
            }
        }
    }
}

/// Distinct sequences of byte strings are ordered one way or the other.
pub proof fn lemma_byte_strings_lt_total(a: Seq<Seq<u8>>, b: Seq<Seq<u8>>)
    requires
        a != b,
    ensures
        byte_strings_lt(a, b) || byte_strings_lt(b, a),
    decreases a.len(),
{
    if a.len() > 0 && b.len() > 0 {
        if a[0] == b[0] {
            if a.skip(1) == b.skip(1) {
                assert(a =~= seq![a[0]] + a.skip(1));
                assert(b =~= seq![b[0]] + b.skip(1));
            }
            lemma_byte_strings_lt_total(a.skip(1), b.skip(1));
        } else {
            lemma_bytes_lt_total(a[0], b[0]);
        }
    } else if a.len() == 0 && b.len() == 0 {
        assert(a =~= b);
    }
}

/// A sequence of byte strings never sorts before itself, nor both ways.
pub proof fn lemma_byte_strings_lt_asymmetric(a: Seq<Seq<u8>>, b: Seq<Seq<u8>>)
    requires
        byte_strings_lt(a, b),
    ensures
        !byte_strings_lt(b, a),
        a != b,
{
    lemma_byte_strings_lt_irreflexive(a);
    if byte_strings_lt(b, a) {
        lemma_byte_strings_lt_transitive(a, b, a);
    }
}

/// Compares two sequences of owned strings by their bytes.
pub fn strings_compare(a: &[String], b: &[String]) -> (r: Comparison)
    ensures
        orders(r, strings_bytes(a@), strings_bytes(b@), |x: Seq<Seq<u8>>, y: Seq<Seq<u8>>| byte_strings_lt(x, y)),
{
    let ghost x = strings_bytes(a@);
    let ghost y = strings_bytes(b@);
    proof {
        assert(x.skip(0) =~= x);
        assert(y.skip(0) =~= y);
    }
    let mut i: usize = 0;
    while i < a.len() && i < b.len()
        invariant
            x == strings_bytes(a@),
            y == strings_bytes(b@),
            i <= a@.len(),
            i <= b@.len(),
            x.take(i as int) == y.take(i as int),
            byte_strings_lt(x, y) == byte_strings_lt(x.skip(i as int), y.skip(i as int)),
            byte_strings_lt(y, x) == byte_strings_lt(y.skip(i as int), x.skip(i as int)),
        decreases a@.len() - i,
    {
        let o = bytes_compare(a[i].as_str().as_bytes(), b[i].as_str().as_bytes());
        proof {
            assert(x[i as int] == string_bytes(a@[i as int]@));
            assert(y[i as int] == string_bytes(b@[i as int]@));
            assert(x.skip(i as int)[0] == x[i as int]);
            assert(y.skip(i as int)[0] == y[i as int]);
        }
        match o {
            Comparison::Equal => {},
            _ => {
                proof {
                    if o is Less {
                        lemma_byte_strings_lt_asymmetric(x, y);
                    } else {
                        lemma_byte_strings_lt_asymmetric(y, x);
                    }
                }
                return o;
            },
        }
        proof {
            assert(x.skip(i as int).skip(1) =~= x.skip(i + 1));
            assert(y.skip(i as int).skip(1) =~= y.skip(i + 1));
            assert(x.take(i + 1) =~= x.take(i as int).push(x[i as int]));
            assert(y.take(i + 1) =~= y.take(i as int).push(y[i as int]));
        }
        i = i + 1;
    }
    if i < b.len() {
        proof {
            assert(x.take(i as int) =~= x);
            assert(x.len() != y.len());
        }
        Comparison::Less
    } else if i < a.len() {
        proof {
            assert(y.take(i as int) =~= y);
            assert(x.len() != y.len());
        }
        Comparison::Greater
    } else {
        proof {
            assert(x.take(i as int) =~= x);
            assert(y.take(i as int) =~= y);
            lemma_byte_strings_lt_irreflexive(x);
        }
        Comparison::Equal
    }
}

} // verus!
