//! The canonical order of reference targets: by namespace (the current one
//! for an unqualified reference), then owner keys, then local key, each
//! compared by bytes.

use std::cmp::Ordering;

use vstd::prelude::*;
use vstd::string::StringSliceAdditionalSpecFns;

use crate::byte_order::{
    byte_strings_lt, bytes_compare, lemma_byte_strings_lt_asymmetric, lemma_byte_strings_lt_irreflexive,
    lemma_byte_strings_lt_total, lemma_byte_strings_lt_transitive, lemma_bytes_lt_asymmetric, strings_bytes,
    strings_compare, Comparison,
};
use crate::policy::{bytes_lt, lemma_bytes_lt_irreflexive, lemma_bytes_lt_total, lemma_bytes_lt_transitive};
use crate::reference::RoadEditingReference;
use crate::text::string_bytes;

verus! {

/// The sort key of the target of `r` read in the namespace `current`: its
/// namespace, owner keys and local key as bytes.
pub open spec fn target_key(r: RoadEditingReference, current: Seq<u8>) -> (Seq<u8>, Seq<Seq<u8>>, Seq<u8>) {
    (
        match r.namespace_view() {
            Some(ns) => string_bytes(ns),
            None => current,
        },
        r.owner_key_strings().map_values(|k: String| string_bytes(k@)),
        string_bytes(r.local_key_view()),
    )
}

/// The canonical order of sort keys: namespace, then owner keys, then local
/// key.
pub open spec fn key_lt(a: (Seq<u8>, Seq<Seq<u8>>, Seq<u8>), b: (Seq<u8>, Seq<Seq<u8>>, Seq<u8>)) -> bool {
    ||| bytes_lt(a.0, b.0)
    ||| a.0 == b.0 && byte_strings_lt(a.1, b.1)
    ||| a.0 == b.0 && a.1 == b.1 && bytes_lt(a.2, b.2)
}

impl RoadEditingReference {
    /// Compares the targets of two references in canonical order, reading an
    /// unqualified reference in `current_namespace`: namespace, then owner
    /// keys, then local key, each by bytes.
    pub fn canonical_target_cmp(&self, other: &Self, current_namespace: &str) -> (r: Ordering)
        ensures
            (r is Less) == key_lt(
                target_key(*self, current_namespace.spec_bytes()),
                target_key(*other, current_namespace.spec_bytes()),
            ),
            (r is Greater) == key_lt(
                target_key(*other, current_namespace.spec_bytes()),
                target_key(*self, current_namespace.spec_bytes()),
            ),
            (r is Equal) == (target_key(*self, current_namespace.spec_bytes()) == target_key(
                *other,
                current_namespace.spec_bytes(),
            )),
    {
        match self.target_compare(other, current_namespace) {
            Comparison::Less => Ordering::Less,
            Comparison::Equal => Ordering::Equal,
            Comparison::Greater => Ordering::Greater,
        }
    }

    /// The comparison behind [`RoadEditingReference::canonical_target_cmp`].
    pub fn target_compare(&self, other: &Self, current_namespace: &str) -> (r: Comparison)
        ensures
            orders_keys(r, target_key(*self, current_namespace.spec_bytes()), target_key(*other, current_namespace.spec_bytes())),
    {
        let a = match self.module_namespace() {
            Some(ns) => ns,
            None => current_namespace,
        };
        let b = match other.module_namespace() {
            Some(ns) => ns,
            None => current_namespace,
        };
        let ghost ka = target_key(*self, current_namespace.spec_bytes());
        let ghost kb = target_key(*other, current_namespace.spec_bytes());
        let first = bytes_compare(a.as_bytes(), b.as_bytes());
        proof {
            assert(a.spec_bytes() == ka.0);
            assert(b.spec_bytes() == kb.0);
        }
        if first != Comparison::Equal {
            proof {
                if first is Less {
                    lemma_bytes_lt_asymmetric(ka.0, kb.0);
                } else {
                    lemma_bytes_lt_asymmetric(kb.0, ka.0);
                }
            }
            return first;
        }
        let oa = self.owner_keys();
        let ob = other.owner_keys();
        proof {
            assert(strings_bytes(oa@) == ka.1);
            assert(strings_bytes(ob@) == kb.1);
        }
        let second = strings_compare(oa, ob);
        if second != Comparison::Equal {
            proof {
                if second is Less {
                    lemma_byte_strings_lt_asymmetric(ka.1, kb.1);
                } else {
                    lemma_byte_strings_lt_asymmetric(kb.1, ka.1);
                }
            }
            return second;
        }
        let la = self.local_key();
        let lb = other.local_key();
        proof {
            assert(la.spec_bytes() == ka.2);
            assert(lb.spec_bytes() == kb.2);
        }
        bytes_compare(la.as_bytes(), lb.as_bytes())
    }
}

/// `r` says how the sort key `a` compares with `b`.
pub open spec fn orders_keys(r: Comparison, a: (Seq<u8>, Seq<Seq<u8>>, Seq<u8>), b: (Seq<u8>, Seq<Seq<u8>>, Seq<u8>)) -> bool {
    &&& (r is Less) == key_lt(a, b)
    &&& (r is Greater) == key_lt(b, a)
    &&& (r is Equal) == (a == b)
}

/// The canonical order of reference targets is a strict total order: no key
/// sorts before itself, the order is transitive, and of two distinct keys
/// one sorts before the other.
pub proof fn law_target_order_is_strict_total(
    a: (Seq<u8>, Seq<Seq<u8>>, Seq<u8>),
    b: (Seq<u8>, Seq<Seq<u8>>, Seq<u8>),
    c: (Seq<u8>, Seq<Seq<u8>>, Seq<u8>),
)
    ensures
        !key_lt(a, a),
        key_lt(a, b) && key_lt(b, c) ==> key_lt(a, c),
        a != b ==> key_lt(a, b) || key_lt(b, a),
{
    lemma_bytes_lt_irreflexive(a.0);
    lemma_byte_strings_lt_irreflexive(a.1);
    lemma_bytes_lt_irreflexive(a.2);
    if key_lt(a, b) && key_lt(b, c) {
        if bytes_lt(a.0, b.0) && bytes_lt(b.0, c.0) {
            lemma_bytes_lt_transitive(a.0, b.0, c.0);
        } else if a.0 == b.0 && b.0 == c.0 && byte_strings_lt(a.1, b.1) && byte_strings_lt(b.1, c.1) {
            lemma_byte_strings_lt_transitive(a.1, b.1, c.1);
        } else if a.0 == b.0 && b.0 == c.0 && a.1 == b.1 && b.1 == c.1 {
            lemma_bytes_lt_transitive(a.2, b.2, c.2);
        }
    }
    if a != b {
        if a.0 != b.0 {
            lemma_bytes_lt_total(a.0, b.0);
        } else if a.1 != b.1 {
            lemma_byte_strings_lt_total(a.1, b.1);
        } else {
            lemma_bytes_lt_total(a.2, b.2);
        }
    }
}

} // verus!
