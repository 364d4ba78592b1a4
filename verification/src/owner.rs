//! Local ownership closure after semantic preflight: an index from full child
//! addresses `(parent path, child key)` to claim counts.

use vstd::prelude::*;
use vstd::string::StringSliceAdditionalSpecFns;

use crate::diagnostic::DiagnosticBundle;
use crate::scratch::{granted, scratch_request, unchanged, PreflightScratch, ScratchVec};
use crate::split::{has_gt, last_gt, rsplit_once_gt, str_equal};
use crate::links::{section_keys, RoadSectionLinks};
use crate::preflight::key_bytes;
use crate::text::{find_double_colon, has_double_colon};

verus! {

/// The `(parent path, child key)` address of a local reference, split at its
/// last `>`; references qualified with `::` have none.
pub open spec fn local_child_key_spec(s: Seq<u8>) -> Option<(Seq<u8>, Seq<u8>)> {
    if has_double_colon(s) || !has_gt(s) {
        None
    } else {
        Some((s.take(last_gt(s)), s.skip(last_gt(s) + 1)))
    }
}

/// Splits a local reference into its parent path and child key.
pub fn local_child_key(reference: &str) -> (r: Option<(&str, &str)>)
    ensures
        match local_child_key_spec(reference.spec_bytes()) {
            None => r is None,
            Some((p, c)) => r matches Some((a, b)) && a.spec_bytes() == p && b.spec_bytes() == c,
        },
{
    if find_double_colon(reference.as_bytes()).is_some() {
        return None;
    }
    rsplit_once_gt(reference)
}

/// `i` is the first key of `keys` whose bytes are `k`.
pub open spec fn is_first_key(keys: Seq<(&str, &str)>, k: (Seq<u8>, Seq<u8>), i: int) -> bool {
    &&& 0 <= i < keys.len()
    &&& key_bytes(keys[i]) == k
    &&& forall|j: int| 0 <= j < i ==> key_bytes(#[trigger] keys[j]) != k
}

/// Some key of `keys` has the bytes `k`.
pub open spec fn has_key(keys: Seq<(&str, &str)>, k: (Seq<u8>, Seq<u8>)) -> bool {
    exists|i: int| 0 <= i < keys.len() && key_bytes(#[trigger] keys[i]) == k
}

/// The first position of `k` in `keys`.
pub open spec fn first_key(keys: Seq<(&str, &str)>, k: (Seq<u8>, Seq<u8>)) -> int {
    choose|i: int| is_first_key(keys, k, i)
}

proof fn lemma_first_key_unique(keys: Seq<(&str, &str)>, k: (Seq<u8>, Seq<u8>), i: int)
    requires
        is_first_key(keys, k, i),
    ensures
        has_key(keys, k),
        first_key(keys, k) == i,
{
    assert(key_bytes(keys[i]) == k);
    let p = first_key(keys, k);
    assert(is_first_key(keys, k, p));
    if p < i {
        assert(key_bytes(keys[p]) != k);
    }
    if i < p {
        assert(key_bytes(keys[i]) != k);
    }
}

/// The position that the local reference `r` addresses in `keys`, if any:
/// the first key equal to its `(parent path, child key)` split.
pub open spec fn key_position(keys: Seq<(&str, &str)>, r: Seq<u8>) -> Option<int> {
    match local_child_key_spec(r) {
        None => None,
        Some(k) => if has_key(keys, k) {
            Some(first_key(keys, k))
        } else {
            None
        },
    }
}

/// The claim counts after claiming `r`, or `None` when `r` addresses no key.
pub open spec fn claim_one(keys: Seq<(&str, &str)>, counts: Seq<u8>, r: Seq<u8>) -> Option<Seq<u8>> {
    match key_position(keys, r) {
        None => None,
        Some(p) => Some(counts.update(p, bump(counts[p]))),
    }
}

/// Every count is exactly one.
pub open spec fn all_once(counts: Seq<u8>) -> bool {
    forall|i: int| 0 <= i < counts.len() ==> #[trigger] counts[i] == 1
}

/// `n` zero claim counts.
pub open spec fn zeros(n: nat) -> Seq<u8> {
    Seq::new(n, |i: int| 0u8)
}

/// A claim count after one more claim, held at 255.
pub open spec fn bump(c: u8) -> u8 {
    if c == 255 {
        255u8
    } else {
        (c + 1) as u8
    }
}

/// An index of owned children with how often each was claimed.
pub struct OwnerIndex<'a> {
    entries: ScratchVec<((&'a str, &'a str), u8)>,
}

impl<'a> OwnerIndex<'a> {
    /// The entries: child address and claim count.
    pub closed spec fn spec_entries(&self) -> Seq<((&'a str, &'a str), u8)> {
        self.entries@
    }

    /// Scratch bytes held by the index.
    pub closed spec fn held_bytes(&self) -> u64 {
        self.entries.held()
    }

    /// The claim counts, in entry order.
    pub open spec fn counts(&self) -> Seq<u8> {
        self.spec_entries().map_values(|e: ((&'a str, &'a str), u8)| e.1)
    }

    /// The child addresses, in entry order.
    pub open spec fn keys(&self) -> Seq<(&'a str, &'a str)> {
        self.spec_entries().map_values(|e: ((&'a str, &'a str), u8)| e.0)
    }

    /// The position of the entry for `reference`, if any.
    pub open spec fn position_of(&self, reference: Seq<u8>) -> Option<int> {
        key_position(self.keys(), reference)
    }

    /// An index of `keys`, each claimed zero times, reserved in `scratch`.
    pub fn new(keys: &[(&'a str, &'a str)], scratch: &mut PreflightScratch) -> (r: Result<
        Self,
        DiagnosticBundle,
    >)
        ensures
            match scratch_request(
                old(scratch).spec_limits(),
                old(scratch).admitted(),
                old(scratch).live(),
                (keys@.len() * vstd::layout::size_of::<((&'a str, &'a str), u8)>()) as int,
            ) {
                Ok(live) => (r matches Ok(ix) && ix.keys() == keys@ && ix.counts() == zeros(keys@.len())
                    && ix.held_bytes() == live - old(scratch).live()) && granted(*old(scratch), *final(scratch), live),
                Err((d, l, o)) => (r matches Err(b) && b.is_limit_error(d, l, o)) && unchanged(
                    *old(scratch),
                    *final(scratch),
                ),
            },
            old(scratch).wf(),
    {
        let mut entries = scratch.reserve_vec::<((&'a str, &'a str), u8)>(keys.len())?;
        let ghost held = entries.held();
        let mut i: usize = 0;
        while i < keys.len()
            invariant
                i <= keys@.len(),
                entries@.len() == i,
                entries.held() == held,
                forall|j: int| 0 <= j < i ==> (#[trigger] entries@[j]).0 == keys@[j] && entries@[j].1 == 0,
            decreases keys@.len() - i,
        {
            entries.push((keys[i], 0));
            i = i + 1;
        }
        let ix = OwnerIndex { entries };
        proof {
            assert(ix.keys() =~= keys@);
            assert(ix.counts() =~= zeros(keys@.len()));
        }
        Ok(ix)
    }

    /// An index of the `(corridor, key)` addresses of `sections`, each claimed
    /// zero times, reserved in `scratch`.
    pub fn from_sections(sections: &[RoadSectionLinks<'a>], scratch: &mut PreflightScratch) -> (r: Result<
        Self,
        DiagnosticBundle,
    >)
        ensures
            match scratch_request(
                old(scratch).spec_limits(),
                old(scratch).admitted(),
                old(scratch).live(),
                (sections@.len() * vstd::layout::size_of::<((&'a str, &'a str), u8)>()) as int,
            ) {
                Ok(live) => (r matches Ok(ix) && ix.keys() == section_keys(sections@) && ix.counts() == zeros(
                    sections@.len(),
                ) && ix.held_bytes() == live - old(scratch).live()) && granted(*old(scratch), *final(scratch), live),
                Err((d, l, o)) => (r matches Err(b) && b.is_limit_error(d, l, o)) && unchanged(
                    *old(scratch),
                    *final(scratch),
                ),
            },
            old(scratch).wf(),
    {
        let mut entries = scratch.reserve_vec::<((&'a str, &'a str), u8)>(sections.len())?;
        let ghost held = entries.held();
        let mut i: usize = 0;
        while i < sections.len()
            invariant
                i <= sections@.len(),
                entries@.len() == i,
                entries.held() == held,
                forall|j: int|
                    0 <= j < i ==> (#[trigger] entries@[j]).0 == (sections@[j].road_corridor, sections@[j].road_section_key)
                        && entries@[j].1 == 0,
            decreases sections@.len() - i,
        {
            entries.push(((sections[i].road_corridor, sections[i].road_section_key), 0));
            i = i + 1;
        }
        let ix = OwnerIndex { entries };
        proof {
            assert(ix.keys() =~= section_keys(sections@));
            assert(ix.counts() =~= zeros(sections@.len()));
        }
        Ok(ix)
    }

    /// The position of the entry addressed by `reference`, if any.
    pub fn find(&self, reference: &str) -> (r: Option<usize>)
        ensures
            match self.position_of(reference.spec_bytes()) {
                None => r is None,
                Some(i) => 0 <= i < self.spec_entries().len() && (r matches Some(j) && j == i),
            },
    {
        let (parent, child) = match local_child_key(reference) {
            Some(k) => k,
            None => return None,
        };
        let ghost k = (parent.spec_bytes(), child.spec_bytes());
        let ghost keys = self.keys();
        let mut i: usize = 0;
        while i < self.entries.len()
            invariant
                i <= keys.len(),
                keys.len() == self.entries@.len(),
                keys == self.entries@.map_values(|e: ((&'a str, &'a str), u8)| e.0),
                local_child_key_spec(reference.spec_bytes()) == Some(k),
                k == (parent.spec_bytes(), child.spec_bytes()),
                forall|j: int| 0 <= j < i ==> key_bytes(#[trigger] keys[j]) != k,
            decreases keys.len() - i,
        {
            let entry = self.entries.entries()[i];
            assert(entry.0 == keys[i as int]);
            let same_parent = str_equal(entry.0.0, parent);
            let same_child = str_equal(entry.0.1, child);
            let same = same_parent && same_child;
            assert(same == (key_bytes(keys[i as int]) == k));
            if same {
                proof {
                    lemma_first_key_unique(keys, k, i as int);
                }
                return Some(i);
            }
            i = i + 1;
        }
        proof {
            if has_key(keys, k) {
                let j = choose|j: int| 0 <= j < keys.len() && key_bytes(#[trigger] keys[j]) == k;
                assert(key_bytes(keys[j]) != k);
            }
        }
        None
    }

    /// Counts one claim of the entry addressed by `reference`; `false` when
    /// there is none.
    pub fn claim(&mut self, reference: &str) -> (r: bool)
        ensures
            r == old(self).position_of(reference.spec_bytes()) is Some,
            final(self).held_bytes() == old(self).held_bytes(),
            final(self).keys() == old(self).keys(),
            match claim_one(old(self).keys(), old(self).counts(), reference.spec_bytes()) {
                None => !r && final(self).counts() == old(self).counts(),
                Some(c) => r && final(self).counts() == c,
            },
            final(self).spec_entries().len() == old(self).spec_entries().len(),
            forall|i: int|
                0 <= i < old(self).spec_entries().len() ==> (#[trigger] final(self).spec_entries()[i]).0
                    == old(self).spec_entries()[i].0,
            match old(self).position_of(reference.spec_bytes()) {
                None => final(self).counts() == old(self).counts(),
                Some(p) => final(self).counts() == old(self).counts().update(
                    p,
                    bump(old(self).counts()[p]),
                ),
            },
    {
        let index = match self.find(reference) {
            Some(i) => i,
            None => {
                return false;
            },
        };
        let (key, count) = self.entries.entries()[index];
        assert(old(self).counts()[index as int] == count);
        let next: u8 = if count == 255 { 255 } else { count + 1 };
        self.entries.set(index, (key, next));
        proof {
            assert(self.counts() =~= old(self).counts().update(index as int, next));
            assert(self.keys() =~= old(self).keys());
        }
        true
    }

    /// Whether every entry was claimed exactly once.
    pub fn all_owned_once(&self) -> (r: bool)
        ensures
            r == all_once(self.counts()),
    {
        let mut i: usize = 0;
        while i < self.entries.len()
            invariant
                i <= self.spec_entries().len(),
                self.spec_entries() == self.entries@,
                forall|j: int| 0 <= j < i ==> #[trigger] self.counts()[j] == 1,
            decreases self.spec_entries().len() - i,
        {
            if self.entries.entries()[i].1 != 1 {
                assert(self.counts()[i as int] != 1);
                return false;
            }
            i = i + 1;
        }
        true
    }

    /// Returns the index's scratch reservation.
    pub fn release(self, scratch: &mut PreflightScratch)
        requires
            old(scratch).live() >= self.held_bytes(),
        ensures
            final(scratch).live() == old(scratch).live() - self.held_bytes(),
            final(scratch).peak() == old(scratch).peak(),
            final(scratch).spec_limits() == old(scratch).spec_limits(),
            final(scratch).admitted() == old(scratch).admitted(),
    {
        scratch.release_vec(self.entries);
    }
}

} // verus!
