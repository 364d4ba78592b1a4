//! The canonical order in which a reference vector is written: by target,
//! read in the current namespace, with targets that compare equal kept in
//! input order.

use vstd::prelude::*;
use vstd::string::StringSliceAdditionalSpecFns;

use crate::byte_order::Comparison;
use crate::reference::RoadEditingReference;
use crate::reference_order::{key_lt, law_target_order_is_strict_total, target_key};

verus! {

/// `order` holds the position `x`.
pub open spec fn lists(order: Seq<usize>, x: int) -> bool {
    exists|a: int| 0 <= a < order.len() && order[a] == x
}

/// `order` lists each of the positions `0..n` exactly once.
pub open spec fn is_ordering(order: Seq<usize>, n: nat) -> bool {
    &&& order.len() == n
    &&& forall|a: int| 0 <= a < order.len() ==> order[a] < n
    &&& forall|a: int, b: int| 0 <= a < b < order.len() ==> order[a] != order[b]
    &&& forall|x: int| 0 <= x < n ==> #[trigger] lists(order, x)
}

/// The sort key of the item at position `i` of `values`.
pub open spec fn key_at(values: Seq<RoadEditingReference>, i: usize, current: Seq<u8>) -> (Seq<u8>, Seq<Seq<u8>>, Seq<u8>) {
    target_key(values[i as int], current)
}

/// `order` lists `values` by canonical target: no later entry sorts before
/// an earlier one, and entries that compare equal keep their input order.
pub open spec fn sorted_by_target(values: Seq<RoadEditingReference>, order: Seq<usize>, current: Seq<u8>) -> bool {
    &&& forall|a: int, b: int|
        0 <= a < b < order.len() ==> !key_lt(key_at(values, #[trigger] order[b], current), key_at(values, #[trigger] order[a], current))
    &&& forall|a: int, b: int|
        0 <= a < b < order.len() && key_at(values, #[trigger] order[a], current) == key_at(values, #[trigger] order[b], current)
            ==> order[a] < order[b]
}

/// The first position of `order` whose item sorts after `values[i]`, or the
/// end.
fn insertion_point(values: &[RoadEditingReference], order: &Vec<usize>, i: usize, current_namespace: &str) -> (p: usize)
    requires
        i < values@.len(),
        forall|a: int| 0 <= a < order@.len() ==> order@[a] < values@.len(),
    ensures
        p <= order@.len(),
        forall|a: int| 0 <= a < p ==> !key_lt(key_at(values@, i, current_namespace.spec_bytes()), key_at(values@, #[trigger] order@[a], current_namespace.spec_bytes())),
        p < order@.len() ==> key_lt(key_at(values@, i, current_namespace.spec_bytes()), key_at(values@, order@[p as int], current_namespace.spec_bytes())),
{
    let mut p: usize = 0;
    while p < order.len()
        invariant
            p <= order@.len(),
            i < values@.len(),
            forall|a: int| 0 <= a < order@.len() ==> order@[a] < values@.len(),
            forall|a: int| 0 <= a < p ==> !key_lt(key_at(values@, i, current_namespace.spec_bytes()), key_at(values@, #[trigger] order@[a], current_namespace.spec_bytes())),
        decreases order@.len() - p,
    {
        if values[i].target_compare(&values[order[p]], current_namespace) == Comparison::Less {
            return p;
        }
        p = p + 1;
    }
    p
}

/// The positions of `values` in canonical target order, read in
/// `current_namespace`; targets that compare equal keep their input order.
pub fn canonical_reference_order(values: &[RoadEditingReference], current_namespace: &str) -> (r: Vec<usize>)
    ensures
        is_ordering(r@, values@.len()),
        sorted_by_target(values@, r@, current_namespace.spec_bytes()),
{
    let ghost cur = current_namespace.spec_bytes();
    let mut order: Vec<usize> = Vec::new();
    let mut i: usize = 0;
    while i < values.len()
        invariant
            i <= values@.len(),
            cur == current_namespace.spec_bytes(),
            is_ordering(order@, i as nat),
            sorted_by_target(values@, order@, cur),
        decreases values@.len() - i,
    {
        let p = insertion_point(values, &order, i, current_namespace);
        let ghost before = order@;
        order.insert(p, i);
        proof {
            let after = order@;
            assert(after == before.insert(p as int, i));
            let ki = key_at(values@, i, cur);
            // Every earlier index now comes from `before`, the new one is `i`.
            assert forall|a: int| 0 <= a < after.len() implies after[a] < i + 1 by {
                if a < p {
                    assert(after[a] == before[a]);
                } else if a > p {
                    assert(after[a] == before[a - 1]);
                }
            }
            assert forall|a: int, b: int| 0 <= a < b < after.len() implies after[a] != after[b] by {
                if a < p && b < p {
                    assert(after[a] == before[a] && after[b] == before[b]);
                } else if a < p && b == p {
                    assert(after[a] == before[a]);
                } else if a < p && b > p {
                    assert(after[a] == before[a] && after[b] == before[b - 1]);
                } else if a == p {
                    assert(after[b] == before[b - 1]);
                } else {
                    assert(after[a] == before[a - 1] && after[b] == before[b - 1]);
                }
            }
            assert forall|x: int| 0 <= x < i + 1 implies #[trigger] lists(after, x) by {
                if x == i {
                    assert(after[p as int] == i);
                } else {
                    assert(lists(before, x));
                    let a0 = choose|a: int| 0 <= a < before.len() && before[a] == x;
                    if a0 < p {
                        assert(after[a0] == x);
                    } else {
                        assert(after[a0 + 1] == x);
                    }
                }
            }
            assert forall|a: int, b: int| 0 <= a < b < after.len() implies !key_lt(
                key_at(values@, #[trigger] after[b], cur),
                key_at(values@, #[trigger] after[a], cur),
            ) by {
                if a < p && b < p {
                    assert(after[a] == before[a] && after[b] == before[b]);
                } else if a < p && b == p {
                    assert(after[a] == before[a]);
                    assert(!key_lt(ki, key_at(values@, before[a], cur)));
                } else if a < p && b > p {
                    assert(after[a] == before[a] && after[b] == before[b - 1]);
                } else if a == p {
                    assert(after[b] == before[b - 1]);
                    let kp = key_at(values@, before[p as int], cur);
                    let kb = key_at(values@, before[b - 1], cur);
                    assert(key_lt(ki, kp));
                    if b - 1 > p {
                        assert(!key_lt(kb, kp));
                    }
                    law_target_order_is_strict_total(ki, kp, kb);
                    law_target_order_is_strict_total(kb, ki, kp);
                    law_target_order_is_strict_total(ki, kb, kp);
                    law_target_order_is_strict_total(kp, kb, ki);
                } else {
                    assert(after[a] == before[a - 1] && after[b] == before[b - 1]);
                }
            }
            assert forall|a: int, b: int|
                0 <= a < b < after.len() && key_at(values@, #[trigger] after[a], cur) == key_at(values@, #[trigger] after[b], cur)
                implies after[a] < after[b] by {
                if a < p && b < p {
                    assert(after[a] == before[a] && after[b] == before[b]);
                } else if a < p && b == p {
                    assert(after[a] == before[a]);
                } else if a < p && b > p {
                    assert(after[a] == before[a] && after[b] == before[b - 1]);
                } else if a == p {
                    assert(after[b] == before[b - 1]);
                    let kp = key_at(values@, before[p as int], cur);
                    let kb = key_at(values@, before[b - 1], cur);
                    assert(key_lt(ki, kp));
                    if b - 1 > p {
                        assert(!key_lt(kb, kp));
                    }
                    law_target_order_is_strict_total(ki, kp, kb);
                    law_target_order_is_strict_total(kb, kb, kb);
                } else {
                    assert(after[a] == before[a - 1] && after[b] == before[b - 1]);
                }
            }
        }
        i = i + 1;
    }
    order
}

/// The wire spellings of `values` in canonical target order, read in
/// `current_namespace`; see [`canonical_reference_order`].
pub fn sorted_reference_spellings(values: &[RoadEditingReference], current_namespace: &str) -> (r: Vec<String>)
    ensures
        exists|order: Seq<usize>|
            is_ordering(order, values@.len()) && sorted_by_target(values@, order, current_namespace.spec_bytes()) && r@.len()
                == order.len() && forall|k: int| 0 <= k < order.len() ==> (#[trigger] r@[k])@ == values@[order[k] as int].spelling_view(),
{
    let order = canonical_reference_order(values, current_namespace);
    let mut out: Vec<String> = Vec::new();
    let mut k: usize = 0;
    while k < order.len()
        invariant
            k <= order@.len(),
            is_ordering(order@, values@.len()),
            out@.len() == k,
            forall|j: int| 0 <= j < k ==> (#[trigger] out@[j])@ == values@[order@[j] as int].spelling_view(),
        decreases order@.len() - k,
    {
        out.push(values[order[k]].wire_spelling());
        k = k + 1;
    }
    out
}

/// The targets of `values`, read in `current`, are pairwise distinct.
pub open spec fn distinct_targets(values: Seq<RoadEditingReference>, current: Seq<u8>) -> bool {
    forall|i: int, j: int|
        0 <= i < j < values.len() ==> target_key(#[trigger] values[i], current) != target_key(#[trigger] values[j], current)
}

/// Two canonical orders of the same references with distinct targets agree
/// on their first `k` places, and so, by induction, on all of them.
proof fn lemma_sorted_orders_agree(
    values: Seq<RoadEditingReference>,
    o1: Seq<usize>,
    o2: Seq<usize>,
    current: Seq<u8>,
    k: int,
)
    requires
        distinct_targets(values, current),
        is_ordering(o1, values.len()),
        is_ordering(o2, values.len()),
        sorted_by_target(values, o1, current),
        sorted_by_target(values, o2, current),
        0 <= k <= o1.len(),
    ensures
        forall|j: int| 0 <= j < k ==> o1[j] == o2[j],
    decreases k,
{
    if k > 0 {
        lemma_sorted_orders_agree(values, o1, o2, current, k - 1);
        let i = k - 1;
        let x = o1[i];
        let y = o2[i];
        if x != y {
            let kx = key_at(values, x, current);
            let ky = key_at(values, y, current);
            if x < y {
                assert(target_key(values[x as int], current) != target_key(values[y as int], current));
            } else {
                assert(target_key(values[y as int], current) != target_key(values[x as int], current));
            }
            law_target_order_is_strict_total(kx, ky, kx);
            if key_lt(kx, ky) {
                assert(lists(o2, x as int));
                let j = choose|a: int| 0 <= a < o2.len() && o2[a] == x;
                if j < i {
                    assert(o1[j] == o2[j]);
                    assert(o1[j] != o1[i]);
                } else {
                    assert(j != i);
                    assert(!key_lt(key_at(values, o2[j], current), key_at(values, o2[i], current)));
                }
            } else {
                assert(key_lt(ky, kx));
                assert(lists(o1, y as int));
                let j = choose|a: int| 0 <= a < o1.len() && o1[a] == y;
                if j < i {
                    assert(o1[j] == o2[j]);
                    assert(o2[j] != o2[i]);
                } else {
                    assert(j != i);
                    assert(!key_lt(key_at(values, o1[j], current), key_at(values, o1[i], current)));
                }
            }
        }
    }
}

/// Writing a reference vector does not depend on the order of its input:
/// when `values2` holds the references of `values1` rearranged by the
/// ordering `p`, and their targets are pairwise distinct, any canonical
/// order of each lists the same references in the same places.
pub proof fn law_canonical_order_ignores_input_order(
    values1: Seq<RoadEditingReference>,
    values2: Seq<RoadEditingReference>,
    p: Seq<usize>,
    order1: Seq<usize>,
    order2: Seq<usize>,
    current: Seq<u8>,
)
    requires
        values2.len() == values1.len(),
        is_ordering(p, values1.len()),
        forall|i: int| 0 <= i < values2.len() ==> values2[i] == values1[p[i] as int],
        distinct_targets(values1, current),
        is_ordering(order1, values1.len()),
        sorted_by_target(values1, order1, current),
        is_ordering(order2, values2.len()),
        sorted_by_target(values2, order2, current),
    ensures
        forall|k: int| 0 <= k < order1.len() ==> values1[order1[k] as int] == values2[order2[k] as int],
{
    let n = values1.len();
    // The places of `values1` that `order2` lists, through `p`.
    let m = Seq::new(n, |k: int| p[order2[k] as int]);
    assert forall|a: int| 0 <= a < m.len() implies m[a] < n by {
        assert(order2[a] < n);
    }
    assert forall|a: int, b: int| 0 <= a < b < m.len() implies m[a] != m[b] by {
        assert(order2[a] != order2[b]);
        if order2[a] < order2[b] {
            assert(p[order2[a] as int] != p[order2[b] as int]);
        } else {
            assert(p[order2[b] as int] != p[order2[a] as int]);
        }
    }
    assert forall|x: int| 0 <= x < n implies #[trigger] lists(m, x) by {
        assert(lists(p, x));
        let c = choose|a: int| 0 <= a < p.len() && p[a] == x;
        assert(lists(order2, c));
        let b = choose|a: int| 0 <= a < order2.len() && order2[a] == c;
        assert(m[b] == x);
    }
    assert forall|a: int, b: int| 0 <= a < b < m.len() implies !key_lt(
        key_at(values1, #[trigger] m[b], current),
        key_at(values1, #[trigger] m[a], current),
    ) by {
        assert(values2[order2[a] as int] == values1[m[a] as int]);
        assert(values2[order2[b] as int] == values1[m[b] as int]);
    }
    assert forall|a: int, b: int|
        0 <= a < b < m.len() && key_at(values1, #[trigger] m[a], current) == key_at(values1, #[trigger] m[b], current)
        implies m[a] < m[b] by {
        assert(m[a] != m[b]);
        if m[a] < m[b] {
        } else {
            assert(target_key(values1[m[b] as int], current) != target_key(values1[m[a] as int], current));
        }
    }
    lemma_sorted_orders_agree(values1, order1, m, current, n as int);
    assert forall|k: int| 0 <= k < order1.len() implies values1[order1[k] as int] == values2[order2[k] as int] by {
        assert(order1[k] == m[k]);
    }
}

} // verus!
