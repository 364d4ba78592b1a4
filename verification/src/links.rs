//! Local ownership closure of a checked road-editing source: every child names
//! an existing owner, and every owned child is listed by its owner exactly once.
//! The source is held as the borrowed keys and references that the closure
//! reads; each lookup index reserves its room in the preflight scratch first.

use vstd::prelude::*;
use vstd::string::StringSliceAdditionalSpecFns;

use crate::corridor_check::{CorridorElementFields, WireCorridorElementKind};
use crate::diagnostic::{DiagnosticBundle, RoadEditingInputViolation};
use crate::limits::CompileLimitDimension;
use crate::owner::{
    all_once, bump, claim_one, has_key, is_first_key, key_position, local_child_key, local_child_key_spec, zeros, OwnerIndex,
};
use crate::preflight::{counts_violation, invalid_combination, key_bytes, scratch_restored, RoadEditingPreflightCounts};
use crate::scratch::{
    granted, lemma_max_need_all, lemma_max_need_extend, max_nat, max_need, peak_lifted, scratch_request, unchanged, PreflightScratch,
};
use crate::split::str_equal;
use crate::text::has_double_colon;

verus! {

/// The elements of one road corridor, in order; an element of a kind
/// outside the schema places nothing.
#[derive(Clone, Debug)]
pub struct RoadCorridorLinks<'a> {
    pub elements: Vec<CorridorElementFields<'a>>,
}

/// A road section: its corridor, its key and its authoring-lane references.
#[derive(Clone, Debug)]
pub struct RoadSectionLinks<'a> {
    pub road_corridor: &'a str,
    pub road_section_key: &'a str,
    pub authoring_lanes: Vec<&'a str>,
}

/// A signal controller: its key, its offset, its signal groups and phases,
/// and its canvas selection.
#[derive(Clone, Debug)]
pub struct SignalControllerLinks<'a> {
    pub signal_controller_key: &'a str,
    pub offset_milliseconds: u64,
    pub signal_groups: Vec<&'a str>,
    pub signal_phases: Vec<&'a str>,
    pub canvas_selection: Option<&'a str>,
}

/// The signal aspects a wire buffer can carry; values outside the schema are
/// kept as `Other`.
#[derive(Clone, Copy, Debug, PartialEq, Eq, Structural)]
pub enum WireSignalAspect {
    Red,
    Yellow,
    Green,
    Other(u8),
}

/// One state of a signal phase: a signal group and its aspect.
#[derive(Clone, Copy, Debug)]
pub struct SignalPhaseStateLinks<'a> {
    pub signal_group: &'a str,
    pub aspect: WireSignalAspect,
}

/// A signal phase: its controller, its key, its duration, its states and its
/// canvas selection.
#[derive(Clone, Debug)]
pub struct SignalPhaseLinks<'a> {
    pub signal_controller: &'a str,
    pub signal_phase_key: &'a str,
    pub duration_milliseconds: u64,
    pub states: Vec<SignalPhaseStateLinks<'a>>,
    pub canvas_selection: Option<&'a str>,
}

/// The signal groups that the states of a phase name.
pub open spec fn state_groups<'a>(states: Seq<SignalPhaseStateLinks<'a>>) -> Seq<&'a str> {
    states.map_values(|s: SignalPhaseStateLinks<'a>| s.signal_group)
}

/// The keys and references of a source that the ownership closure reads.
/// Pairs are `(owner reference, own key)`.
#[derive(Clone, Debug)]
pub struct SourceLinks<'a> {
    pub junctions: Vec<&'a str>,
    pub movements: Vec<(&'a str, &'a str)>,
    pub maneuver_paths: Vec<(&'a str, &'a str)>,
    pub maneuver_gates: Vec<&'a str>,
    pub waiting_zones: Vec<&'a str>,
    pub road_sections: Vec<RoadSectionLinks<'a>>,
    pub lane_groups: Vec<&'a str>,
    pub road_corridors: Vec<RoadCorridorLinks<'a>>,
    pub facility_bands: Vec<(&'a str, &'a str)>,
    pub authoring_lanes: Vec<(&'a str, &'a str)>,
    pub signal_groups: Vec<&'a str>,
    pub signal_phases: Vec<SignalPhaseLinks<'a>>,
    pub signal_controllers: Vec<SignalControllerLinks<'a>>,
}

/// A failed closure: a compile limit `Ok((dimension, limit, observed))` or an
/// invalid combination `Err(field)`.
pub type LinkFailure = Result<(CompileLimitDimension, u64, u64), Seq<char>>;

/// Whether `b` is the diagnostic of `f` for the document `expected_key`.
pub open spec fn reports(b: DiagnosticBundle, f: LinkFailure, expected_key: Seq<char>) -> bool {
    match f {
        Ok((d, l, o)) => b.is_limit_error(d, l, o),
        Err(field) => b.is_semantic_error(field, RoadEditingInputViolation::InvalidCombination, expected_key),
    }
}

/// Some string of `values` has the bytes `v`.
pub open spec fn contains_bytes(values: Seq<&str>, v: Seq<u8>) -> bool {
    exists|i: int| 0 <= i < values.len() && (#[trigger] values[i]).spec_bytes() == v
}

/// Every reference of `refs` addresses a key of `keys`.
pub open spec fn all_resolve(keys: Seq<(&str, &str)>, refs: Seq<&str>) -> bool {
    forall|i: int| 0 <= i < refs.len() ==> key_position(keys, (#[trigger] refs[i]).spec_bytes()) is Some
}

/// The `(corridor, key)` address of each road section.
pub open spec fn section_keys<'a>(sections: Seq<RoadSectionLinks<'a>>) -> Seq<(&'a str, &'a str)> {
    sections.map_values(|s: RoadSectionLinks<'a>| (s.road_corridor, s.road_section_key))
}

/// Claims the references of the elements of `kind`, in order, from `counts`.
pub open spec fn claim_elements(
    keys: Seq<(&str, &str)>,
    counts: Seq<u8>,
    elements: Seq<CorridorElementFields>,
    kind: WireCorridorElementKind,
) -> Option<Seq<u8>>
    decreases elements.len(),
{
    if elements.len() == 0 {
        Some(counts)
    } else {
        match claim_elements(keys, counts, elements.drop_last(), kind) {
            None => None,
            Some(c) => if elements.last().kind == kind {
                claim_one(keys, c, elements.last().entity_reference.spec_bytes())
            } else {
                Some(c)
            },
        }
    }
}

/// Claims the element references of `kind` of every corridor, in order.
pub open spec fn claim_corridors(
    keys: Seq<(&str, &str)>,
    counts: Seq<u8>,
    corridors: Seq<RoadCorridorLinks>,
    kind: WireCorridorElementKind,
) -> Option<Seq<u8>>
    decreases corridors.len(),
{
    if corridors.len() == 0 {
        Some(counts)
    } else {
        match claim_corridors(keys, counts, corridors.drop_last(), kind) {
            None => None,
            Some(c) => claim_elements(keys, c, corridors.last().elements@, kind),
        }
    }
}

/// Every entity of `keys` is placed by exactly one corridor element of `kind`.
pub open spec fn corridors_own_once(
    keys: Seq<(&str, &str)>,
    corridors: Seq<RoadCorridorLinks>,
    kind: WireCorridorElementKind,
) -> bool {
    claim_corridors(keys, zeros(keys.len()), corridors, kind) matches Some(c) && all_once(c)
}

/// A lane reference `corridor>section>lane` names the section `owner`.
pub open spec fn lane_owned_by(r: Seq<u8>, owner: (Seq<u8>, Seq<u8>)) -> bool {
    match local_child_key_spec(r) {
        Some((parent, _)) => local_child_key_spec(parent) == Some(owner),
        None => false,
    }
}

/// Claims the authoring lanes listed by one section.
pub open spec fn claim_section_lanes(
    keys: Seq<(&str, &str)>,
    counts: Seq<u8>,
    owner: (Seq<u8>, Seq<u8>),
    lanes: Seq<&str>,
) -> Option<Seq<u8>>
    decreases lanes.len(),
{
    if lanes.len() == 0 {
        Some(counts)
    } else {
        match claim_section_lanes(keys, counts, owner, lanes.drop_last()) {
            None => None,
            Some(c) => if lane_owned_by(lanes.last().spec_bytes(), owner) {
                claim_one(keys, c, lanes.last().spec_bytes())
            } else {
                None
            },
        }
    }
}

/// Claims the authoring lanes listed by every section, in order.
pub open spec fn claim_sections(keys: Seq<(&str, &str)>, counts: Seq<u8>, sections: Seq<RoadSectionLinks>) -> Option<
    Seq<u8>,
>
    decreases sections.len(),
{
    if sections.len() == 0 {
        Some(counts)
    } else {
        match claim_sections(keys, counts, sections.drop_last()) {
            None => None,
            Some(c) => claim_section_lanes(
                keys,
                c,
                (sections.last().road_corridor.spec_bytes(), sections.last().road_section_key.spec_bytes()),
                sections.last().authoring_lanes@,
            ),
        }
    }
}

/// Every authoring lane is listed exactly once, by the section that owns it.
pub open spec fn sections_own_lanes_once(keys: Seq<(&str, &str)>, sections: Seq<RoadSectionLinks>) -> bool {
    claim_sections(keys, zeros(keys.len()), sections) matches Some(c) && all_once(c)
}

/// Room for `n` values of `T` on top of the live scratch bytes.
pub open spec fn request<T>(scratch: PreflightScratch, n: nat) -> Result<u64, (CompileLimitDimension, u64, u64)> {
    scratch_request(
        scratch.spec_limits(),
        scratch.admitted(),
        scratch.live(),
        (n * vstd::layout::size_of::<T>()) as int,
    )
}

/// The size of an owner index entry.
pub type Entry<'a> = ((&'a str, &'a str), u8);

/// The first failure of the ownership closure of roads and junctions, checked
/// in this order, or `None`.
pub open spec fn road_links_failure(src: SourceLinks, scratch: PreflightScratch) -> Option<LinkFailure> {
    if request::<&str>(scratch, src.junctions@.len()) is Err {
        Some(Ok(request::<&str>(scratch, src.junctions@.len())->Err_0))
    } else if !(forall|m: int|
        0 <= m < src.movements@.len() ==> contains_bytes(src.junctions@, (#[trigger] src.movements@[m]).0.spec_bytes())) {
        Some(Err("movement.junction"@))
    } else if request::<Entry>(scratch, src.movements@.len()) is Err {
        Some(Ok(request::<Entry>(scratch, src.movements@.len())->Err_0))
    } else if !all_resolve(src.movements@, src.maneuver_paths@.map_values(|p: (&str, &str)| p.0)) {
        Some(Err("maneuverPath.movement"@))
    } else if request::<Entry>(scratch, src.maneuver_paths@.len()) is Err {
        Some(Ok(request::<Entry>(scratch, src.maneuver_paths@.len())->Err_0))
    } else if !all_resolve(src.maneuver_paths@, src.maneuver_gates@) {
        Some(Err("maneuverGate.maneuverPath"@))
    } else if !all_resolve(src.maneuver_paths@, src.waiting_zones@) {
        Some(Err("waitingZone.maneuverPath"@))
    } else if request::<Entry>(scratch, src.road_sections@.len()) is Err {
        Some(Ok(request::<Entry>(scratch, src.road_sections@.len())->Err_0))
    } else if !all_resolve(section_keys(src.road_sections@), src.lane_groups@) {
        Some(Err("laneGroup.roadSection"@))
    } else if !corridors_own_once(
        section_keys(src.road_sections@),
        src.road_corridors@,
        WireCorridorElementKind::RoadSection,
    ) {
        Some(Err("roadCorridor.elements"@))
    } else if request::<Entry>(scratch, src.facility_bands@.len()) is Err {
        Some(Ok(request::<Entry>(scratch, src.facility_bands@.len())->Err_0))
    } else if !corridors_own_once(src.facility_bands@, src.road_corridors@, WireCorridorElementKind::FacilityBand) {
        Some(Err("roadCorridor.elements"@))
    } else if request::<Entry>(scratch, src.authoring_lanes@.len()) is Err {
        Some(Ok(request::<Entry>(scratch, src.authoring_lanes@.len())->Err_0))
    } else if !sections_own_lanes_once(src.authoring_lanes@, src.road_sections@) {
        Some(Err("roadSection.authoringLanes"@))
    } else {
        None
    }
}

/// The local reference `r` names a declared child of `keys`: split at its
/// last `>` it is the `(parent path, child key)` of one of them.
pub open spec fn names_declared_child(keys: Seq<(&str, &str)>, r: &str) -> bool {
    exists|j: int|
        0 <= j < keys.len() && local_child_key_spec(r.spec_bytes()) == Some(
            ((#[trigger] keys[j]).0.spec_bytes(), keys[j].1.spec_bytes()),
        )
}

/// Some key of `keys` is spelled as `r`.
pub open spec fn declared_key(keys: Seq<&str>, r: &str) -> bool {
    exists|j: int| 0 <= j < keys.len() && (#[trigger] keys[j]).spec_bytes() == r.spec_bytes()
}

/// Every child of the road and junction tables names an owner that its
/// source declares: each movement a junction, each maneuver path a movement,
/// each gate and waiting zone a maneuver path, each lane group a road section.
/// Corridor elements place declared sections and bands and every section and
/// band is placed; sections list declared lanes under themselves and every
/// lane is listed.
pub open spec fn owners_declared(src: SourceLinks) -> bool {
    &&& forall|m: int| 0 <= m < src.movements@.len() ==> declared_key(src.junctions@, (#[trigger] src.movements@[m]).0)
    &&& forall|i: int|
        0 <= i < src.maneuver_paths@.len() ==> names_declared_child(src.movements@, (#[trigger] src.maneuver_paths@[i]).0)
    &&& forall|i: int|
        0 <= i < src.maneuver_gates@.len() ==> names_declared_child(src.maneuver_paths@, #[trigger] src.maneuver_gates@[i])
    &&& forall|i: int|
        0 <= i < src.waiting_zones@.len() ==> names_declared_child(src.maneuver_paths@, #[trigger] src.waiting_zones@[i])
    &&& forall|i: int|
        0 <= i < src.lane_groups@.len() ==> exists|j: int|
            0 <= j < src.road_sections@.len() && local_child_key_spec((#[trigger] src.lane_groups@[i]).spec_bytes())
                == Some(
                ((#[trigger] src.road_sections@[j]).road_corridor.spec_bytes(), src.road_sections@[j].road_section_key.spec_bytes()),
            )
    &&& corridors_place_keys(section_keys(src.road_sections@), src.road_corridors@, WireCorridorElementKind::RoadSection)
    &&& corridors_place_keys(src.facility_bands@, src.road_corridors@, WireCorridorElementKind::FacilityBand)
    &&& sections_list_lanes(src.authoring_lanes@, src.road_sections@)
}

/// References that resolve in `keys` name declared children of `keys`.
proof fn lemma_resolved_names_declared(keys: Seq<(&str, &str)>, refs: Seq<&str>)
    requires
        all_resolve(keys, refs),
    ensures
        forall|i: int| 0 <= i < refs.len() ==> names_declared_child(keys, #[trigger] refs[i]),
{
    assert forall|i: int| 0 <= i < refs.len() implies names_declared_child(keys, #[trigger] refs[i]) by {
        assert(key_position(keys, refs[i].spec_bytes()) is Some);
        let k = local_child_key_spec(refs[i].spec_bytes())->Some_0;
        assert(has_key(keys, k));
        let j = choose|j: int| 0 <= j < keys.len() && key_bytes(#[trigger] keys[j]) == k;
        assert(key_bytes(keys[j]) == k);
    }
}

/// A key that occurs has a first position.
proof fn lemma_first_key_exists(keys: Seq<(&str, &str)>, k: (Seq<u8>, Seq<u8>))
    requires
        has_key(keys, k),
    ensures
        exists|i: int| is_first_key(keys, k, i),
    decreases keys.len(),
{
    let last = keys.len() - 1;
    if has_key(keys.drop_last(), k) {
        lemma_first_key_exists(keys.drop_last(), k);
        let i = choose|i: int| is_first_key(keys.drop_last(), k, i);
        assert forall|j: int| 0 <= j < i implies key_bytes(#[trigger] keys[j]) != k by {
            assert(keys[j] == keys.drop_last()[j]);
        }
        assert(keys[i] == keys.drop_last()[i]);
        assert(is_first_key(keys, k, i));
    } else {
        let i = choose|i: int| 0 <= i < keys.len() && key_bytes(#[trigger] keys[i]) == k;
        if i < last {
            assert(keys.drop_last()[i] == keys[i]);
        }
        assert forall|j: int| 0 <= j < last implies key_bytes(#[trigger] keys[j]) != k by {
            assert(keys[j] == keys.drop_last()[j]);
        }
        assert(is_first_key(keys, k, last));
    }
}

/// A reference that resolves to position `p` is spelled as the key at `p`.
proof fn lemma_position_names_key(keys: Seq<(&str, &str)>, r: Seq<u8>, p: int)
    requires
        key_position(keys, r) == Some(p),
    ensures
        0 <= p < keys.len(),
        local_child_key_spec(r) == Some(key_bytes(keys[p])),
{
    let k = local_child_key_spec(r)->Some_0;
    lemma_first_key_exists(keys, k);
    let i = choose|i: int| is_first_key(keys, k, i);
    assert(is_first_key(keys, k, i));
}

/// What claiming the corridor elements of `kind` shows: every such element
/// resolves, and every count that moved was moved by one of them.
proof fn lemma_claimed_elements(
    keys: Seq<(&str, &str)>,
    counts: Seq<u8>,
    es: Seq<CorridorElementFields>,
    kind: WireCorridorElementKind,
)
    requires
        counts.len() == keys.len(),
        claim_elements(keys, counts, es, kind) is Some,
    ensures
        claim_elements(keys, counts, es, kind)->Some_0.len() == counts.len(),
        forall|e: int|
            0 <= e < es.len() && (#[trigger] es[e]).kind == kind ==> key_position(keys, es[e].entity_reference.spec_bytes()) is Some,
        forall|p: int|
            0 <= p < counts.len() && claim_elements(keys, counts, es, kind)->Some_0[p] != counts[p] ==> exists|e: int|
                0 <= e < es.len() && (#[trigger] es[e]).kind == kind && key_position(keys, es[e].entity_reference.spec_bytes())
                    == Some(p),
    decreases es.len(),
{
    if es.len() > 0 {
        let front = es.drop_last();
        lemma_claimed_elements(keys, counts, front, kind);
        let c1 = claim_elements(keys, counts, front, kind)->Some_0;
        let c2 = claim_elements(keys, counts, es, kind)->Some_0;
        let last = es.len() - 1;
        assert(es[last] == es.last());
        if es.last().kind == kind {
            let r = es.last().entity_reference.spec_bytes();
            let p0 = key_position(keys, r)->Some_0;
            lemma_position_names_key(keys, r, p0);
            assert(c2 == c1.update(p0, bump(c1[p0])));
        } else {
            assert(c2 == c1);
        }
        assert forall|e: int| 0 <= e < es.len() - 1 implies #[trigger] es[e] == front[e] by {}
        assert forall|p: int| 0 <= p < counts.len() && c2[p] != counts[p] implies exists|e: int|
            0 <= e < es.len() && (#[trigger] es[e]).kind == kind && key_position(keys, es[e].entity_reference.spec_bytes())
                == Some(p) by {
            if c1[p] != counts[p] {
                let e = choose|e: int|
                    0 <= e < front.len() && (#[trigger] front[e]).kind == kind && key_position(
                        keys,
                        front[e].entity_reference.spec_bytes(),
                    ) == Some(p);
                assert(es[e] == front[e]);
            } else {
                assert(key_position(keys, es[last].entity_reference.spec_bytes()) == Some(p));
            }
        }
    }
}

/// What claiming the elements of `kind` of every corridor shows: every such
/// element resolves, and every count that moved was moved by one of them.
proof fn lemma_claimed_corridors(
    keys: Seq<(&str, &str)>,
    counts: Seq<u8>,
    cs: Seq<RoadCorridorLinks>,
    kind: WireCorridorElementKind,
)
    requires
        counts.len() == keys.len(),
        claim_corridors(keys, counts, cs, kind) is Some,
    ensures
        claim_corridors(keys, counts, cs, kind)->Some_0.len() == counts.len(),
        forall|c: int, e: int|
            0 <= c < cs.len() && 0 <= e < cs[c].elements@.len() && (#[trigger] cs[c].elements@[e]).kind == kind ==> key_position(
                keys,
                cs[c].elements@[e].entity_reference.spec_bytes(),
            ) is Some,
        forall|p: int|
            0 <= p < counts.len() && claim_corridors(keys, counts, cs, kind)->Some_0[p] != counts[p] ==> exists|c: int, e: int|
                0 <= c < cs.len() && 0 <= e < cs[c].elements@.len() && (#[trigger] cs[c].elements@[e]).kind == kind
                    && key_position(keys, cs[c].elements@[e].entity_reference.spec_bytes()) == Some(p),
    decreases cs.len(),
{
    if cs.len() > 0 {
        let front = cs.drop_last();
        lemma_claimed_corridors(keys, counts, front, kind);
        let c1 = claim_corridors(keys, counts, front, kind)->Some_0;
        let c2 = claim_corridors(keys, counts, cs, kind)->Some_0;
        let last = cs.len() - 1;
        lemma_claimed_elements(keys, c1, cs.last().elements@, kind);
        assert forall|c: int| 0 <= c < last implies #[trigger] cs[c] == front[c] by {}
        assert(cs[last] == cs.last());
        assert forall|p: int| 0 <= p < counts.len() && c2[p] != counts[p] implies exists|c: int, e: int|
            0 <= c < cs.len() && 0 <= e < cs[c].elements@.len() && (#[trigger] cs[c].elements@[e]).kind == kind
                && key_position(keys, cs[c].elements@[e].entity_reference.spec_bytes()) == Some(p) by {
            if c1[p] != counts[p] {
                let (c, e) = choose|c: int, e: int|
                    0 <= c < front.len() && 0 <= e < front[c].elements@.len() && (#[trigger] front[c].elements@[e]).kind
                        == kind && key_position(keys, front[c].elements@[e].entity_reference.spec_bytes()) == Some(p);
                assert(cs[c] == front[c]);
            } else {
                let e = choose|e: int|
                    0 <= e < cs.last().elements@.len() && (#[trigger] cs.last().elements@[e]).kind == kind && key_position(
                        keys,
                        cs.last().elements@[e].entity_reference.spec_bytes(),
                    ) == Some(p);
                assert(cs[last].elements@[e] == cs.last().elements@[e]);
            }
        }
    }
}

/// Every corridor element of `kind` names a declared child of `keys`, and
/// every key of `keys` is named by some corridor element of `kind`.
pub open spec fn corridors_place_keys(
    keys: Seq<(&str, &str)>,
    corridors: Seq<RoadCorridorLinks>,
    kind: WireCorridorElementKind,
) -> bool {
    &&& forall|c: int, e: int|
        0 <= c < corridors.len() && 0 <= e < corridors[c].elements@.len() && (#[trigger] corridors[c].elements@[e]).kind
            == kind ==> names_declared_child(keys, corridors[c].elements@[e].entity_reference)
    &&& forall|p: int| 0 <= p < keys.len() ==> key_placed(corridors, kind, #[trigger] keys[p])
}

/// Some corridor element of `kind` names the child `key`.
pub open spec fn key_placed(corridors: Seq<RoadCorridorLinks>, kind: WireCorridorElementKind, key: (&str, &str)) -> bool {
    exists|c: int, e: int|
        0 <= c < corridors.len() && 0 <= e < corridors[c].elements@.len() && (#[trigger] corridors[c].elements@[e]).kind
            == kind && local_child_key_spec(corridors[c].elements@[e].entity_reference.spec_bytes()) == Some(
            (key.0.spec_bytes(), key.1.spec_bytes()),
        )
}

/// When every key is placed exactly once, each element of `kind` names a
/// declared key and each key is named by an element of `kind`.
pub proof fn law_corridors_place_every_key(
    keys: Seq<(&str, &str)>,
    corridors: Seq<RoadCorridorLinks>,
    kind: WireCorridorElementKind,
)
    requires
        corridors_own_once(keys, corridors, kind),
    ensures
        corridors_place_keys(keys, corridors, kind),
{
    let z = zeros(keys.len());
    lemma_claimed_corridors(keys, z, corridors, kind);
    let fin = claim_corridors(keys, z, corridors, kind)->Some_0;
    assert forall|c: int, e: int|
        0 <= c < corridors.len() && 0 <= e < corridors[c].elements@.len() && (#[trigger] corridors[c].elements@[e]).kind
            == kind implies names_declared_child(keys, corridors[c].elements@[e].entity_reference) by {
        let r = corridors[c].elements@[e].entity_reference.spec_bytes();
        let p = key_position(keys, r)->Some_0;
        lemma_position_names_key(keys, r, p);
    }
    assert forall|p: int| 0 <= p < keys.len() implies key_placed(corridors, kind, #[trigger] keys[p]) by {
        assert(fin[p] == 1);
        assert(z[p] == 0);
        let (c, e) = choose|c: int, e: int|
            0 <= c < corridors.len() && 0 <= e < corridors[c].elements@.len() && (#[trigger] corridors[c].elements@[e]).kind
                == kind && key_position(keys, corridors[c].elements@[e].entity_reference.spec_bytes()) == Some(p);
        lemma_position_names_key(keys, corridors[c].elements@[e].entity_reference.spec_bytes(), p);
    }
}

/// What claiming the lanes listed by the section `owner` shows: each lies
/// under that section and resolves, and every count that moved was moved by
/// one of them.
proof fn lemma_claimed_section_lanes(keys: Seq<(&str, &str)>, counts: Seq<u8>, owner: (Seq<u8>, Seq<u8>), lanes: Seq<&str>)
    requires
        counts.len() == keys.len(),
        claim_section_lanes(keys, counts, owner, lanes) is Some,
    ensures
        claim_section_lanes(keys, counts, owner, lanes)->Some_0.len() == counts.len(),
        forall|j: int|
            0 <= j < lanes.len() ==> lane_owned_by((#[trigger] lanes[j]).spec_bytes(), owner) && key_position(
                keys,
                lanes[j].spec_bytes(),
            ) is Some,
        forall|p: int|
            0 <= p < counts.len() && claim_section_lanes(keys, counts, owner, lanes)->Some_0[p] != counts[p] ==> exists|j: int|
                0 <= j < lanes.len() && key_position(keys, (#[trigger] lanes[j]).spec_bytes()) == Some(p),
    decreases lanes.len(),
{
    if lanes.len() > 0 {
        let front = lanes.drop_last();
        lemma_claimed_section_lanes(keys, counts, owner, front);
        let c1 = claim_section_lanes(keys, counts, owner, front)->Some_0;
        let c2 = claim_section_lanes(keys, counts, owner, lanes)->Some_0;
        let last = lanes.len() - 1;
        assert(lanes[last] == lanes.last());
        let r = lanes.last().spec_bytes();
        let p0 = key_position(keys, r)->Some_0;
        lemma_position_names_key(keys, r, p0);
        assert(c2 == c1.update(p0, bump(c1[p0])));
        assert forall|j: int| 0 <= j < last implies #[trigger] lanes[j] == front[j] by {}
        assert forall|p: int| 0 <= p < counts.len() && c2[p] != counts[p] implies exists|j: int|
            0 <= j < lanes.len() && key_position(keys, (#[trigger] lanes[j]).spec_bytes()) == Some(p) by {
            if c1[p] != counts[p] {
                let j = choose|j: int| 0 <= j < front.len() && key_position(keys, (#[trigger] front[j]).spec_bytes()) == Some(p);
                assert(lanes[j] == front[j]);
            } else {
                assert(key_position(keys, lanes[last].spec_bytes()) == Some(p));
            }
        }
    }
}

/// What claiming the lanes of every section shows: each lies under its
/// section and resolves, and every count that moved was moved by one.
proof fn lemma_claimed_sections(keys: Seq<(&str, &str)>, counts: Seq<u8>, ss: Seq<RoadSectionLinks>)
    requires
        counts.len() == keys.len(),
        claim_sections(keys, counts, ss) is Some,
    ensures
        claim_sections(keys, counts, ss)->Some_0.len() == counts.len(),
        forall|s: int, j: int|
            0 <= s < ss.len() && 0 <= j < ss[s].authoring_lanes@.len() ==> lane_owned_by(
                (#[trigger] ss[s].authoring_lanes@[j]).spec_bytes(),
                (ss[s].road_corridor.spec_bytes(), ss[s].road_section_key.spec_bytes()),
            ) && key_position(keys, ss[s].authoring_lanes@[j].spec_bytes()) is Some,
        forall|p: int|
            0 <= p < counts.len() && claim_sections(keys, counts, ss)->Some_0[p] != counts[p] ==> exists|s: int, j: int|
                0 <= s < ss.len() && 0 <= j < ss[s].authoring_lanes@.len() && key_position(
                    keys,
                    (#[trigger] ss[s].authoring_lanes@[j]).spec_bytes(),
                ) == Some(p),
    decreases ss.len(),
{
    if ss.len() > 0 {
        let front = ss.drop_last();
        lemma_claimed_sections(keys, counts, front);
        let c1 = claim_sections(keys, counts, front)->Some_0;
        let c2 = claim_sections(keys, counts, ss)->Some_0;
        let last = ss.len() - 1;
        let owner = (ss.last().road_corridor.spec_bytes(), ss.last().road_section_key.spec_bytes());
        lemma_claimed_section_lanes(keys, c1, owner, ss.last().authoring_lanes@);
        assert forall|s: int| 0 <= s < last implies #[trigger] ss[s] == front[s] by {}
        assert(ss[last] == ss.last());
        assert forall|p: int| 0 <= p < counts.len() && c2[p] != counts[p] implies exists|s: int, j: int|
            0 <= s < ss.len() && 0 <= j < ss[s].authoring_lanes@.len() && key_position(
                keys,
                (#[trigger] ss[s].authoring_lanes@[j]).spec_bytes(),
            ) == Some(p) by {
            if c1[p] != counts[p] {
                let (s, j) = choose|s: int, j: int|
                    0 <= s < front.len() && 0 <= j < front[s].authoring_lanes@.len() && key_position(
                        keys,
                        (#[trigger] front[s].authoring_lanes@[j]).spec_bytes(),
                    ) == Some(p);
                assert(ss[s] == front[s]);
            } else {
                let j = choose|j: int|
                    0 <= j < ss.last().authoring_lanes@.len() && key_position(keys, (#[trigger] ss.last().authoring_lanes@[j]).spec_bytes())
                        == Some(p);
                assert(ss[last].authoring_lanes@[j] == ss.last().authoring_lanes@[j]);
            }
        }
    }
}

/// The lane reference `r` is `corridor>section>lane` under the section
/// `(corridor, section)`.
pub open spec fn lies_under_section(r: Seq<u8>, corridor: Seq<u8>, section: Seq<u8>) -> bool {
    local_child_key_spec(r) matches Some((parent, _)) && local_child_key_spec(parent) == Some((corridor, section))
}

/// Some section lists a lane reference naming the child `key`.
pub open spec fn lane_listed(sections: Seq<RoadSectionLinks>, key: (&str, &str)) -> bool {
    exists|s: int, j: int|
        0 <= s < sections.len() && 0 <= j < sections[s].authoring_lanes@.len() && local_child_key_spec(
            (#[trigger] sections[s].authoring_lanes@[j]).spec_bytes(),
        ) == Some((key.0.spec_bytes(), key.1.spec_bytes()))
}

/// Every lane reference of a section lies under that section and names a
/// declared authoring lane, and every declared lane is listed by a section.
pub open spec fn sections_list_lanes(keys: Seq<(&str, &str)>, sections: Seq<RoadSectionLinks>) -> bool {
    &&& forall|s: int, j: int|
        0 <= s < sections.len() && 0 <= j < sections[s].authoring_lanes@.len() ==> lies_under_section(
            (#[trigger] sections[s].authoring_lanes@[j]).spec_bytes(),
            sections[s].road_corridor.spec_bytes(),
            sections[s].road_section_key.spec_bytes(),
        ) && names_declared_child(keys, sections[s].authoring_lanes@[j])
    &&& forall|p: int| 0 <= p < keys.len() ==> lane_listed(sections, #[trigger] keys[p])
}

/// When every lane is listed exactly once by its section, each listed lane
/// lies under its section and is declared, and each declared lane is listed.
pub proof fn law_sections_list_every_lane(keys: Seq<(&str, &str)>, sections: Seq<RoadSectionLinks>)
    requires
        sections_own_lanes_once(keys, sections),
    ensures
        sections_list_lanes(keys, sections),
{
    let z = zeros(keys.len());
    lemma_claimed_sections(keys, z, sections);
    let fin = claim_sections(keys, z, sections)->Some_0;
    assert forall|s: int, j: int| 0 <= s < sections.len() && 0 <= j < sections[s].authoring_lanes@.len() implies lies_under_section(
        (#[trigger] sections[s].authoring_lanes@[j]).spec_bytes(),
        sections[s].road_corridor.spec_bytes(),
        sections[s].road_section_key.spec_bytes(),
    ) && names_declared_child(keys, sections[s].authoring_lanes@[j]) by {
        let r = sections[s].authoring_lanes@[j].spec_bytes();
        let p = key_position(keys, r)->Some_0;
        lemma_position_names_key(keys, r, p);
    }
    assert forall|p: int| 0 <= p < keys.len() implies lane_listed(sections, #[trigger] keys[p]) by {
        assert(fin[p] == 1);
        assert(z[p] == 0);
        let (s, j) = choose|s: int, j: int|
            0 <= s < sections.len() && 0 <= j < sections[s].authoring_lanes@.len() && key_position(
                keys,
                (#[trigger] sections[s].authoring_lanes@[j]).spec_bytes(),
            ) == Some(p);
        lemma_position_names_key(keys, sections[s].authoring_lanes@[j].spec_bytes(), p);
    }
}

/// A road and junction closure that passes leaves no child naming an
/// undeclared owner.
pub proof fn law_road_closure_owners_are_declared(src: SourceLinks, scratch: PreflightScratch)
    requires
        road_links_failure(src, scratch) is None,
    ensures
        owners_declared(src),
{
    let paths = src.maneuver_paths@.map_values(|p: (&str, &str)| p.0);
    law_corridors_place_every_key(section_keys(src.road_sections@), src.road_corridors@, WireCorridorElementKind::RoadSection);
    law_corridors_place_every_key(src.facility_bands@, src.road_corridors@, WireCorridorElementKind::FacilityBand);
    law_sections_list_every_lane(src.authoring_lanes@, src.road_sections@);
    lemma_resolved_names_declared(src.movements@, paths);
    assert forall|i: int| 0 <= i < src.maneuver_paths@.len() implies names_declared_child(
        src.movements@,
        (#[trigger] src.maneuver_paths@[i]).0,
    ) by {
        assert(paths[i] == src.maneuver_paths@[i].0);
    }
    lemma_resolved_names_declared(src.maneuver_paths@, src.maneuver_gates@);
    lemma_resolved_names_declared(src.maneuver_paths@, src.waiting_zones@);
    let sk = section_keys(src.road_sections@);
    lemma_resolved_names_declared(sk, src.lane_groups@);
    assert forall|i: int| 0 <= i < src.lane_groups@.len() implies exists|j: int|
        0 <= j < src.road_sections@.len() && local_child_key_spec((#[trigger] src.lane_groups@[i]).spec_bytes()) == Some(
            ((#[trigger] src.road_sections@[j]).road_corridor.spec_bytes(), src.road_sections@[j].road_section_key.spec_bytes()),
        ) by {
        assert(names_declared_child(sk, src.lane_groups@[i]));
        let j = choose|j: int|
            0 <= j < sk.len() && local_child_key_spec(src.lane_groups@[i].spec_bytes()) == Some(
                ((#[trigger] sk[j]).0.spec_bytes(), sk[j].1.spec_bytes()),
            );
        assert(sk[j] == (src.road_sections@[j].road_corridor, src.road_sections@[j].road_section_key));
    }
    assert forall|m: int| 0 <= m < src.movements@.len() implies declared_key(
        src.junctions@,
        (#[trigger] src.movements@[m]).0,
    ) by {
        assert(contains_bytes(src.junctions@, src.movements@[m].0.spec_bytes()));
    }
}

/// Whether some string of `values` has the bytes of `v`.
pub fn contains_str(values: &[&str], v: &str) -> (r: bool)
    ensures
        r == contains_bytes(values@, v.spec_bytes()),
{
    let mut i: usize = 0;
    while i < values.len()
        invariant
            i <= values@.len(),
            forall|j: int| 0 <= j < i ==> (#[trigger] values@[j]).spec_bytes() != v.spec_bytes(),
        decreases values@.len() - i,
    {
        if str_equal(values[i], v) {
            return true;
        }
        i = i + 1;
    }
    false
}

/// Whether every reference of `refs` addresses an entry of `index`.
fn all_found(index: &OwnerIndex, refs: &[&str]) -> (r: bool)
    ensures
        r == all_resolve(index.keys(), refs@),
{
    let mut i: usize = 0;
    while i < refs.len()
        invariant
            i <= refs@.len(),
            forall|j: int| 0 <= j < i ==> key_position(index.keys(), (#[trigger] refs@[j]).spec_bytes()) is Some,
        decreases refs@.len() - i,
    {
        if index.find(refs[i]).is_none() {
            return false;
        }
        i = i + 1;
    }
    true
}

/// Whether every path names a movement of `index`.
fn paths_resolve(index: &OwnerIndex, paths: &[(&str, &str)]) -> (r: bool)
    ensures
        r == all_resolve(index.keys(), paths@.map_values(|p: (&str, &str)| p.0)),
{
    let ghost refs = paths@.map_values(|p: (&str, &str)| p.0);
    let mut i: usize = 0;
    while i < paths.len()
        invariant
            i <= paths@.len(),
            refs == paths@.map_values(|p: (&str, &str)| p.0),
            forall|j: int| 0 <= j < i ==> key_position(index.keys(), (#[trigger] refs[j]).spec_bytes()) is Some,
        decreases paths@.len() - i,
    {
        if index.find(paths[i].0).is_none() {
            assert(refs[i as int] == paths@[i as int].0);
            return false;
        }
        i = i + 1;
    }
    true
}

/// Once a claim sequence has failed, longer ones fail too.
proof fn lemma_claim_elements_stops(
    keys: Seq<(&str, &str)>,
    counts: Seq<u8>,
    es: Seq<CorridorElementFields>,
    k: int,
    kind: WireCorridorElementKind,
)
    requires
        0 <= k <= es.len(),
        claim_elements(keys, counts, es.take(k), kind) is None,
    ensures
        claim_elements(keys, counts, es, kind) is None,
    decreases es.len(),
{
    if k == es.len() {
        assert(es.take(k) =~= es);
    } else {
        assert(es.drop_last().take(k) =~= es.take(k));
        lemma_claim_elements_stops(keys, counts, es.drop_last(), k, kind);
    }
}

proof fn lemma_claim_corridors_stops(
    keys: Seq<(&str, &str)>,
    counts: Seq<u8>,
    cs: Seq<RoadCorridorLinks>,
    k: int,
    kind: WireCorridorElementKind,
)
    requires
        0 <= k <= cs.len(),
        claim_corridors(keys, counts, cs.take(k), kind) is None,
    ensures
        claim_corridors(keys, counts, cs, kind) is None,
    decreases cs.len(),
{
    if k == cs.len() {
        assert(cs.take(k) =~= cs);
    } else {
        assert(cs.drop_last().take(k) =~= cs.take(k));
        lemma_claim_corridors_stops(keys, counts, cs.drop_last(), k, kind);
    }
}

/// Claims, in order, the references of every corridor element of `kind`;
/// `false` at the first that addresses no entry.
fn claim_corridor_elements(index: &mut OwnerIndex, corridors: &[RoadCorridorLinks], kind: WireCorridorElementKind) -> (r:
    bool)
    ensures
        final(index).keys() == old(index).keys(),
        final(index).held_bytes() == old(index).held_bytes(),
        match claim_corridors(old(index).keys(), old(index).counts(), corridors@, kind) {
            None => !r,
            Some(c) => r && final(index).counts() == c,
        },
{
    let ghost keys = index.keys();
    let ghost start = index.counts();
    let ghost held = index.held_bytes();
    let mut i: usize = 0;
    while i < corridors.len()
        invariant
            i <= corridors@.len(),
            index.keys() == keys,
            index.held_bytes() == held,
            keys == old(index).keys(),
            start == old(index).counts(),
            held == old(index).held_bytes(),
            claim_corridors(keys, start, corridors@.take(i as int), kind) == Some(index.counts()),
        decreases corridors@.len() - i,
    {
        let elements = &corridors[i].elements;
        let ghost before = index.counts();
        proof {
            assert(corridors@.take(i + 1).drop_last() =~= corridors@.take(i as int));
        }
        let mut j: usize = 0;
        while j < elements.len()
            invariant
                i < corridors@.len(),
                j <= elements@.len(),
                *elements == corridors@[i as int].elements,
                index.keys() == keys,
                index.held_bytes() == held,
                keys == old(index).keys(),
                start == old(index).counts(),
                held == old(index).held_bytes(),
                claim_corridors(keys, start, corridors@.take(i as int), kind) == Some(before),
                claim_elements(keys, before, elements@.take(j as int), kind) == Some(index.counts()),
            decreases elements@.len() - j,
        {
            let element = elements[j];
            proof {
                assert(elements@.take(j + 1).drop_last() =~= elements@.take(j as int));
                assert(elements@.take(j + 1).last() == element);
            }
            if element.kind == kind {
                let claimed = index.claim(element.entity_reference);
                if !claimed {
                    proof {
                        assert(claim_elements(keys, before, elements@.take(j + 1), kind) is None);
                        lemma_claim_elements_stops(keys, before, elements@, j + 1, kind);
                        let cs1 = corridors@.take(i + 1);
                        assert(cs1.last() == corridors@[i as int]);
                        assert(cs1.last().elements@ == elements@);
                        assert(cs1.drop_last() =~= corridors@.take(i as int));
                        assert(claim_corridors(keys, start, cs1, kind) is None);
                        lemma_claim_corridors_stops(keys, start, corridors@, i + 1, kind);
                    }
                    return false;
                }
            }
            j = j + 1;
        }
        proof {
            assert(elements@.take(j as int) =~= elements@);
            assert(corridors@.take(i + 1).last() == corridors@[i as int]);
        }
        i = i + 1;
    }
    proof {
        assert(corridors@.take(i as int) =~= corridors@);
    }
    true
}

/// Whether the lane reference `reference` names the section `corridor>section`.
fn lane_owner_matches(reference: &str, corridor: &str, section: &str) -> (r: bool)
    ensures
        r == lane_owned_by(reference.spec_bytes(), (corridor.spec_bytes(), section.spec_bytes())),
{
    match local_child_key(reference) {
        Some((parent, _)) => match local_child_key(parent) {
            Some((c, k)) => str_equal(c, corridor) && str_equal(k, section),
            None => false,
        },
        None => false,
    }
}

proof fn lemma_claim_section_lanes_stops(
    keys: Seq<(&str, &str)>,
    counts: Seq<u8>,
    owner: (Seq<u8>, Seq<u8>),
    lanes: Seq<&str>,
    k: int,
)
    requires
        0 <= k <= lanes.len(),
        claim_section_lanes(keys, counts, owner, lanes.take(k)) is None,
    ensures
        claim_section_lanes(keys, counts, owner, lanes) is None,
    decreases lanes.len(),
{
    if k == lanes.len() {
        assert(lanes.take(k) =~= lanes);
    } else {
        assert(lanes.drop_last().take(k) =~= lanes.take(k));
        lemma_claim_section_lanes_stops(keys, counts, owner, lanes.drop_last(), k);
    }
}

proof fn lemma_claim_sections_stops(keys: Seq<(&str, &str)>, counts: Seq<u8>, ss: Seq<RoadSectionLinks>, k: int)
    requires
        0 <= k <= ss.len(),
        claim_sections(keys, counts, ss.take(k)) is None,
    ensures
        claim_sections(keys, counts, ss) is None,
    decreases ss.len(),
{
    if k == ss.len() {
        assert(ss.take(k) =~= ss);
    } else {
        assert(ss.drop_last().take(k) =~= ss.take(k));
        lemma_claim_sections_stops(keys, counts, ss.drop_last(), k);
    }
}

/// Claims, in order, the authoring lanes listed by every section; `false` at
/// the first that names another section or addresses no entry.
fn claim_section_lanes_of(index: &mut OwnerIndex, sections: &[RoadSectionLinks]) -> (r: bool)
    ensures
        final(index).keys() == old(index).keys(),
        final(index).held_bytes() == old(index).held_bytes(),
        match claim_sections(old(index).keys(), old(index).counts(), sections@) {
            None => !r,
            Some(c) => r && final(index).counts() == c,
        },
{
    let ghost keys = index.keys();
    let ghost start = index.counts();
    let ghost held = index.held_bytes();
    let mut i: usize = 0;
    while i < sections.len()
        invariant
            i <= sections@.len(),
            index.keys() == keys,
            index.held_bytes() == held,
            keys == old(index).keys(),
            start == old(index).counts(),
            held == old(index).held_bytes(),
            claim_sections(keys, start, sections@.take(i as int)) == Some(index.counts()),
        decreases sections@.len() - i,
    {
        let section = &sections[i];
        let lanes = &section.authoring_lanes;
        let ghost before = index.counts();
        let ghost owner = (section.road_corridor.spec_bytes(), section.road_section_key.spec_bytes());
        proof {
            assert(sections@.take(i + 1).drop_last() =~= sections@.take(i as int));
        }
        let mut j: usize = 0;
        while j < lanes.len()
            invariant
                i < sections@.len(),
                j <= lanes@.len(),
                *section == sections@[i as int],
                *lanes == section.authoring_lanes,
                owner == (section.road_corridor.spec_bytes(), section.road_section_key.spec_bytes()),
                index.keys() == keys,
                index.held_bytes() == held,
                keys == old(index).keys(),
                start == old(index).counts(),
                held == old(index).held_bytes(),
                claim_sections(keys, start, sections@.take(i as int)) == Some(before),
                claim_section_lanes(keys, before, owner, lanes@.take(j as int)) == Some(index.counts()),
            decreases lanes@.len() - j,
        {
            let reference = lanes[j];
            proof {
                assert(lanes@.take(j + 1).drop_last() =~= lanes@.take(j as int));
                assert(lanes@.take(j + 1).last() == reference);
            }
            let ok = lane_owner_matches(reference, section.road_corridor, section.road_section_key)
                && index.claim(reference);
            if !ok {
                proof {
                    assert(claim_section_lanes(keys, before, owner, lanes@.take(j + 1)) is None);
                    lemma_claim_section_lanes_stops(keys, before, owner, lanes@, j + 1);
                    let ss1 = sections@.take(i + 1);
                    assert(ss1.last() == sections@[i as int]);
                    assert(ss1.drop_last() =~= sections@.take(i as int));
                    assert(claim_sections(keys, start, ss1) is None);
                    lemma_claim_sections_stops(keys, start, sections@, i + 1);
                }
                return false;
            }
            j = j + 1;
        }
        proof {
            assert(lanes@.take(j as int) =~= lanes@);
            assert(sections@.take(i + 1).last() == sections@[i as int]);
        }
        i = i + 1;
    }
    proof {
        assert(sections@.take(i as int) =~= sections@);
    }
    true
}

/// Checks the ownership closure of roads and junctions: every movement names a
/// junction, every path a movement, every gate and waiting zone a path, every
/// lane group a section; every section and facility band is placed by exactly
/// one corridor element, and every authoring lane is listed exactly once by the
/// section that owns it. Each lookup index is reserved in `scratch` before it
/// is built and returned afterwards.
pub fn validate_road_links(src: &SourceLinks, scratch: &mut PreflightScratch, expected_key: &str) -> (r: Result<
    (),
    DiagnosticBundle,
>)
    ensures
        match road_links_failure(*src, *old(scratch)) {
            None => r is Ok,
            Some(f) => r matches Err(b) && reports(b, f, expected_key@),
        },
        scratch_restored(*old(scratch), *final(scratch)),
        r is Ok ==> peak_lifted(*old(scratch), *final(scratch), road_links_need(*src)),
        r is Ok ==> owners_declared(*src),
{
    let ghost s0 = *scratch;
    // Junction keys.
    let junction_bytes = scratch.reserve::<&str>(src.junctions.len())?;
    let ghost s1 = *scratch;
    let mut i: usize = 0;
    while i < src.movements.len()
        invariant
            i <= src.movements@.len(),
            *scratch == s1,
            s0 == *old(scratch),
            request::<&str>(s0, src.junctions@.len()) is Ok,
            granted(s0, s1, request::<&str>(s0, src.junctions@.len())->Ok_0),
            request::<&str>(s0, src.junctions@.len())->Ok_0 == s0.live() + junction_bytes,
            forall|m: int| 0 <= m < i ==> contains_bytes(src.junctions@, (#[trigger] src.movements@[m]).0.spec_bytes()),
        decreases src.movements@.len() - i,
    {
        if !contains_str(src.junctions.as_slice(), src.movements[i].0) {
            scratch.release(junction_bytes);
            return Err(invalid_combination("movement.junction", expected_key));
        }
        i = i + 1;
    }
    scratch.release(junction_bytes);
    assert(scratch_restored(s0, *scratch));
    // Movement addresses.
    let movements = OwnerIndex::new(src.movements.as_slice(), scratch)?;
    let found = paths_resolve(&movements, src.maneuver_paths.as_slice());
    movements.release(scratch);
    if !found {
        return Err(invalid_combination("maneuverPath.movement", expected_key));
    }
    assert(scratch_restored(s0, *scratch));
    // Maneuver path addresses.
    let paths = OwnerIndex::new(src.maneuver_paths.as_slice(), scratch)?;
    if !all_found(&paths, src.maneuver_gates.as_slice()) {
        paths.release(scratch);
        return Err(invalid_combination("maneuverGate.maneuverPath", expected_key));
    }
    if !all_found(&paths, src.waiting_zones.as_slice()) {
        paths.release(scratch);
        return Err(invalid_combination("waitingZone.maneuverPath", expected_key));
    }
    paths.release(scratch);
    assert(scratch_restored(s0, *scratch));
    // Road section addresses.
    let mut sections = OwnerIndex::from_sections(src.road_sections.as_slice(), scratch)?;
    if !all_found(&sections, src.lane_groups.as_slice()) {
        sections.release(scratch);
        return Err(invalid_combination("laneGroup.roadSection", expected_key));
    }
    let placed = claim_corridor_elements(&mut sections, src.road_corridors.as_slice(), WireCorridorElementKind::RoadSection);
    if !placed || !sections.all_owned_once() {
        sections.release(scratch);
        return Err(invalid_combination("roadCorridor.elements", expected_key));
    }
    sections.release(scratch);
    assert(scratch_restored(s0, *scratch));
    // Facility band addresses.
    let mut bands = OwnerIndex::new(src.facility_bands.as_slice(), scratch)?;
    let placed = claim_corridor_elements(&mut bands, src.road_corridors.as_slice(), WireCorridorElementKind::FacilityBand);
    if !placed || !bands.all_owned_once() {
        bands.release(scratch);
        return Err(invalid_combination("roadCorridor.elements", expected_key));
    }
    bands.release(scratch);
    assert(scratch_restored(s0, *scratch));
    // Authoring lane addresses.
    let mut lanes = OwnerIndex::new(src.authoring_lanes.as_slice(), scratch)?;
    let listed = claim_section_lanes_of(&mut lanes, src.road_sections.as_slice());
    if !listed || !lanes.all_owned_once() {
        lanes.release(scratch);
        return Err(invalid_combination("roadSection.authoringLanes", expected_key));
    }
    lanes.release(scratch);
    proof {
        law_road_closure_owners_are_declared(*src, s0);
    }
    Ok(())
}

/// `i` is the first position of `values` with the bytes `v`.
pub open spec fn is_first_bytes(values: Seq<&str>, v: Seq<u8>, i: int) -> bool {
    &&& 0 <= i < values.len()
    &&& values[i].spec_bytes() == v
    &&& forall|j: int| 0 <= j < i ==> (#[trigger] values[j]).spec_bytes() != v
}

/// The first position of `values` with the bytes `v`, if any.
pub open spec fn bytes_position(values: Seq<&str>, v: Seq<u8>) -> Option<int> {
    if contains_bytes(values, v) {
        Some(choose|i: int| is_first_bytes(values, v, i))
    } else {
        None
    }
}

/// The first position of `values` with the bytes of `v`.
fn find_str(values: &[&str], v: &str) -> (r: Option<usize>)
    ensures
        match bytes_position(values@, v.spec_bytes()) {
            None => r is None,
            Some(i) => 0 <= i < values@.len() && (r matches Some(j) && j == i),
        },
{
    let mut i: usize = 0;
    while i < values.len()
        invariant
            i <= values@.len(),
            forall|j: int| 0 <= j < i ==> (#[trigger] values@[j]).spec_bytes() != v.spec_bytes(),
        decreases values@.len() - i,
    {
        if str_equal(values[i], v) {
            proof {
                let k = choose|k: int| is_first_bytes(values@, v.spec_bytes(), k);
                assert(is_first_bytes(values@, v.spec_bytes(), i as int));
                assert(is_first_bytes(values@, v.spec_bytes(), k));
                if k < i {
                    assert(values@[k].spec_bytes() != v.spec_bytes());
                }
                if i < k {
                    assert(values@[i as int].spec_bytes() != v.spec_bytes());
                }
            }
            return Some(i);
        }
        i = i + 1;
    }
    None
}

/// Counts the signal-group references `refs`, in order: each must be local,
/// name a group, and be that group's first reference.
pub open spec fn claim_group_refs(groups: Seq<&str>, counts: Seq<u8>, refs: Seq<&str>) -> Option<Seq<u8>>
    decreases refs.len(),
{
    if refs.len() == 0 {
        Some(counts)
    } else {
        match claim_group_refs(groups, counts, refs.drop_last()) {
            None => None,
            Some(c) => {
                let r = refs.last().spec_bytes();
                if has_double_colon(r) {
                    None
                } else {
                    match bytes_position(groups, r) {
                        None => None,
                        Some(p) => if bump(c[p]) != 1 {
                            None
                        } else {
                            Some(c.update(p, bump(c[p])))
                        },
                    }
                }
            },
        }
    }
}

/// Counts the signal-group references of every controller, in order.
pub open spec fn claim_controller_groups(
    groups: Seq<&str>,
    counts: Seq<u8>,
    controllers: Seq<SignalControllerLinks>,
) -> Option<Seq<u8>>
    decreases controllers.len(),
{
    if controllers.len() == 0 {
        Some(counts)
    } else {
        match claim_controller_groups(groups, counts, controllers.drop_last()) {
            None => None,
            Some(c) => claim_group_refs(groups, c, controllers.last().signal_groups@),
        }
    }
}

/// Every signal group belongs to exactly one controller.
pub open spec fn groups_owned_once(groups: Seq<&str>, controllers: Seq<SignalControllerLinks>) -> bool {
    claim_controller_groups(groups, zeros(groups.len()), controllers) matches Some(c) && all_once(c)
}

/// The phase reference `r` of the controller `controller_key` is
/// `controller>phase` and names an existing phase.
pub open spec fn phase_ref_ok(phases: Seq<SignalPhaseLinks>, controller_key: Seq<u8>, r: Seq<u8>) -> bool {
    match local_child_key_spec(r) {
        None => false,
        Some((owner, key)) => owner == controller_key && exists|p: int|
            0 <= p < phases.len() && (#[trigger] phases[p]).signal_controller.spec_bytes() == owner
                && phases[p].signal_phase_key.spec_bytes() == key,
    }
}

/// Every phase reference of every controller is valid.
pub open spec fn phase_refs_ok(phases: Seq<SignalPhaseLinks>, controllers: Seq<SignalControllerLinks>) -> bool {
    forall|c: int, j: int|
        0 <= c < controllers.len() && 0 <= j < controllers[c].signal_phases@.len() ==> phase_ref_ok(
            phases,
            controllers[c].signal_controller_key.spec_bytes(),
            (#[trigger] controllers[c].signal_phases@[j]).spec_bytes(),
        )
}

/// The number of phase references over all controllers.
pub open spec fn phase_ref_total(controllers: Seq<SignalControllerLinks>) -> nat
    decreases controllers.len(),
{
    if controllers.len() == 0 {
        0
    } else {
        phase_ref_total(controllers.drop_last()) + controllers.last().signal_phases@.len()
    }
}

/// `n`, held at `usize::MAX`.
pub open spec fn saturating_count(n: nat) -> nat {
    if n > usize::MAX {
        usize::MAX as nat
    } else {
        n
    }
}

/// The first controller with the key bytes `key`, if any.
pub open spec fn controller_position(controllers: Seq<SignalControllerLinks>, key: Seq<u8>) -> Option<int> {
    bytes_position(controllers.map_values(|c: SignalControllerLinks| c.signal_controller_key), key)
}

/// The states of a phase list exactly as many groups as its controller has,
/// each a group of that controller.
pub open spec fn states_match(states: Seq<&str>, groups: Seq<&str>) -> bool {
    &&& states.len() == groups.len()
    &&& forall|i: int| 0 <= i < states.len() ==> contains_bytes(groups, (#[trigger] states[i]).spec_bytes())
}

/// Room for `n` values of `T` on top of the live bytes and `held` more.
pub open spec fn request_after<T>(scratch: PreflightScratch, held: int, n: nat) -> Result<
    u64,
    (CompileLimitDimension, u64, u64),
> {
    scratch_request(
        scratch.spec_limits(),
        scratch.admitted(),
        (scratch.live() + held) as u64,
        (n * vstd::layout::size_of::<T>()) as int,
    )
}

/// The first failure of one phase against its controller, with `held` bytes
/// of the controller index live.
pub open spec fn phase_failure(
    controllers: Seq<SignalControllerLinks>,
    phase: SignalPhaseLinks,
    scratch: PreflightScratch,
    held: int,
) -> Option<LinkFailure> {
    match controller_position(controllers, phase.signal_controller.spec_bytes()) {
        None => Some(Err("signalPhase.signalController"@)),
        Some(c) => match request_after::<&str>(scratch, held, controllers[c].signal_groups@.len()) {
            Err(l) => Some(Ok(l)),
            Ok(_) => if states_match(state_groups(phase.states@), controllers[c].signal_groups@) {
                None
            } else {
                Some(Err("signalPhase.states.signalGroup"@))
            },
        },
    }
}

/// The bytes of an owner index of `n` entries.
pub open spec fn owner_index_bytes(n: nat) -> nat {
    n * vstd::layout::size_of::<((&str, &str), u8)>()
}

/// The scratch need of the road and junction closure: the junction keys, or
/// one of the owner indexes, which are held one at a time.
pub open spec fn road_links_need(src: SourceLinks) -> nat {
    max_nat(
        max_nat(
            max_nat(src.junctions@.len() * vstd::layout::size_of::<&str>(), owner_index_bytes(src.movements@.len())),
            max_nat(owner_index_bytes(src.maneuver_paths@.len()), owner_index_bytes(src.road_sections@.len())),
        ),
        max_nat(owner_index_bytes(src.facility_bands@.len()), owner_index_bytes(src.authoring_lanes@.len())),
    )
}

/// The scratch need of checking the states of one phase: the expected groups
/// of the controller that the phase names.
pub open spec fn phase_link_need<'a>(controllers: Seq<SignalControllerLinks<'a>>) -> spec_fn(SignalPhaseLinks<'a>) -> nat {
    |p: SignalPhaseLinks<'a>| match controller_position(controllers, p.signal_controller.spec_bytes()) {
        Some(c) => controllers[c].signal_groups@.len() * vstd::layout::size_of::<&str>(),
        None => 0,
    }
}

/// The scratch need of the signal closure: the group order and owner counts
/// held together, the phase order, or the controller order held while one
/// phase is checked.
pub open spec fn signal_links_need(src: SourceLinks) -> nat {
    let ng = src.signal_groups@.len();
    max_nat(
        max_nat(
            ng * vstd::layout::size_of::<usize>() + ng * vstd::layout::size_of::<u8>(),
            src.signal_phases@.len() * vstd::layout::size_of::<usize>(),
        ),
        src.signal_controllers@.len() * vstd::layout::size_of::<usize>() + max_need(
            src.signal_phases@,
            phase_link_need(src.signal_controllers@),
        ),
    )
}

/// The scratch need of the whole closure.
pub open spec fn links_need(src: SourceLinks) -> nat {
    max_nat(road_links_need(src), signal_links_need(src))
}

/// The first failure over the phases, in order.
pub open spec fn phases_failure(
    controllers: Seq<SignalControllerLinks>,
    phases: Seq<SignalPhaseLinks>,
    scratch: PreflightScratch,
    held: int,
) -> Option<LinkFailure>
    decreases phases.len(),
{
    if phases.len() == 0 {
        None
    } else {
        match phases_failure(controllers, phases.drop_last(), scratch, held) {
            Some(f) => Some(f),
            None => phase_failure(controllers, phases.last(), scratch, held),
        }
    }
}

/// The first failure of the signal ownership closure, checked in this order,
/// or `None`.
pub open spec fn signal_links_failure(src: SourceLinks, scratch: PreflightScratch) -> Option<LinkFailure> {
    let ng = src.signal_groups@.len();
    let np = src.signal_phases@.len();
    let nc = src.signal_controllers@.len();
    if request::<usize>(scratch, ng) is Err {
        Some(Ok(request::<usize>(scratch, ng)->Err_0))
    } else if request_after::<u8>(scratch, (ng * vstd::layout::size_of::<usize>()) as int, ng) is Err {
        Some(Ok(request_after::<u8>(scratch, (ng * vstd::layout::size_of::<usize>()) as int, ng)->Err_0))
    } else if !groups_owned_once(src.signal_groups@, src.signal_controllers@) {
        Some(Err("signalController.signalGroups"@))
    } else if request::<usize>(scratch, np) is Err {
        Some(Ok(request::<usize>(scratch, np)->Err_0))
    } else if !phase_refs_ok(src.signal_phases@, src.signal_controllers@) || saturating_count(
        phase_ref_total(src.signal_controllers@),
    ) != np {
        Some(Err("signalController.signalPhases"@))
    } else if request::<usize>(scratch, nc) is Err {
        Some(Ok(request::<usize>(scratch, nc)->Err_0))
    } else {
        phases_failure(
            src.signal_controllers@,
            src.signal_phases@,
            scratch,
            (nc * vstd::layout::size_of::<usize>()) as int,
        )
    }
}

/// The first failure of the whole ownership closure, or `None`.
#[verifier::opaque]
pub open spec fn links_failure(src: SourceLinks, scratch: PreflightScratch) -> Option<LinkFailure> {
    match road_links_failure(src, scratch) {
        Some(f) => Some(f),
        None => signal_links_failure(src, scratch),
    }
}

proof fn lemma_claim_group_refs_stops(groups: Seq<&str>, counts: Seq<u8>, refs: Seq<&str>, k: int)
    requires
        0 <= k <= refs.len(),
        claim_group_refs(groups, counts, refs.take(k)) is None,
    ensures
        claim_group_refs(groups, counts, refs) is None,
    decreases refs.len(),
{
    if k == refs.len() {
        assert(refs.take(k) =~= refs);
    } else {
        assert(refs.drop_last().take(k) =~= refs.take(k));
        lemma_claim_group_refs_stops(groups, counts, refs.drop_last(), k);
    }
}

proof fn lemma_claim_controller_groups_stops(
    groups: Seq<&str>,
    counts: Seq<u8>,
    cs: Seq<SignalControllerLinks>,
    k: int,
)
    requires
        0 <= k <= cs.len(),
        claim_controller_groups(groups, counts, cs.take(k)) is None,
    ensures
        claim_controller_groups(groups, counts, cs) is None,
    decreases cs.len(),
{
    if k == cs.len() {
        assert(cs.take(k) =~= cs);
    } else {
        assert(cs.drop_last().take(k) =~= cs.take(k));
        lemma_claim_controller_groups_stops(groups, counts, cs.drop_last(), k);
    }
}

/// Counts, in order, the signal-group references of every controller into
/// `counts`; `false` at the first that is qualified, names no group, or names
/// a group already referenced.
fn claim_groups(groups: &[&str], controllers: &[SignalControllerLinks], counts: &mut Vec<u8>) -> (r: bool)
    requires
        old(counts)@.len() == groups@.len(),
    ensures
        match claim_controller_groups(groups@, old(counts)@, controllers@) {
            None => !r,
            Some(c) => r && final(counts)@ == c,
        },
{
    let ghost start = counts@;
    let mut i: usize = 0;
    while i < controllers.len()
        invariant
            i <= controllers@.len(),
            start == old(counts)@,
            start.len() == groups@.len(),
            counts@.len() == groups@.len(),
            claim_controller_groups(groups@, start, controllers@.take(i as int)) == Some(counts@),
        decreases controllers@.len() - i,
    {
        let refs = &controllers[i].signal_groups;
        let ghost before = counts@;
        proof {
            assert(controllers@.take(i + 1).drop_last() =~= controllers@.take(i as int));
        }
        let mut j: usize = 0;
        while j < refs.len()
            invariant
                i < controllers@.len(),
                j <= refs@.len(),
                *refs == controllers@[i as int].signal_groups,
                start == old(counts)@,
                counts@.len() == groups@.len(),
                claim_controller_groups(groups@, start, controllers@.take(i as int)) == Some(before),
                claim_group_refs(groups@, before, refs@.take(j as int)) == Some(counts@),
            decreases refs@.len() - j,
        {
            let reference = refs[j];
            proof {
                assert(refs@.take(j + 1).drop_last() =~= refs@.take(j as int));
                assert(refs@.take(j + 1).last() == reference);
            }
            let position = if crate::text::find_double_colon(reference.as_bytes()).is_some() {
                None
            } else {
                find_str(groups, reference)
            };
            let ok = match position {
                None => false,
                Some(p) => {
                    let next: u8 = if counts[p] == 255 { 255 } else { counts[p] + 1 };
                    if next != 1 {
                        false
                    } else {
                        counts.set(p, next);
                        true
                    }
                },
            };
            if !ok {
                proof {
                    assert(claim_group_refs(groups@, before, refs@.take(j + 1)) is None);
                    lemma_claim_group_refs_stops(groups@, before, refs@, j + 1);
                    let cs1 = controllers@.take(i + 1);
                    assert(cs1.last() == controllers@[i as int]);
                    assert(cs1.drop_last() =~= controllers@.take(i as int));
                    assert(claim_controller_groups(groups@, start, cs1) is None);
                    lemma_claim_controller_groups_stops(groups@, start, controllers@, i + 1);
                }
                return false;
            }
            j = j + 1;
        }
        proof {
            assert(refs@.take(j as int) =~= refs@);
            assert(controllers@.take(i + 1).last() == controllers@[i as int]);
        }
        i = i + 1;
    }
    proof {
        assert(controllers@.take(i as int) =~= controllers@);
    }
    true
}

/// Whether every count is exactly one.
fn all_ones(counts: &Vec<u8>) -> (r: bool)
    ensures
        r == all_once(counts@),
{
    let mut i: usize = 0;
    while i < counts.len()
        invariant
            i <= counts@.len(),
            forall|j: int| 0 <= j < i ==> #[trigger] counts@[j] == 1,
        decreases counts@.len() - i,
    {
        if counts[i] != 1 {
            return false;
        }
        i = i + 1;
    }
    true
}

/// Whether some phase is `owner>key`.
fn phase_exists(phases: &[SignalPhaseLinks], owner: &str, key: &str) -> (r: bool)
    ensures
        r == exists|p: int|
            0 <= p < phases@.len() && (#[trigger] phases@[p]).signal_controller.spec_bytes() == owner.spec_bytes()
                && phases@[p].signal_phase_key.spec_bytes() == key.spec_bytes(),
{
    let mut i: usize = 0;
    while i < phases.len()
        invariant
            i <= phases@.len(),
            forall|p: int|
                0 <= p < i ==> !((#[trigger] phases@[p]).signal_controller.spec_bytes() == owner.spec_bytes()
                    && phases@[p].signal_phase_key.spec_bytes() == key.spec_bytes()),
        decreases phases@.len() - i,
    {
        if str_equal(phases[i].signal_controller, owner) && str_equal(phases[i].signal_phase_key, key) {
            return true;
        }
        i = i + 1;
    }
    false
}

/// Whether every phase reference of every controller is valid and the
/// references, counted with saturation, number exactly the phases.
fn phase_refs_check(phases: &[SignalPhaseLinks], controllers: &[SignalControllerLinks]) -> (r: bool)
    ensures
        r == (phase_refs_ok(phases@, controllers@) && saturating_count(phase_ref_total(controllers@))
            == phases@.len()),
{
    let mut total: usize = 0;
    let mut i: usize = 0;
    while i < controllers.len()
        invariant
            i <= controllers@.len(),
            total == saturating_count(phase_ref_total(controllers@.take(i as int))),
            forall|c: int, j: int|
                0 <= c < i && 0 <= j < controllers@[c].signal_phases@.len() ==> phase_ref_ok(
                    phases@,
                    controllers@[c].signal_controller_key.spec_bytes(),
                    (#[trigger] controllers@[c].signal_phases@[j]).spec_bytes(),
                ),
        decreases controllers@.len() - i,
    {
        let controller = &controllers[i];
        let refs = &controller.signal_phases;
        let ghost base = phase_ref_total(controllers@.take(i as int));
        let mut j: usize = 0;
        while j < refs.len()
            invariant
                i < controllers@.len(),
                j <= refs@.len(),
                *controller == controllers@[i as int],
                *refs == controller.signal_phases,
                base == phase_ref_total(controllers@.take(i as int)),
                total == saturating_count((base + j) as nat),
                forall|c: int, k: int|
                    0 <= c < i && 0 <= k < controllers@[c].signal_phases@.len() ==> phase_ref_ok(
                        phases@,
                        controllers@[c].signal_controller_key.spec_bytes(),
                        (#[trigger] controllers@[c].signal_phases@[k]).spec_bytes(),
                    ),
                forall|k: int|
                    0 <= k < j ==> phase_ref_ok(
                        phases@,
                        controller.signal_controller_key.spec_bytes(),
                        (#[trigger] refs@[k]).spec_bytes(),
                    ),
            decreases refs@.len() - j,
        {
            let reference = refs[j];
            let ok = match local_child_key(reference) {
                None => false,
                Some((owner, key)) => str_equal(owner, controller.signal_controller_key) && phase_exists(
                    phases,
                    owner,
                    key,
                ),
            };
            if !ok {
                proof {
                    assert(!phase_ref_ok(
                        phases@,
                        controllers@[i as int].signal_controller_key.spec_bytes(),
                        controllers@[i as int].signal_phases@[j as int].spec_bytes(),
                    ));
                }
                return false;
            }
            total = total.saturating_add(1);
            j = j + 1;
        }
        proof {
            assert(controllers@.take(i + 1).drop_last() =~= controllers@.take(i as int));
            assert(controllers@.take(i + 1).last() == controllers@[i as int]);
        }
        i = i + 1;
    }
    proof {
        assert(controllers@.take(i as int) =~= controllers@);
    }
    total == phases.len()
}

/// The first controller with the key bytes of `key`.
fn find_controller(controllers: &[SignalControllerLinks], key: &str) -> (r: Option<usize>)
    ensures
        match controller_position(controllers@, key.spec_bytes()) {
            None => r is None,
            Some(i) => 0 <= i < controllers@.len() && (r matches Some(j) && j == i),
        },
{
    let ghost keys = controllers@.map_values(|c: SignalControllerLinks| c.signal_controller_key);
    let mut i: usize = 0;
    while i < controllers.len()
        invariant
            i <= controllers@.len(),
            keys == controllers@.map_values(|c: SignalControllerLinks| c.signal_controller_key),
            forall|j: int| 0 <= j < i ==> (#[trigger] keys[j]).spec_bytes() != key.spec_bytes(),
        decreases controllers@.len() - i,
    {
        if str_equal(controllers[i].signal_controller_key, key) {
            proof {
                assert(keys[i as int] == controllers@[i as int].signal_controller_key);
                let k = choose|k: int| is_first_bytes(keys, key.spec_bytes(), k);
                assert(is_first_bytes(keys, key.spec_bytes(), i as int));
                assert(is_first_bytes(keys, key.spec_bytes(), k));
                if k < i {
                    assert(keys[k].spec_bytes() != key.spec_bytes());
                }
                if i < k {
                    assert(keys[i as int].spec_bytes() != key.spec_bytes());
                }
            }
            return Some(i);
        }
        assert(keys[i as int] == controllers@[i as int].signal_controller_key);
        i = i + 1;
    }
    None
}

/// Whether the states list exactly as many groups as `groups` holds, each one
/// of them.
fn states_match_groups(states: &[SignalPhaseStateLinks], groups: &[&str]) -> (r: bool)
    ensures
        r == states_match(state_groups(states@), groups@),
{
    let ghost named = state_groups(states@);
    if states.len() != groups.len() {
        return false;
    }
    let mut i: usize = 0;
    while i < states.len()
        invariant
            i <= states@.len(),
            named == state_groups(states@),
            forall|j: int| 0 <= j < i ==> contains_bytes(groups@, (#[trigger] named[j]).spec_bytes()),
        decreases states@.len() - i,
    {
        if !contains_str(groups, states[i].signal_group) {
            assert(named[i as int] == states@[i as int].signal_group);
            return false;
        }
        i = i + 1;
    }
    true
}

/// A value that occurs has a first position.
proof fn lemma_first_bytes_exists(values: Seq<&str>, v: Seq<u8>)
    requires
        contains_bytes(values, v),
    ensures
        exists|k: int| is_first_bytes(values, v, k),
    decreases values.len(),
{
    let last = values.len() - 1;
    if contains_bytes(values.drop_last(), v) {
        lemma_first_bytes_exists(values.drop_last(), v);
        let k = choose|k: int| is_first_bytes(values.drop_last(), v, k);
        assert forall|j: int| 0 <= j < k implies (#[trigger] values[j]).spec_bytes() != v by {
            assert(values[j] == values.drop_last()[j]);
        }
        assert(values[k] == values.drop_last()[k]);
        assert(is_first_bytes(values, v, k));
    } else {
        let i = choose|i: int| 0 <= i < values.len() && (#[trigger] values[i]).spec_bytes() == v;
        if i < last {
            assert(values.drop_last()[i] == values[i]);
        }
        assert forall|j: int| 0 <= j < last implies (#[trigger] values[j]).spec_bytes() != v by {
            assert(values[j] == values.drop_last()[j]);
        }
        assert(is_first_bytes(values, v, last));
    }
}

/// The first position of a value that occurs is a position holding it.
proof fn lemma_bytes_position_found(values: Seq<&str>, v: Seq<u8>)
    requires
        contains_bytes(values, v),
    ensures
        bytes_position(values, v) matches Some(i) && 0 <= i < values.len() && values[i].spec_bytes() == v,
{
    lemma_first_bytes_exists(values, v);
    let k = choose|k: int| is_first_bytes(values, v, k);
    assert(is_first_bytes(values, v, k));
}

/// Every phase of a passing phase check passes its own check.
proof fn lemma_each_phase_passes(
    controllers: Seq<SignalControllerLinks>,
    phases: Seq<SignalPhaseLinks>,
    scratch: PreflightScratch,
    held: int,
)
    requires
        phases_failure(controllers, phases, scratch, held) is None,
    ensures
        forall|p: int| 0 <= p < phases.len() ==> phase_failure(controllers, #[trigger] phases[p], scratch, held) is None,
    decreases phases.len(),
{
    if phases.len() > 0 {
        lemma_each_phase_passes(controllers, phases.drop_last(), scratch, held);
        assert forall|p: int| 0 <= p < phases.len() implies phase_failure(controllers, #[trigger] phases[p], scratch, held)
            is None by {
            if p < phases.len() - 1 {
                assert(phases.drop_last()[p] == phases[p]);
            }
        }
    }
}

/// Group references that are claimed are local and name declared groups.
proof fn lemma_claimed_group_refs_declared(groups: Seq<&str>, counts: Seq<u8>, refs: Seq<&str>)
    requires
        claim_group_refs(groups, counts, refs) is Some,
    ensures
        forall|i: int| 0 <= i < refs.len() ==> declared_key(groups, #[trigger] refs[i]),
    decreases refs.len(),
{
    if refs.len() > 0 {
        let c = claim_group_refs(groups, counts, refs.drop_last())->Some_0;
        lemma_claimed_group_refs_declared(groups, counts, refs.drop_last());
        assert(bytes_position(groups, refs.last().spec_bytes()) is Some);
        assert(contains_bytes(groups, refs.last().spec_bytes()));
        assert forall|i: int| 0 <= i < refs.len() implies declared_key(groups, #[trigger] refs[i]) by {
            if i < refs.len() - 1 {
                assert(refs.drop_last()[i] == refs[i]);
            }
        }
    }
}

/// Group references of controllers that are claimed name declared groups.
proof fn lemma_claimed_controller_groups_declared(groups: Seq<&str>, counts: Seq<u8>, controllers: Seq<SignalControllerLinks>)
    requires
        claim_controller_groups(groups, counts, controllers) is Some,
    ensures
        forall|c: int, j: int|
            0 <= c < controllers.len() && 0 <= j < controllers[c].signal_groups@.len() ==> declared_key(
                groups,
                #[trigger] controllers[c].signal_groups@[j],
            ),
    decreases controllers.len(),
{
    if controllers.len() > 0 {
        let c0 = claim_controller_groups(groups, counts, controllers.drop_last())->Some_0;
        lemma_claimed_controller_groups_declared(groups, counts, controllers.drop_last());
        lemma_claimed_group_refs_declared(groups, c0, controllers.last().signal_groups@);
        assert forall|c: int, j: int|
            0 <= c < controllers.len() && 0 <= j < controllers[c].signal_groups@.len() implies declared_key(
                groups,
                #[trigger] controllers[c].signal_groups@[j],
            ) by {
            if c < controllers.len() - 1 {
                assert(controllers.drop_last()[c] == controllers[c]);
            }
        }
    }
}

/// The states of `phase` name exactly the groups of `controller`: as many
/// states as groups, each state a group of that controller.
pub open spec fn states_fit_controller(phase: SignalPhaseLinks, controller: SignalControllerLinks) -> bool {
    &&& phase.states@.len() == controller.signal_groups@.len()
    &&& forall|i: int|
        0 <= i < phase.states@.len() ==> declared_key(controller.signal_groups@, (#[trigger] phase.states@[i]).signal_group)
}

/// The reference `r` listed by the controller keyed `controller_key` is
/// `controller>phase` for one of that controller's declared phases.
pub open spec fn names_own_phase(phases: Seq<SignalPhaseLinks>, controller_key: &str, r: &str) -> bool {
    exists|q: int|
        0 <= q < phases.len() && (#[trigger] phases[q]).signal_controller.spec_bytes() == controller_key.spec_bytes()
            && local_child_key_spec(r.spec_bytes()) == Some(
            (controller_key.spec_bytes(), phases[q].signal_phase_key.spec_bytes()),
        )
}

/// Every signal reference of a source is resolved: each controller's groups
/// are declared signal groups, each controller's phase references name its
/// own declared phases, and each phase names a declared controller whose
/// groups its states list exactly.
pub open spec fn signal_references_declared(src: SourceLinks) -> bool {
    &&& forall|c: int, j: int|
        0 <= c < src.signal_controllers@.len() && 0 <= j < src.signal_controllers@[c].signal_groups@.len() ==> declared_key(
            src.signal_groups@,
            #[trigger] src.signal_controllers@[c].signal_groups@[j],
        )
    &&& forall|c: int, j: int|
        0 <= c < src.signal_controllers@.len() && 0 <= j < src.signal_controllers@[c].signal_phases@.len() ==> names_own_phase(
            src.signal_phases@,
            src.signal_controllers@[c].signal_controller_key,
            #[trigger] src.signal_controllers@[c].signal_phases@[j],
        )
    &&& forall|p: int|
        0 <= p < src.signal_phases@.len() ==> exists|c: int|
            0 <= c < src.signal_controllers@.len() && (#[trigger] src.signal_controllers@[c]).signal_controller_key.spec_bytes()
                == (#[trigger] src.signal_phases@[p]).signal_controller.spec_bytes() && states_fit_controller(
                src.signal_phases@[p],
                src.signal_controllers@[c],
            )
}

/// A signal closure that passes leaves every signal reference resolved.
pub proof fn law_signal_closure_references_are_declared(src: SourceLinks, scratch: PreflightScratch)
    requires
        signal_links_failure(src, scratch) is None,
    ensures
        signal_references_declared(src),
{
    let controllers = src.signal_controllers@;
    let phases = src.signal_phases@;
    lemma_claimed_controller_groups_declared(src.signal_groups@, zeros(src.signal_groups@.len()), controllers);
    assert forall|c: int, j: int|
        0 <= c < controllers.len() && 0 <= j < controllers[c].signal_phases@.len() implies names_own_phase(
            phases,
            controllers[c].signal_controller_key,
            #[trigger] controllers[c].signal_phases@[j],
        ) by {
        assert(phase_ref_ok(phases, controllers[c].signal_controller_key.spec_bytes(), controllers[c].signal_phases@[j].spec_bytes()));
    }
    let held = (controllers.len() * vstd::layout::size_of::<usize>()) as int;
    lemma_each_phase_passes(controllers, phases, scratch, held);
    let keys = controllers.map_values(|c: SignalControllerLinks| c.signal_controller_key);
    assert forall|p: int| 0 <= p < phases.len() implies exists|c: int|
        0 <= c < controllers.len() && (#[trigger] controllers[c]).signal_controller_key.spec_bytes()
            == (#[trigger] phases[p]).signal_controller.spec_bytes() && states_fit_controller(phases[p], controllers[c]) by {
        assert(phase_failure(controllers, phases[p], scratch, held) is None);
        let v = phases[p].signal_controller.spec_bytes();
        let c = controller_position(controllers, v)->Some_0;
        assert(contains_bytes(keys, v));
        lemma_bytes_position_found(keys, v);
        assert(keys[c] == controllers[c].signal_controller_key);
        let named = state_groups(phases[p].states@);
        assert(states_match(named, controllers[c].signal_groups@));
        assert forall|i: int| 0 <= i < phases[p].states@.len() implies declared_key(
            controllers[c].signal_groups@,
            (#[trigger] phases[p].states@[i]).signal_group,
        ) by {
            assert(named[i] == phases[p].states@[i].signal_group);
            assert(contains_bytes(controllers[c].signal_groups@, named[i].spec_bytes()));
        }
    }
}

proof fn lemma_phases_failure_stops(
    controllers: Seq<SignalControllerLinks>,
    phases: Seq<SignalPhaseLinks>,
    scratch: PreflightScratch,
    held: int,
    k: int,
)
    requires
        0 <= k <= phases.len(),
        phases_failure(controllers, phases.take(k), scratch, held) is Some,
    ensures
        phases_failure(controllers, phases, scratch, held) == phases_failure(
            controllers,
            phases.take(k),
            scratch,
            held,
        ),
    decreases phases.len(),
{
    if k == phases.len() {
        assert(phases.take(k) =~= phases);
    } else {
        assert(phases.drop_last().take(k) =~= phases.take(k));
        lemma_phases_failure_stops(controllers, phases.drop_last(), scratch, held, k);
    }
}

/// Checks the signal ownership closure: every signal group belongs to exactly
/// one controller; every phase reference of a controller is `controller>phase`
/// of an existing phase and the references number exactly the phases; every
/// phase names a controller and has one state per group of that controller,
/// each naming one of them. Each lookup index is reserved in `scratch` first.
pub fn validate_signal_links(src: &SourceLinks, scratch: &mut PreflightScratch, expected_key: &str) -> (r: Result<
    (),
    DiagnosticBundle,
>)
    ensures
        match signal_links_failure(*src, *old(scratch)) {
            None => r is Ok,
            Some(f) => r matches Err(b) && reports(b, f, expected_key@),
        },
        scratch_restored(*old(scratch), *final(scratch)),
        r is Ok ==> peak_lifted(*old(scratch), *final(scratch), signal_links_need(*src)),
        r is Ok ==> signal_references_declared(*src),
{
    let ghost s0 = *scratch;
    let group_count = src.signal_groups.len();
    let order_bytes = scratch.reserve::<usize>(group_count)?;
    let count_bytes = match scratch.reserve::<u8>(group_count) {
        Ok(b) => b,
        Err(e) => {
            scratch.release(order_bytes);
            return Err(e);
        },
    };
    let mut counts: Vec<u8> = Vec::new();
    let mut i: usize = 0;
    while i < group_count
        invariant
            i <= group_count,
            counts@ == zeros(i as nat),
        decreases group_count - i,
    {
        counts.push(0);
        proof {
            assert(counts@ =~= zeros((i + 1) as nat));
        }
        i = i + 1;
    }
    let claimed = claim_groups(src.signal_groups.as_slice(), src.signal_controllers.as_slice(), &mut counts);
    let once = claimed && all_ones(&counts);
    scratch.release(count_bytes);
    scratch.release(order_bytes);
    if !once {
        return Err(invalid_combination("signalController.signalGroups", expected_key));
    }
    assert(scratch_restored(s0, *scratch));
    let phase_bytes = scratch.reserve::<usize>(src.signal_phases.len())?;
    let referenced = phase_refs_check(src.signal_phases.as_slice(), src.signal_controllers.as_slice());
    scratch.release(phase_bytes);
    if !referenced {
        return Err(invalid_combination("signalController.signalPhases", expected_key));
    }
    assert(scratch_restored(s0, *scratch));
    let controller_bytes = scratch.reserve::<usize>(src.signal_controllers.len())?;
    let ghost held = (src.signal_controllers@.len() * vstd::layout::size_of::<usize>()) as int;
    let ghost s1 = *scratch;
    assert(signal_links_failure(*src, s0) == phases_failure(src.signal_controllers@, src.signal_phases@, s0, held));
    let mut i: usize = 0;
    while i < src.signal_phases.len()
        invariant
            i <= src.signal_phases@.len(),
            s0 == *old(scratch),
            held == controller_bytes,
            request::<usize>(s0, src.signal_controllers@.len()) is Ok,
            s1.spec_limits() == s0.spec_limits(),
            s1.admitted() == s0.admitted(),
            s1.live() == s0.live() + controller_bytes,
            s0.peak() <= s1.peak(),
            scratch_restored(s1, *scratch),
            peak_lifted(s1, *scratch, max_need(src.signal_phases@.take(i as int), phase_link_need(src.signal_controllers@))),
            signal_links_failure(*src, s0) == phases_failure(src.signal_controllers@, src.signal_phases@, s0, held),
            phases_failure(src.signal_controllers@, src.signal_phases@.take(i as int), s0, held) is None,
        decreases src.signal_phases@.len() - i,
    {
        let phase = &src.signal_phases[i];
        proof {
            lemma_max_need_extend(src.signal_phases@, phase_link_need(src.signal_controllers@), i as int);
            assert(src.signal_phases@.take(i + 1).drop_last() =~= src.signal_phases@.take(i as int));
            assert(src.signal_phases@.take(i + 1).last() == *phase);
        }
        let c = match find_controller(src.signal_controllers.as_slice(), phase.signal_controller) {
            Some(c) => c,
            None => {
                scratch.release(controller_bytes);
                proof {
                    lemma_phases_failure_stops(src.signal_controllers@, src.signal_phases@, s0, held, i + 1);
                }
                return Err(invalid_combination("signalPhase.signalController", expected_key));
            },
        };
        let groups = &src.signal_controllers[c].signal_groups;
        let expected_bytes = match scratch.reserve::<&str>(groups.len()) {
            Ok(b) => b,
            Err(e) => {
                scratch.release(controller_bytes);
                proof {
                    lemma_phases_failure_stops(src.signal_controllers@, src.signal_phases@, s0, held, i + 1);
                }
                return Err(e);
            },
        };
        let matches = states_match_groups(phase.states.as_slice(), groups.as_slice());
        scratch.release(expected_bytes);
        if !matches {
            scratch.release(controller_bytes);
            proof {
                lemma_phases_failure_stops(src.signal_controllers@, src.signal_phases@, s0, held, i + 1);
            }
            return Err(invalid_combination("signalPhase.states.signalGroup", expected_key));
        }
        i = i + 1;
    }
    proof {
        assert(src.signal_phases@.take(i as int) =~= src.signal_phases@);
        lemma_max_need_all(src.signal_phases@, phase_link_need(src.signal_controllers@));
        law_signal_closure_references_are_declared(*src, s0);
    }
    scratch.release(controller_bytes);
    Ok(())
}

/// Checks the whole local ownership closure of a source: roads and junctions
/// first, then signals.
pub fn validate(src: &SourceLinks, scratch: &mut PreflightScratch, expected_key: &str) -> (r: Result<
    (),
    DiagnosticBundle,
>)
    ensures
        match links_failure(*src, *old(scratch)) {
            None => r is Ok,
            Some(f) => r matches Err(b) && reports(b, f, expected_key@),
        },
        scratch_restored(*old(scratch), *final(scratch)),
        r is Ok ==> peak_lifted(*old(scratch), *final(scratch), links_need(*src)),
        r is Ok ==> owners_declared(*src),
        r is Ok ==> signal_references_declared(*src),
{
    proof {
        reveal(links_failure);
    }
    let ghost s0 = *scratch;
    validate_road_links(src, scratch, expected_key)?;
    proof {
        lemma_signal_links_failure_depends_on_live(*src, s0, *scratch);
    }
    validate_signal_links(src, scratch, expected_key)
}

proof fn lemma_phases_failure_depends_on_live(
    controllers: Seq<SignalControllerLinks>,
    phases: Seq<SignalPhaseLinks>,
    a: PreflightScratch,
    b: PreflightScratch,
    held: int,
)
    requires
        scratch_restored(a, b),
    ensures
        phases_failure(controllers, phases, a, held) == phases_failure(controllers, phases, b, held),
    decreases phases.len(),
{
    if phases.len() > 0 {
        lemma_phases_failure_depends_on_live(controllers, phases.drop_last(), a, b, held);
    }
}

/// The signal closure reads only the limits, the admitted bytes and the live
/// bytes of the scratch pass.
proof fn lemma_signal_links_failure_depends_on_live(src: SourceLinks, a: PreflightScratch, b: PreflightScratch)
    requires
        scratch_restored(a, b),
    ensures
        signal_links_failure(src, a) == signal_links_failure(src, b),
{
    lemma_phases_failure_depends_on_live(
        src.signal_controllers@,
        src.signal_phases@,
        a,
        b,
        (src.signal_controllers@.len() * vstd::layout::size_of::<usize>()) as int,
    );
}

/// Closes a preflight whose declarations were charged into `usage`: holds the
/// counts to the scratch pass's limits, checks the ownership closure, and
/// records the peak scratch request.
pub fn finish_preflight(
    usage: RoadEditingPreflightCounts,
    src: &SourceLinks,
    scratch: &mut PreflightScratch,
    expected_key: &str,
) -> (r: Result<RoadEditingPreflightCounts, DiagnosticBundle>)
    ensures
        match counts_violation(usage, old(scratch).spec_limits()) {
            Some((d, l, o)) => r matches Err(b) && b.is_limit_error(d, l, o),
            None => match links_failure(*src, *old(scratch)) {
                Some(f) => r matches Err(b) && reports(b, f, expected_key@),
                None => r == Ok::<RoadEditingPreflightCounts, DiagnosticBundle>(
                    RoadEditingPreflightCounts { preflight_peak_scratch_bytes: final(scratch).peak(), ..usage },
                ),
            },
        },
        r matches Ok(u) ==> crate::scratch::peak_within_limits(
            old(scratch).spec_limits(),
            old(scratch).admitted(),
            u.preflight_peak_scratch_bytes,
        ),
        scratch_restored(*old(scratch), *final(scratch)),
        r is Ok ==> crate::scratch::peak_lifted(*old(scratch), *final(scratch), links_need(*src)),
        r is Ok ==> owners_declared(*src),
        r is Ok ==> signal_references_declared(*src),
{
    proof {
        reveal(links_failure);
    }
    let limits = *scratch.limits();
    let mut usage = usage.validate(&limits)?;
    validate(src, scratch, expected_key)?;
    usage.preflight_peak_scratch_bytes = scratch.peak_bytes();
    Ok(usage)
}

/// The closure reads only the limits and the live bytes of the scratch pass.
pub proof fn lemma_links_failure_restored(src: SourceLinks, a: PreflightScratch, b: PreflightScratch)
    requires
        scratch_restored(a, b),
    ensures
        links_failure(src, a) == links_failure(src, b),
{
    reveal(links_failure);
    lemma_signal_links_failure_depends_on_live(src, a, b);
}

} // verus!
