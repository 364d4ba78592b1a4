//! Field preflight of the road corridors of a verified source: keys and
//! stations, the reference section and lane that the corridor owns, and its
//! ordered elements.

use vstd::prelude::*;
use vstd::string::StringSliceAdditionalSpecFns;

use crate::declaration::EntityKind;
use crate::diagnostic::{DiagnosticBundle, RoadEditingInputViolation};
use crate::limits::{CompileLimitDimension, CompileLimits};
use crate::policy_check::{single_string_limit, with_records, with_relations};
use crate::preflight::{
    canvas_step, corridor_owned_check, ensure_unique_strings, fold_steps, invalid_combination, lemma_fold_all,
    lemma_fold_extend, lemma_fold_stops, reference_parts_spec, reference_step, references_equal, scratch_restored,
    semantic_error, stage_reports, strs_repeat, token_step, unique_need, unique_step, validate_corridor_owned_reference,
    RoadEditingPreflightCounts, StageFailure,
};
use crate::scratch::{lemma_max_need_all, lemma_max_need_extend, max_nat, max_need, peak_lifted, scratch_request, PreflightScratch};

verus! {

/// What a corridor element places along its corridor, as the wire carries
/// it.
#[derive(Clone, Copy, Debug, PartialEq, Eq, Structural)]
pub enum WireCorridorElementKind {
    RoadSection,
    FacilityBand,
    Other(u8),
}

/// How the end station of a corridor is given, as the wire carries it.
#[derive(Clone, Copy, Debug, PartialEq, Eq, Structural)]
pub enum WireStationEndKind {
    Finite,
    AlignmentEnd,
    Other(u8),
}

/// One element of a corridor: its kind and entity reference.
#[derive(Clone, Copy, Debug)]
pub struct CorridorElementFields<'a> {
    pub kind: WireCorridorElementKind,
    pub entity_reference: &'a str,
}

/// A road corridor: its key, alignment key, the verdicts of the station
/// rules (the start station, and the end station for its end kind), its
/// reference section and lane, its elements, its canvas selection.
#[derive(Clone, Debug)]
pub struct RoadCorridorFields<'a> {
    pub road_corridor_key: &'a str,
    pub road_alignment_key: &'a str,
    pub start_station_violation: Option<RoadEditingInputViolation>,
    pub end_station_kind: WireStationEndKind,
    pub end_station_violation: Option<RoadEditingInputViolation>,
    pub reference_section: &'a str,
    pub reference_lane: &'a str,
    pub elements: Vec<CorridorElementFields<'a>>,
    pub canvas_selection: Option<&'a str>,
}

/// The duplicate key of an element: its kind and its target read in
/// `namespace`.
pub open spec fn element_key(e: CorridorElementFields, namespace: Seq<u8>) -> (WireCorridorElementKind, (Seq<u8>, Seq<u8>)) {
    (e.kind, reference_parts_spec(e.entity_reference.spec_bytes(), namespace))
}

/// Some later element of `es` has the key of the one at `i`.
pub open spec fn later_same_element(es: Seq<CorridorElementFields>, namespace: Seq<u8>, i: int) -> bool {
    exists|j: int| i < j < es.len() && element_key(#[trigger] es[j], namespace) == element_key(es[i], namespace)
}

/// `i` is the earliest element whose key occurs again later.
pub open spec fn is_first_same_element(es: Seq<CorridorElementFields>, namespace: Seq<u8>, i: int) -> bool {
    &&& 0 <= i < es.len()
    &&& later_same_element(es, namespace, i)
    &&& forall|p: int| 0 <= p < i ==> !#[trigger] later_same_element(es, namespace, p)
}

/// The duplicate index of the elements: none for fewer than two elements;
/// otherwise room for it in the scratch pass, then the earliest element whose
/// key repeats.
pub open spec fn element_duplicate_request(es: Seq<CorridorElementFields>, namespace: Seq<u8>, scratch: PreflightScratch) -> Result<
    Option<int>,
    (CompileLimitDimension, u64, u64),
> {
    if es.len() < 2 {
        Ok(None)
    } else {
        match scratch_request(
            scratch.spec_limits(),
            scratch.admitted(),
            scratch.live(),
            (es.len() * vstd::layout::size_of::<((u8, (&str, &str)), usize)>()) as int,
        ) {
            Err(l) => Err(l),
            Ok(_) => if exists|i: int| 0 <= i < es.len() && #[trigger] later_same_element(es, namespace, i) {
                Ok(Some(choose|i: int| is_first_same_element(es, namespace, i)))
            } else {
                Ok(None)
            },
        }
    }
}

/// Checks and charges the element at `i` of a corridor, `duplicate` being
/// the earliest element whose key repeats.
pub open spec fn element_step(
    c: RoadEditingPreflightCounts,
    i: int,
    e: CorridorElementFields,
    corridor_key: Seq<u8>,
    duplicate: Option<int>,
    namespace: Seq<u8>,
    imports: Seq<&str>,
    limit: u64,
) -> Result<RoadEditingPreflightCounts, StageFailure> {
    let c0 = with_records(c, 1);
    if e.kind is Other {
        Err(Err(("roadCorridor.elements.kind"@, RoadEditingInputViolation::InvalidCombination)))
    } else {
        match reference_step(
            c0,
            e.entity_reference.spec_bytes(),
            2,
            false,
            namespace,
            imports,
            limit,
            "roadCorridor.elements.entityReference"@,
        ) {
            Err(f) => Err(f),
            Ok(c1) => match corridor_owned_check(e.entity_reference.spec_bytes(), 2, corridor_key) {
                Some(v) => Err(Err(("roadCorridor.elements.entityReference"@, v))),
                None => if duplicate == Some(i) {
                    Err(Err(("roadCorridor.elements"@, RoadEditingInputViolation::DuplicateValue)))
                } else {
                    Ok(c1)
                },
            },
        }
    }
}

/// Checks and charges the stations, reference section and reference lane of
/// a corridor.
pub open spec fn corridor_head_step(
    c: RoadEditingPreflightCounts,
    x: RoadCorridorFields,
    namespace: Seq<u8>,
    imports: Seq<&str>,
    limit: u64,
) -> Result<RoadEditingPreflightCounts, StageFailure> {
    let key = x.road_corridor_key.spec_bytes();
    match token_step(c.with_declaration(EntityKind::RoadCorridor), key, limit, "roadCorridor.roadCorridorKey"@) {
        Err(f) => Err(f),
        Ok(c1) => match token_step(c1, x.road_alignment_key.spec_bytes(), limit, "roadCorridor.roadAlignmentKey"@) {
            Err(f) => Err(f),
            Ok(c2) => if x.start_station_violation is Some {
                Err(Err(("roadCorridor.startStationMeters"@, x.start_station_violation->Some_0)))
            } else if x.end_station_kind is Other {
                Err(Err(("roadCorridor.endStationKind"@, RoadEditingInputViolation::InvalidCombination)))
            } else if x.end_station_violation is Some {
                Err(Err(("roadCorridor.endStationMeters"@, x.end_station_violation->Some_0)))
            } else {
                match reference_step(
                    c2,
                    x.reference_section.spec_bytes(),
                    2,
                    true,
                    namespace,
                    imports,
                    limit,
                    "roadCorridor.referenceSection"@,
                ) {
                    Err(f) => Err(f),
                    Ok(c3) => match corridor_owned_check(x.reference_section.spec_bytes(), 2, key) {
                        Some(v) => Err(Err(("roadCorridor.referenceSection"@, v))),
                        None => match reference_step(
                            c3,
                            x.reference_lane.spec_bytes(),
                            3,
                            true,
                            namespace,
                            imports,
                            limit,
                            "roadCorridor.referenceLane"@,
                        ) {
                            Err(f) => Err(f),
                            Ok(c4) => match corridor_owned_check(x.reference_lane.spec_bytes(), 3, key) {
                                Some(v) => Err(Err(("roadCorridor.referenceLane"@, v))),
                                None => Ok(c4),
                            },
                        },
                    },
                }
            },
        },
    }
}

/// Checks and charges one road corridor: its head, then its elements as
/// relations, each in order against the duplicate index, then its canvas
/// selection.
pub open spec fn corridor_step(
    c: RoadEditingPreflightCounts,
    x: RoadCorridorFields,
    namespace: Seq<u8>,
    imports: Seq<&str>,
    scratch: PreflightScratch,
) -> Result<RoadEditingPreflightCounts, StageFailure> {
    let limit = single_string_limit(scratch.spec_limits());
    let es = x.elements@;
    match corridor_head_step(c, x, namespace, imports, limit) {
        Err(f) => Err(f),
        Ok(c1) => if es.len() == 0 {
            Err(Err(("roadCorridor.elements"@, RoadEditingInputViolation::EmptyCollection)))
        } else {
            match element_duplicate_request(es, namespace, scratch) {
                Err(l) => Err(Ok(l)),
                Ok(duplicate) => match fold_steps(
                    with_relations(c1, es.len() as int),
                    es,
                    |c: RoadEditingPreflightCounts, i: int, e: CorridorElementFields|
                        element_step(c, i, e, x.road_corridor_key.spec_bytes(), duplicate, namespace, imports, limit),
                ) {
                    Err(f) => Err(f),
                    Ok(c2) => canvas_step(c2, x.canvas_selection, limit),
                },
            }
        },
    }
}

/// The keys of the corridors.
pub open spec fn corridor_keys<'a>(xs: Seq<RoadCorridorFields<'a>>) -> Seq<&'a str> {
    xs.map_values(|x: RoadCorridorFields<'a>| x.road_corridor_key)
}

/// Distinct corridor keys, then each corridor in order.
#[verifier::opaque]
pub open spec fn corridors_outcome(
    c: RoadEditingPreflightCounts,
    xs: Seq<RoadCorridorFields>,
    namespace: Seq<u8>,
    imports: Seq<&str>,
    scratch: PreflightScratch,
) -> Result<RoadEditingPreflightCounts, StageFailure> {
    match unique_step::<&str>(xs.len(), strs_repeat(corridor_keys(xs)), scratch, "roadCorridors.roadCorridorKey"@) {
        Some(f) => Err(f),
        None => fold_steps(
            c,
            xs,
            |c: RoadEditingPreflightCounts, i: int, x: RoadCorridorFields| corridor_step(c, x, namespace, imports, scratch),
        ),
    }
}

/// The scratch need of one corridor: the duplicate index of its elements.
pub open spec fn corridor_need<'a>() -> spec_fn(RoadCorridorFields<'a>) -> nat {
    |x: RoadCorridorFields<'a>| unique_need::<((u8, (&str, &str)), usize)>(x.elements@.len())
}

/// The scratch need of the corridor stage: the index of its keys, or the
/// element index of one corridor.
pub open spec fn corridors_need(xs: Seq<RoadCorridorFields>) -> nat {
    max_nat(unique_need::<&str>(xs.len()), max_need(xs, corridor_need()))
}

/// An optional position as an integer.
pub open spec fn index_of(d: Option<usize>) -> Option<int> {
    match d {
        Some(i) => Some(i as int),
        None => None,
    }
}

/// Whether a later element has the key of the element at `i`.
fn later_element_match(es: &[CorridorElementFields], i: usize, namespace: &str) -> (r: bool)
    requires
        i < es@.len(),
    ensures
        r == later_same_element(es@, namespace.spec_bytes(), i as int),
{
    let ghost ns = namespace.spec_bytes();
    if i == es.len() - 1 {
        return false;
    }
    let mut j: usize = i + 1;
    while j < es.len()
        invariant
            i < es@.len(),
            i + 1 <= j <= es@.len(),
            ns == namespace.spec_bytes(),
            forall|q: int| i < q < j ==> element_key(#[trigger] es@[q], ns) != element_key(es@[i as int], ns),
        decreases es@.len() - j,
    {
        if es[j].kind == es[i].kind && references_equal(es[j].entity_reference, es[i].entity_reference, namespace) {
            return true;
        }
        j = j + 1;
    }
    false
}

/// Reserves room for the duplicate index of the elements and finds the
/// earliest element whose key repeats; see [`element_duplicate_request`].
fn first_element_duplicate(
    es: &[CorridorElementFields],
    namespace: &str,
    scratch: &mut PreflightScratch,
) -> (r: Result<Option<usize>, DiagnosticBundle>)
    ensures
        match element_duplicate_request(es@, namespace.spec_bytes(), *old(scratch)) {
            Err((d, l, o)) => r matches Err(b) && b.is_limit_error(d, l, o),
            Ok(None) => r == Ok::<Option<usize>, DiagnosticBundle>(None),
            Ok(Some(i)) => 0 <= i < es@.len() && r == Ok::<Option<usize>, DiagnosticBundle>(Some(i as usize)),
        },
        scratch_restored(*old(scratch), *final(scratch)),
        r is Ok ==> peak_lifted(*old(scratch), *final(scratch), unique_need::<((u8, (&str, &str)), usize)>(es@.len())),
{
    let ghost ns = namespace.spec_bytes();
    if es.len() < 2 {
        return Ok(None);
    }
    let bytes = scratch.reserve::<((u8, (&str, &str)), usize)>(es.len())?;
    let ghost s1 = *scratch;
    let mut i: usize = 0;
    while i < es.len()
        invariant
            i <= es@.len(),
            ns == namespace.spec_bytes(),
            *scratch == s1,
            s1.live() >= bytes,
            s1.live() - bytes == old(scratch).live(),
            s1.spec_limits() == old(scratch).spec_limits(),
            s1.admitted() == old(scratch).admitted(),
            old(scratch).peak() <= s1.peak(),
            peak_lifted(*old(scratch), s1, unique_need::<((u8, (&str, &str)), usize)>(es@.len())),
            es@.len() >= 2,
            scratch_request(
                old(scratch).spec_limits(),
                old(scratch).admitted(),
                old(scratch).live(),
                (es@.len() * vstd::layout::size_of::<((u8, (&str, &str)), usize)>()) as int,
            ) is Ok,
            forall|p: int| 0 <= p < i ==> !#[trigger] later_same_element(es@, ns, p),
        decreases es@.len() - i,
    {
        if later_element_match(es, i, namespace) {
            scratch.release(bytes);
            proof {
                let k = choose|k: int| is_first_same_element(es@, ns, k);
                assert(is_first_same_element(es@, ns, i as int));
                assert(is_first_same_element(es@, ns, k));
                if k < i {
                    assert(!later_same_element(es@, ns, k));
                }
                if i < k {
                    assert(!later_same_element(es@, ns, i as int));
                }
            }
            return Ok(Some(i));
        }
        i = i + 1;
    }
    scratch.release(bytes);
    Ok(None)
}

/// Checks and charges the head of a corridor; see [`corridor_head_step`].
fn check_corridor_head(
    usage: &mut RoadEditingPreflightCounts,
    x: &RoadCorridorFields,
    namespace: &str,
    imports: &[&str],
    limits: &CompileLimits,
    key: &str,
) -> (r: Result<(), DiagnosticBundle>)
    ensures
        match corridor_head_step(*old(usage), *x, namespace.spec_bytes(), imports@, single_string_limit(*limits)) {
            Ok(c) => r is Ok && *final(usage) == c,
            Err(f) => r matches Err(b) && stage_reports(b, f, key@),
        },
{
    usage.charge_declaration(EntityKind::RoadCorridor);
    usage.charge_token(x.road_corridor_key, "roadCorridor.roadCorridorKey", limits, key)?;
    usage.charge_token(x.road_alignment_key, "roadCorridor.roadAlignmentKey", limits, key)?;
    if let Some(v) = x.start_station_violation {
        return Err(semantic_error("roadCorridor.startStationMeters", v, key));
    }
    if let WireStationEndKind::Other(_) = x.end_station_kind {
        return Err(invalid_combination("roadCorridor.endStationKind", key));
    }
    if let Some(v) = x.end_station_violation {
        return Err(semantic_error("roadCorridor.endStationMeters", v, key));
    }
    usage.charge_reference(x.reference_section, 2, true, "roadCorridor.referenceSection", namespace, imports, limits, key)?;
    validate_corridor_owned_reference(x.reference_section, 2, x.road_corridor_key, "roadCorridor.referenceSection", key)?;
    usage.charge_reference(x.reference_lane, 3, true, "roadCorridor.referenceLane", namespace, imports, limits, key)?;
    validate_corridor_owned_reference(x.reference_lane, 3, x.road_corridor_key, "roadCorridor.referenceLane", key)
}

/// Checks and charges the elements of a corridor in order, `duplicate`
/// being the earliest element whose key repeats.
fn check_corridor_elements(
    usage: &mut RoadEditingPreflightCounts,
    es: &[CorridorElementFields],
    corridor_key: &str,
    duplicate: Option<usize>,
    namespace: &str,
    imports: &[&str],
    limits: &CompileLimits,
    key: &str,
) -> (r: Result<(), DiagnosticBundle>)
    ensures
        match fold_steps(
            *old(usage),
            es@,
            |c: RoadEditingPreflightCounts, i: int, e: CorridorElementFields|
                element_step(
                    c,
                    i,
                    e,
                    corridor_key.spec_bytes(),
                    index_of(duplicate),
                    namespace.spec_bytes(),
                    imports@,
                    single_string_limit(*limits),
                ),
        ) {
            Ok(c) => r is Ok && *final(usage) == c,
            Err(f) => r matches Err(b) && stage_reports(b, f, key@),
        },
{
    let ghost dup = index_of(duplicate);
    let ghost limit = single_string_limit(*limits);
    let ghost step = |c: RoadEditingPreflightCounts, i: int, e: CorridorElementFields|
        element_step(c, i, e, corridor_key.spec_bytes(), dup, namespace.spec_bytes(), imports@, limit);
    let ghost start = *usage;
    let mut i: usize = 0;
    while i < es.len()
        invariant
            i <= es@.len(),
            start == *old(usage),
            limit == single_string_limit(*limits),
            dup == index_of(duplicate),
            step == (|c: RoadEditingPreflightCounts, i: int, e: CorridorElementFields|
                element_step(c, i, e, corridor_key.spec_bytes(), dup, namespace.spec_bytes(), imports@, limit)),
            fold_steps(start, es@.take(i as int), step) == Ok::<RoadEditingPreflightCounts, StageFailure>(*usage),
        decreases es@.len() - i,
    {
        proof {
            lemma_fold_extend(start, es@, step, i as int);
        }
        let e = es[i];
        usage.typed_ast_record_count = usage.typed_ast_record_count.saturating_add(1);
        let r = if let WireCorridorElementKind::Other(_) = e.kind {
            Err(invalid_combination("roadCorridor.elements.kind", key))
        } else {
            match usage.charge_reference(
                e.entity_reference,
                2,
                false,
                "roadCorridor.elements.entityReference",
                namespace,
                imports,
                limits,
                key,
            ) {
                Err(b) => Err(b),
                Ok(()) => match validate_corridor_owned_reference(
                    e.entity_reference,
                    2,
                    corridor_key,
                    "roadCorridor.elements.entityReference",
                    key,
                ) {
                    Err(b) => Err(b),
                    Ok(()) => if duplicate == Some(i) {
                        Err(semantic_error("roadCorridor.elements", RoadEditingInputViolation::DuplicateValue, key))
                    } else {
                        Ok(())
                    },
                },
            }
        };
        match r {
            Ok(()) => {},
            Err(b) => {
                proof {
                    lemma_fold_stops(start, es@, step, i + 1);
                }
                return Err(b);
            },
        }
        i = i + 1;
    }
    proof {
        lemma_fold_all(start, es@, step);
    }
    Ok(())
}

/// Checks and charges one road corridor; see [`corridor_step`].
pub fn check_road_corridor(
    usage: &mut RoadEditingPreflightCounts,
    x: &RoadCorridorFields,
    namespace: &str,
    imports: &[&str],
    scratch: &mut PreflightScratch,
    key: &str,
) -> (r: Result<(), DiagnosticBundle>)
    ensures
        match corridor_step(*old(usage), *x, namespace.spec_bytes(), imports@, *old(scratch)) {
            Ok(c) => r is Ok && *final(usage) == c,
            Err(f) => r matches Err(b) && stage_reports(b, f, key@),
        },
        scratch_restored(*old(scratch), *final(scratch)),
        r is Ok ==> peak_lifted(*old(scratch), *final(scratch), corridor_need()(*x)),
{
    let limits = *scratch.limits();
    check_corridor_head(usage, x, namespace, imports, &limits, key)?;
    let es = x.elements.as_slice();
    if es.len() == 0 {
        return Err(semantic_error("roadCorridor.elements", RoadEditingInputViolation::EmptyCollection, key));
    }
    usage.charge_relation(es.len());
    let duplicate = first_element_duplicate(es, namespace, scratch)?;
    check_corridor_elements(usage, es, x.road_corridor_key, duplicate, namespace, imports, &limits, key)?;
    usage.charge_canvas(x.canvas_selection, &limits, key)
}

/// Corridor checks read only the limits and the live bytes of the scratch
/// pass.
proof fn lemma_corridor_steps_restored(namespace: Seq<u8>, imports: Seq<&str>, a: PreflightScratch, b: PreflightScratch)
    requires
        scratch_restored(a, b),
    ensures
        forall|c: RoadEditingPreflightCounts, x: RoadCorridorFields|
            #[trigger] corridor_step(c, x, namespace, imports, a) == corridor_step(c, x, namespace, imports, b),
{
}

/// Checks and charges the road corridors; see [`corridors_outcome`].
pub fn validate_corridors(
    usage: &mut RoadEditingPreflightCounts,
    xs: &[RoadCorridorFields],
    namespace: &str,
    imports: &[&str],
    scratch: &mut PreflightScratch,
    key: &str,
) -> (r: Result<(), DiagnosticBundle>)
    ensures
        match corridors_outcome(*old(usage), xs@, namespace.spec_bytes(), imports@, *old(scratch)) {
            Ok(c) => r is Ok && *final(usage) == c,
            Err(f) => r matches Err(b) && stage_reports(b, f, key@),
        },
        scratch_restored(*old(scratch), *final(scratch)),
        r is Ok ==> peak_lifted(*old(scratch), *final(scratch), corridors_need(xs@)),
{
    proof {
        reveal(corridors_outcome);
    }
    let ghost s0 = *scratch;
    let mut keys: Vec<&str> = Vec::new();
    let mut j: usize = 0;
    while j < xs.len()
        invariant
            j <= xs@.len(),
            keys@ == corridor_keys(xs@.take(j as int)),
        decreases xs@.len() - j,
    {
        keys.push(xs[j].road_corridor_key);
        proof {
            assert(corridor_keys(xs@.take(j + 1)) =~= corridor_keys(xs@.take(j as int)).push(xs@[j as int].road_corridor_key));
        }
        j = j + 1;
    }
    proof {
        assert(xs@.take(j as int) =~= xs@);
    }
    ensure_unique_strings(keys.as_slice(), "roadCorridors.roadCorridorKey", key, scratch)?;
    let ghost s1 = *scratch;
    let ghost step = |c: RoadEditingPreflightCounts, i: int, x: RoadCorridorFields|
        corridor_step(c, x, namespace.spec_bytes(), imports@, s0);
    let ghost start = *usage;
    let mut i: usize = 0;
    while i < xs.len()
        invariant
            i <= xs@.len(),
            s0 == *old(scratch),
            start == *old(usage),
            scratch_restored(s0, *scratch),
            scratch_restored(s0, s1),
            peak_lifted(s1, *scratch, max_need(xs@.take(i as int), corridor_need())),
            corridors_outcome(start, xs@, namespace.spec_bytes(), imports@, s0) == fold_steps(start, xs@, step),
            step == (|c: RoadEditingPreflightCounts, i: int, x: RoadCorridorFields|
                corridor_step(c, x, namespace.spec_bytes(), imports@, s0)),
            fold_steps(start, xs@.take(i as int), step) == Ok::<RoadEditingPreflightCounts, StageFailure>(*usage),
        decreases xs@.len() - i,
    {
        proof {
            lemma_fold_extend(start, xs@, step, i as int);
            lemma_corridor_steps_restored(namespace.spec_bytes(), imports@, s0, *scratch);
            lemma_max_need_extend(xs@, corridor_need(), i as int);
        }
        match check_road_corridor(usage, &xs[i], namespace, imports, scratch, key) {
            Ok(()) => {},
            Err(e) => {
                proof {
                    lemma_fold_stops(start, xs@, step, i + 1);
                }
                return Err(e);
            },
        }
        i = i + 1;
    }
    proof {
        lemma_fold_all(start, xs@, step);
        lemma_max_need_all(xs@, corridor_need());
    }
    Ok(())
}

/// The corridor outcome reads only the limits and the live bytes of the
/// scratch pass.
pub proof fn lemma_corridors_outcome_restored(
    c: RoadEditingPreflightCounts,
    xs: Seq<RoadCorridorFields>,
    namespace: Seq<u8>,
    imports: Seq<&str>,
    a: PreflightScratch,
    b: PreflightScratch,
)
    requires
        scratch_restored(a, b),
    ensures
        corridors_outcome(c, xs, namespace, imports, a) == corridors_outcome(c, xs, namespace, imports, b),
{
    reveal(corridors_outcome);
    lemma_corridor_steps_restored(namespace, imports, a, b);
    assert((|c: RoadEditingPreflightCounts, i: int, x: RoadCorridorFields| corridor_step(c, x, namespace, imports, a))
        =~= (|c: RoadEditingPreflightCounts, i: int, x: RoadCorridorFields| corridor_step(c, x, namespace, imports, b)));
}

} // verus!
