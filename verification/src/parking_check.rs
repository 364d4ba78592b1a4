//! Field preflight of the parking tables of a verified source: parking
//! facilities with their virtual entries and exits, and parking spaces.

use vstd::prelude::*;
use vstd::string::StringSliceAdditionalSpecFns;

use crate::declaration::EntityKind;
use crate::diagnostic::{DiagnosticBundle, RoadEditingInputViolation};
use crate::limits::CompileLimits;
use crate::policy_check::{lemma_sat_add_split, single_string_limit, with_records, with_relations};
use crate::preflight::{
    canvas_step, ensure_unique_strings, fold_steps, invalid_combination, lemma_fold_all, lemma_fold_extend,
    lemma_fold_stops, reference_step, sat_add, scratch_restored, semantic_error, stage_reports, strs_repeat,
    token_step, unique_need, unique_step, RoadEditingPreflightCounts, StageFailure,
};
use crate::scratch::{max_nat, peak_lifted, PreflightScratch};

verus! {

/// An anchor on a lane edge: the edge, and the verdict of the anchor
/// clearance rule on its progress.
#[derive(Clone, Copy, Debug)]
pub struct ParkingAnchorFields<'a> {
    pub lane_edge: &'a str,
    pub progress_violation: Option<RoadEditingInputViolation>,
}

/// A parking facility: its key, virtual capacity, virtual entries and exits,
/// canvas selection.
#[derive(Clone, Debug)]
pub struct ParkingFacilityFields<'a> {
    pub parking_facility_key: &'a str,
    pub virtual_capacity: u32,
    pub virtual_entries: Vec<ParkingAnchorFields<'a>>,
    pub virtual_exits: Vec<ParkingAnchorFields<'a>>,
    pub canvas_selection: Option<&'a str>,
}

/// A parking space: its key, optional facility, entry and exit anchors, the
/// verdict of the geometry rules (the field and violation of the first broken
/// rule), canvas selection.
#[derive(Clone, Copy, Debug)]
pub struct ParkingSpaceFields<'a> {
    pub parking_space_key: &'a str,
    pub parking_facility: Option<&'a str>,
    pub entry: ParkingAnchorFields<'a>,
    pub exit: ParkingAnchorFields<'a>,
    pub geometry_violation: Option<(&'a str, RoadEditingInputViolation)>,
    pub canvas_selection: Option<&'a str>,
}

/// Checks an anchor at `field`: its lane edge reference, then its progress.
pub open spec fn anchor_step(
    c: RoadEditingPreflightCounts,
    a: ParkingAnchorFields,
    field: Seq<char>,
    namespace: Seq<u8>,
    imports: Seq<&str>,
    limit: u64,
) -> Result<RoadEditingPreflightCounts, StageFailure> {
    match reference_step(c, a.lane_edge.spec_bytes(), 1, true, namespace, imports, limit, field) {
        Err(f) => Err(f),
        Ok(c1) => match a.progress_violation {
            Some(v) => Err(Err((field, v))),
            None => Ok(c1),
        },
    }
}

/// Checks each anchor of `anchors` at `field`, in order.
pub open spec fn anchors_step(
    c: RoadEditingPreflightCounts,
    anchors: Seq<ParkingAnchorFields>,
    field: Seq<char>,
    namespace: Seq<u8>,
    imports: Seq<&str>,
    limit: u64,
) -> Result<RoadEditingPreflightCounts, StageFailure> {
    fold_steps(
        c,
        anchors,
        |c: RoadEditingPreflightCounts, i: int, a: ParkingAnchorFields| anchor_step(c, a, field, namespace, imports, limit),
    )
}

/// A facility with no virtual capacity has no virtual entries or exits; one
/// with capacity has both.
pub open spec fn virtual_capacity_consistent(x: ParkingFacilityFields) -> bool {
    if x.virtual_capacity == 0 {
        x.virtual_entries@.len() == 0 && x.virtual_exits@.len() == 0
    } else {
        x.virtual_entries@.len() != 0 && x.virtual_exits@.len() != 0
    }
}

/// Checks and charges one parking facility.
pub open spec fn facility_step(
    c: RoadEditingPreflightCounts,
    x: ParkingFacilityFields,
    namespace: Seq<u8>,
    imports: Seq<&str>,
    limit: u64,
) -> Result<RoadEditingPreflightCounts, StageFailure> {
    let n = x.virtual_entries@.len() + x.virtual_exits@.len();
    match token_step(
        c.with_declaration(EntityKind::ParkingFacility),
        x.parking_facility_key.spec_bytes(),
        limit,
        "parkingFacility.parkingFacilityKey"@,
    ) {
        Err(f) => Err(f),
        Ok(c1) => if !virtual_capacity_consistent(x) {
            Err(Err(("parkingFacility.virtualCapacity"@, RoadEditingInputViolation::InvalidCombination)))
        } else {
            match anchors_step(
                with_relations(with_records(c1, n as int), n as int),
                x.virtual_entries@,
                "parkingFacility.virtualEntries"@,
                namespace,
                imports,
                limit,
            ) {
                Err(f) => Err(f),
                Ok(c2) => match anchors_step(c2, x.virtual_exits@, "parkingFacility.virtualExits"@, namespace, imports, limit) {
                    Err(f) => Err(f),
                    Ok(c3) => canvas_step(c3, x.canvas_selection, limit),
                },
            }
        },
    }
}

/// Checks and charges one parking space.
pub open spec fn space_step(
    c: RoadEditingPreflightCounts,
    x: ParkingSpaceFields,
    namespace: Seq<u8>,
    imports: Seq<&str>,
    limit: u64,
) -> Result<RoadEditingPreflightCounts, StageFailure> {
    match token_step(
        with_records(c.with_declaration(EntityKind::ParkingSpace), 3),
        x.parking_space_key.spec_bytes(),
        limit,
        "parkingSpace.parkingSpaceKey"@,
    ) {
        Err(f) => Err(f),
        Ok(c1) => {
            let c2 = match x.parking_facility {
                None => Ok(c1),
                Some(a) => reference_step(c1, a.spec_bytes(), 1, true, namespace, imports, limit, "parkingSpace.parkingFacility"@),
            };
            match c2 {
                Err(f) => Err(f),
                Ok(c3) => match anchor_step(c3, x.entry, "parkingSpace.entry"@, namespace, imports, limit) {
                    Err(f) => Err(f),
                    Ok(c4) => match anchor_step(c4, x.exit, "parkingSpace.exit"@, namespace, imports, limit) {
                        Err(f) => Err(f),
                        Ok(c5) => match x.geometry_violation {
                            Some((field, v)) => Err(Err((field@, v))),
                            None => canvas_step(c5, x.canvas_selection, limit),
                        },
                    },
                },
            }
        },
    }
}

/// The keys of the parking facilities.
pub open spec fn facility_keys<'a>(xs: Seq<ParkingFacilityFields<'a>>) -> Seq<&'a str> {
    xs.map_values(|x: ParkingFacilityFields<'a>| x.parking_facility_key)
}

/// The keys of the parking spaces.
pub open spec fn space_keys<'a>(xs: Seq<ParkingSpaceFields<'a>>) -> Seq<&'a str> {
    xs.map_values(|x: ParkingSpaceFields<'a>| x.parking_space_key)
}

/// Distinct facility keys, then each facility in order.
pub open spec fn facilities_outcome(
    c: RoadEditingPreflightCounts,
    xs: Seq<ParkingFacilityFields>,
    namespace: Seq<u8>,
    imports: Seq<&str>,
    scratch: PreflightScratch,
) -> Result<RoadEditingPreflightCounts, StageFailure> {
    let limit = single_string_limit(scratch.spec_limits());
    match unique_step::<&str>(xs.len(), strs_repeat(facility_keys(xs)), scratch, "parkingFacilities.parkingFacilityKey"@) {
        Some(f) => Err(f),
        None => fold_steps(
            c,
            xs,
            |c: RoadEditingPreflightCounts, i: int, x: ParkingFacilityFields| facility_step(c, x, namespace, imports, limit),
        ),
    }
}

/// Distinct space keys, then each space in order.
pub open spec fn spaces_outcome(
    c: RoadEditingPreflightCounts,
    xs: Seq<ParkingSpaceFields>,
    namespace: Seq<u8>,
    imports: Seq<&str>,
    scratch: PreflightScratch,
) -> Result<RoadEditingPreflightCounts, StageFailure> {
    let limit = single_string_limit(scratch.spec_limits());
    match unique_step::<&str>(xs.len(), strs_repeat(space_keys(xs)), scratch, "parkingSpaces.parkingSpaceKey"@) {
        Some(f) => Err(f),
        None => fold_steps(
            c,
            xs,
            |c: RoadEditingPreflightCounts, i: int, x: ParkingSpaceFields| space_step(c, x, namespace, imports, limit),
        ),
    }
}

/// The outcome of the parking stage: facilities, then spaces.
#[verifier::opaque]
pub open spec fn parking_outcome(
    c: RoadEditingPreflightCounts,
    facilities: Seq<ParkingFacilityFields>,
    spaces: Seq<ParkingSpaceFields>,
    namespace: Seq<u8>,
    imports: Seq<&str>,
    scratch: PreflightScratch,
) -> Result<RoadEditingPreflightCounts, StageFailure> {
    match facilities_outcome(c, facilities, namespace, imports, scratch) {
        Err(f) => Err(f),
        Ok(c1) => spaces_outcome(c1, spaces, namespace, imports, scratch),
    }
}

/// Checks an anchor at `field`; see [`anchor_step`].
pub fn check_parking_anchor(
    usage: &mut RoadEditingPreflightCounts,
    a: &ParkingAnchorFields,
    field: &str,
    namespace: &str,
    imports: &[&str],
    limits: &CompileLimits,
    key: &str,
) -> (r: Result<(), DiagnosticBundle>)
    ensures
        match anchor_step(*old(usage), *a, field@, namespace.spec_bytes(), imports@, single_string_limit(*limits)) {
            Ok(c) => r is Ok && *final(usage) == c,
            Err(f) => r matches Err(b) && stage_reports(b, f, key@),
        },
{
    usage.charge_reference(a.lane_edge, 1, true, field, namespace, imports, limits, key)?;
    if let Some(v) = a.progress_violation {
        return Err(semantic_error(field, v, key));
    }
    Ok(())
}

/// Checks each anchor of `anchors` at `field`; see [`anchors_step`].
pub fn check_parking_anchors(
    usage: &mut RoadEditingPreflightCounts,
    anchors: &[ParkingAnchorFields],
    field: &str,
    namespace: &str,
    imports: &[&str],
    limits: &CompileLimits,
    key: &str,
) -> (r: Result<(), DiagnosticBundle>)
    ensures
        match anchors_step(*old(usage), anchors@, field@, namespace.spec_bytes(), imports@, single_string_limit(*limits)) {
            Ok(c) => r is Ok && *final(usage) == c,
            Err(f) => r matches Err(b) && stage_reports(b, f, key@),
        },
{
    let ghost limit = single_string_limit(*limits);
    let ghost step = |c: RoadEditingPreflightCounts, i: int, a: ParkingAnchorFields|
        anchor_step(c, a, field@, namespace.spec_bytes(), imports@, limit);
    let ghost start = *usage;
    let mut i: usize = 0;
    while i < anchors.len()
        invariant
            i <= anchors@.len(),
            start == *old(usage),
            limit == single_string_limit(*limits),
            step == (|c: RoadEditingPreflightCounts, i: int, a: ParkingAnchorFields|
                anchor_step(c, a, field@, namespace.spec_bytes(), imports@, limit)),
            fold_steps(start, anchors@.take(i as int), step) == Ok::<RoadEditingPreflightCounts, StageFailure>(*usage),
        decreases anchors@.len() - i,
    {
        proof {
            lemma_fold_extend(start, anchors@, step, i as int);
        }
        match check_parking_anchor(usage, &anchors[i], field, namespace, imports, limits, key) {
            Ok(()) => {},
            Err(e) => {
                proof {
                    lemma_fold_stops(start, anchors@, step, i + 1);
                }
                return Err(e);
            },
        }
        i = i + 1;
    }
    proof {
        lemma_fold_all(start, anchors@, step);
    }
    Ok(())
}

/// Checks and charges one parking facility; see [`facility_step`].
pub fn check_parking_facility(
    usage: &mut RoadEditingPreflightCounts,
    x: &ParkingFacilityFields,
    namespace: &str,
    imports: &[&str],
    limits: &CompileLimits,
    key: &str,
) -> (r: Result<(), DiagnosticBundle>)
    ensures
        match facility_step(*old(usage), *x, namespace.spec_bytes(), imports@, single_string_limit(*limits)) {
            Ok(c) => r is Ok && *final(usage) == c,
            Err(f) => r matches Err(b) && stage_reports(b, f, key@),
        },
{
    usage.charge_declaration(EntityKind::ParkingFacility);
    usage.charge_token(x.parking_facility_key, "parkingFacility.parkingFacilityKey", limits, key)?;
    let entries = x.virtual_entries.as_slice();
    let exits = x.virtual_exits.as_slice();
    if (x.virtual_capacity == 0 && (entries.len() != 0 || exits.len() != 0)) || (x.virtual_capacity != 0 && (
    entries.len() == 0 || exits.len() == 0)) {
        return Err(invalid_combination("parkingFacility.virtualCapacity", key));
    }
    let ghost a = usage.typed_ast_record_count;
    let ghost b = usage.relation_occurrence_count;
    usage.typed_ast_record_count = usage.typed_ast_record_count.saturating_add(entries.len() as u64);
    usage.typed_ast_record_count = usage.typed_ast_record_count.saturating_add(exits.len() as u64);
    usage.charge_relation(entries.len());
    usage.charge_relation(exits.len());
    proof {
        lemma_sat_add_split(a, entries@.len() as int, exits@.len() as int);
        lemma_sat_add_split(b, entries@.len() as int, exits@.len() as int);
    }
    check_parking_anchors(usage, entries, "parkingFacility.virtualEntries", namespace, imports, limits, key)?;
    check_parking_anchors(usage, exits, "parkingFacility.virtualExits", namespace, imports, limits, key)?;
    usage.charge_canvas(x.canvas_selection, limits, key)
}

/// Checks and charges one parking space; see [`space_step`].
pub fn check_parking_space(
    usage: &mut RoadEditingPreflightCounts,
    x: &ParkingSpaceFields,
    namespace: &str,
    imports: &[&str],
    limits: &CompileLimits,
    key: &str,
) -> (r: Result<(), DiagnosticBundle>)
    ensures
        match space_step(*old(usage), *x, namespace.spec_bytes(), imports@, single_string_limit(*limits)) {
            Ok(c) => r is Ok && *final(usage) == c,
            Err(f) => r matches Err(b) && stage_reports(b, f, key@),
        },
{
    usage.charge_declaration(EntityKind::ParkingSpace);
    usage.typed_ast_record_count = usage.typed_ast_record_count.saturating_add(3);
    usage.charge_token(x.parking_space_key, "parkingSpace.parkingSpaceKey", limits, key)?;
    if let Some(area) = x.parking_facility {
        usage.charge_reference(area, 1, true, "parkingSpace.parkingFacility", namespace, imports, limits, key)?;
    }
    check_parking_anchor(usage, &x.entry, "parkingSpace.entry", namespace, imports, limits, key)?;
    check_parking_anchor(usage, &x.exit, "parkingSpace.exit", namespace, imports, limits, key)?;
    if let Some((field, v)) = x.geometry_violation {
        return Err(semantic_error(field, v, key));
    }
    usage.charge_canvas(x.canvas_selection, limits, key)
}

/// Checks and charges the parking facilities; see [`facilities_outcome`].
pub fn validate_parking_facilities(
    usage: &mut RoadEditingPreflightCounts,
    xs: &[ParkingFacilityFields],
    namespace: &str,
    imports: &[&str],
    scratch: &mut PreflightScratch,
    key: &str,
) -> (r: Result<(), DiagnosticBundle>)
    ensures
        match facilities_outcome(*old(usage), xs@, namespace.spec_bytes(), imports@, *old(scratch)) {
            Ok(c) => r is Ok && *final(usage) == c,
            Err(f) => r matches Err(b) && stage_reports(b, f, key@),
        },
        scratch_restored(*old(scratch), *final(scratch)),
        r is Ok ==> peak_lifted(*old(scratch), *final(scratch), unique_need::<&str>(xs@.len())),
{
    let ghost s0 = *scratch;
    let limits = *scratch.limits();
    let mut keys: Vec<&str> = Vec::new();
    let mut j: usize = 0;
    while j < xs.len()
        invariant
            j <= xs@.len(),
            keys@ == facility_keys(xs@.take(j as int)),
        decreases xs@.len() - j,
    {
        keys.push(xs[j].parking_facility_key);
        proof {
            assert(facility_keys(xs@.take(j + 1)) =~= facility_keys(xs@.take(j as int)).push(xs@[j as int].parking_facility_key));
        }
        j = j + 1;
    }
    proof {
        assert(xs@.take(j as int) =~= xs@);
    }
    ensure_unique_strings(keys.as_slice(), "parkingFacilities.parkingFacilityKey", key, scratch)?;
    let ghost limit = single_string_limit(limits);
    let ghost step = |c: RoadEditingPreflightCounts, i: int, x: ParkingFacilityFields|
        facility_step(c, x, namespace.spec_bytes(), imports@, limit);
    let ghost start = *usage;
    let mut i: usize = 0;
    while i < xs.len()
        invariant
            i <= xs@.len(),
            s0 == *old(scratch),
            start == *old(usage),
            limits == s0.spec_limits(),
            limit == single_string_limit(limits),
            scratch_restored(s0, *scratch),
            facilities_outcome(start, xs@, namespace.spec_bytes(), imports@, s0) == fold_steps(start, xs@, step),
            step == (|c: RoadEditingPreflightCounts, i: int, x: ParkingFacilityFields|
                facility_step(c, x, namespace.spec_bytes(), imports@, limit)),
            fold_steps(start, xs@.take(i as int), step) == Ok::<RoadEditingPreflightCounts, StageFailure>(*usage),
        decreases xs@.len() - i,
    {
        proof {
            lemma_fold_extend(start, xs@, step, i as int);
        }
        match check_parking_facility(usage, &xs[i], namespace, imports, &limits, key) {
            Ok(()) => {},
            Err(e) => {
                proof {
                    lemma_fold_stops(start, xs@, step, i + 1);
                }
                return Err(e);
            },
        }
        i = i + 1;
    }
    proof {
        lemma_fold_all(start, xs@, step);
    }
    Ok(())
}

/// Checks and charges the parking spaces; see [`spaces_outcome`].
pub fn validate_parking_spaces(
    usage: &mut RoadEditingPreflightCounts,
    xs: &[ParkingSpaceFields],
    namespace: &str,
    imports: &[&str],
    scratch: &mut PreflightScratch,
    key: &str,
) -> (r: Result<(), DiagnosticBundle>)
    ensures
        match spaces_outcome(*old(usage), xs@, namespace.spec_bytes(), imports@, *old(scratch)) {
            Ok(c) => r is Ok && *final(usage) == c,
            Err(f) => r matches Err(b) && stage_reports(b, f, key@),
        },
        scratch_restored(*old(scratch), *final(scratch)),
        r is Ok ==> peak_lifted(*old(scratch), *final(scratch), unique_need::<&str>(xs@.len())),
{
    let ghost s0 = *scratch;
    let limits = *scratch.limits();
    let mut keys: Vec<&str> = Vec::new();
    let mut j: usize = 0;
    while j < xs.len()
        invariant
            j <= xs@.len(),
            keys@ == space_keys(xs@.take(j as int)),
        decreases xs@.len() - j,
    {
        keys.push(xs[j].parking_space_key);
        proof {
            assert(space_keys(xs@.take(j + 1)) =~= space_keys(xs@.take(j as int)).push(xs@[j as int].parking_space_key));
        }
        j = j + 1;
    }
    proof {
        assert(xs@.take(j as int) =~= xs@);
    }
    ensure_unique_strings(keys.as_slice(), "parkingSpaces.parkingSpaceKey", key, scratch)?;
    let ghost limit = single_string_limit(limits);
    let ghost step = |c: RoadEditingPreflightCounts, i: int, x: ParkingSpaceFields|
        space_step(c, x, namespace.spec_bytes(), imports@, limit);
    let ghost start = *usage;
    let mut i: usize = 0;
    while i < xs.len()
        invariant
            i <= xs@.len(),
            s0 == *old(scratch),
            start == *old(usage),
            limits == s0.spec_limits(),
            limit == single_string_limit(limits),
            scratch_restored(s0, *scratch),
            spaces_outcome(start, xs@, namespace.spec_bytes(), imports@, s0) == fold_steps(start, xs@, step),
            step == (|c: RoadEditingPreflightCounts, i: int, x: ParkingSpaceFields|
                space_step(c, x, namespace.spec_bytes(), imports@, limit)),
            fold_steps(start, xs@.take(i as int), step) == Ok::<RoadEditingPreflightCounts, StageFailure>(*usage),
        decreases xs@.len() - i,
    {
        proof {
            lemma_fold_extend(start, xs@, step, i as int);
        }
        match check_parking_space(usage, &xs[i], namespace, imports, &limits, key) {
            Ok(()) => {},
            Err(e) => {
                proof {
                    lemma_fold_stops(start, xs@, step, i + 1);
                }
                return Err(e);
            },
        }
        i = i + 1;
    }
    proof {
        lemma_fold_all(start, xs@, step);
    }
    Ok(())
}

/// Checks and charges the parking facilities, then the parking spaces; see
/// [`parking_outcome`].
pub fn validate_parking(
    usage: &mut RoadEditingPreflightCounts,
    facilities: &[ParkingFacilityFields],
    spaces: &[ParkingSpaceFields],
    namespace: &str,
    imports: &[&str],
    scratch: &mut PreflightScratch,
    key: &str,
) -> (r: Result<(), DiagnosticBundle>)
    ensures
        match parking_outcome(*old(usage), facilities@, spaces@, namespace.spec_bytes(), imports@, *old(scratch)) {
            Ok(c) => r is Ok && *final(usage) == c,
            Err(f) => r matches Err(b) && stage_reports(b, f, key@),
        },
        scratch_restored(*old(scratch), *final(scratch)),
        r is Ok ==> peak_lifted(*old(scratch), *final(scratch), max_nat(unique_need::<&str>(facilities@.len()), unique_need::<&str>(spaces@.len()))),
{
    proof {
        reveal(parking_outcome);
    }
    validate_parking_facilities(usage, facilities, namespace, imports, scratch, key)?;
    validate_parking_spaces(usage, spaces, namespace, imports, scratch, key)
}

/// The parking outcome reads only the limits and the live bytes of the
/// scratch pass.
pub proof fn lemma_parking_outcome_restored(
    c: RoadEditingPreflightCounts,
    facilities: Seq<ParkingFacilityFields>,
    spaces: Seq<ParkingSpaceFields>,
    namespace: Seq<u8>,
    imports: Seq<&str>,
    a: PreflightScratch,
    b: PreflightScratch,
)
    requires
        scratch_restored(a, b),
    ensures
        parking_outcome(c, facilities, spaces, namespace, imports, a) == parking_outcome(
            c,
            facilities,
            spaces,
            namespace,
            imports,
            b,
        ),
{
    reveal(parking_outcome);
}

} // verus!
