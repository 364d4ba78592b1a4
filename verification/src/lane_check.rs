//! Field preflight of the lane tables of a verified source: authoring
//! lanes, lane groups, facility bands and canonical frames.

use vstd::prelude::*;
use vstd::string::StringSliceAdditionalSpecFns;

use crate::declaration::{facility_kind_category_spec, EntityKind, FacilityKindCategory};
use crate::diagnostic::{DiagnosticBundle, RoadEditingInputViolation};
use crate::limits::CompileLimits;
use crate::policy_check::single_string_limit;
use crate::preflight::{
    canvas_step, ensure_unique_by, ensure_unique_strings, fold_steps, has_duplicate, invalid_combination,
    lemma_fold_all, lemma_fold_extend, lemma_fold_stops, reference_step, scratch_restored, semantic_error,
    stage_reports, strs_repeat, token_step, unique_need, unique_step, validate_facility_kind_category,
    RoadEditingPreflightCounts, StageFailure,
};
use crate::scratch::{max_nat, peak_lifted, PreflightScratch};

verus! {

/// The direction of an authoring lane as the wire carries it.
#[derive(Clone, Copy, Debug, PartialEq, Eq, Structural)]
pub enum WireLaneDirection {
    Forward,
    Backward,
    Other(u8),
}

/// An authoring lane: its section, key, lane edge, direction, the verdict of
/// the width rules on its width profile, optional lane group, canvas
/// selection.
#[derive(Clone, Copy, Debug)]
pub struct AuthoringLaneFields<'a> {
    pub road_section: &'a str,
    pub authoring_lane_key: &'a str,
    pub lane_edge: &'a str,
    pub direction: WireLaneDirection,
    pub width_violation: Option<RoadEditingInputViolation>,
    pub lane_group: Option<&'a str>,
    pub canvas_selection: Option<&'a str>,
}

/// A lane group: its section, key, canvas selection.
#[derive(Clone, Copy, Debug)]
pub struct LaneGroupFields<'a> {
    pub road_section: &'a str,
    pub lane_group_key: &'a str,
    pub canvas_selection: Option<&'a str>,
}

/// A facility band: its corridor, key, facility kind, the verdict of the
/// width rules on its width profile, canvas selection.
#[derive(Clone, Copy, Debug)]
pub struct FacilityBandFields<'a> {
    pub road_corridor: &'a str,
    pub facility_band_key: &'a str,
    pub kind_id: &'a str,
    pub width_violation: Option<RoadEditingInputViolation>,
    pub canvas_selection: Option<&'a str>,
}

/// A canonical frame: its key and canvas selection.
#[derive(Clone, Copy, Debug)]
pub struct CanonicalFrameFields<'a> {
    pub canonical_frame_key: &'a str,
    pub canvas_selection: Option<&'a str>,
}

/// Checks and charges one authoring lane.
pub open spec fn authoring_lane_step(
    c: RoadEditingPreflightCounts,
    x: AuthoringLaneFields,
    namespace: Seq<u8>,
    imports: Seq<&str>,
    limit: u64,
) -> Result<RoadEditingPreflightCounts, StageFailure> {
    match token_step(
        c.with_declaration(EntityKind::AuthoringLane),
        x.authoring_lane_key.spec_bytes(),
        limit,
        "authoringLane.authoringLaneKey"@,
    ) {
        Err(f) => Err(f),
        Ok(c1) => match reference_step(c1, x.lane_edge.spec_bytes(), 1, true, namespace, imports, limit, "authoringLane.laneEdge"@) {
            Err(f) => Err(f),
            Ok(c2) => if x.direction is Other {
                Err(Err(("authoringLane.direction"@, RoadEditingInputViolation::InvalidCombination)))
            } else if x.width_violation is Some {
                Err(Err(("authoringLane.widthProfile"@, x.width_violation->Some_0)))
            } else {
                let c3 = match x.lane_group {
                    None => Ok(c2),
                    Some(g) => reference_step(c2, g.spec_bytes(), 3, true, namespace, imports, limit, "authoringLane.laneGroup"@),
                };
                match c3 {
                    Err(f) => Err(f),
                    Ok(c4) => match reference_step(
                        c4,
                        x.road_section.spec_bytes(),
                        2,
                        false,
                        namespace,
                        imports,
                        limit,
                        "authoringLane.roadSection"@,
                    ) {
                        Err(f) => Err(f),
                        Ok(c5) => canvas_step(c5, x.canvas_selection, limit),
                    },
                }
            },
        },
    }
}

/// Checks and charges one lane group.
pub open spec fn lane_group_step(
    c: RoadEditingPreflightCounts,
    x: LaneGroupFields,
    namespace: Seq<u8>,
    imports: Seq<&str>,
    limit: u64,
) -> Result<RoadEditingPreflightCounts, StageFailure> {
    match token_step(c.with_declaration(EntityKind::LaneGroup), x.lane_group_key.spec_bytes(), limit, "laneGroup.laneGroupKey"@) {
        Err(f) => Err(f),
        Ok(c1) => match reference_step(c1, x.road_section.spec_bytes(), 2, false, namespace, imports, limit, "laneGroup.roadSection"@) {
            Err(f) => Err(f),
            Ok(c2) => canvas_step(c2, x.canvas_selection, limit),
        },
    }
}

/// Checks and charges one facility band.
pub open spec fn facility_band_step(
    c: RoadEditingPreflightCounts,
    x: FacilityBandFields,
    namespace: Seq<u8>,
    imports: Seq<&str>,
    limit: u64,
) -> Result<RoadEditingPreflightCounts, StageFailure> {
    match token_step(
        c.with_declaration(EntityKind::FacilityBand),
        x.facility_band_key.spec_bytes(),
        limit,
        "facilityBand.facilityBandKey"@,
    ) {
        Err(f) => Err(f),
        Ok(c1) => match token_step(c1, x.kind_id.spec_bytes(), limit, "facilityBand.kindId"@) {
            Err(f) => Err(f),
            Ok(c2) => if facility_kind_category_spec(x.kind_id.spec_bytes()) != Some(FacilityKindCategory::NonTraversable) {
                Err(Err(("facilityBand.kindId"@, RoadEditingInputViolation::InvalidCombination)))
            } else if x.width_violation is Some {
                Err(Err(("facilityBand.widthProfile"@, x.width_violation->Some_0)))
            } else {
                match reference_step(
                    c2,
                    x.road_corridor.spec_bytes(),
                    1,
                    false,
                    namespace,
                    imports,
                    limit,
                    "facilityBand.roadCorridor"@,
                ) {
                    Err(f) => Err(f),
                    Ok(c3) => canvas_step(c3, x.canvas_selection, limit),
                }
            },
        },
    }
}

/// Checks and charges one canonical frame.
pub open spec fn canonical_frame_step(
    c: RoadEditingPreflightCounts,
    x: CanonicalFrameFields,
    namespace: Seq<u8>,
    imports: Seq<&str>,
    limit: u64,
) -> Result<RoadEditingPreflightCounts, StageFailure> {
    match token_step(
        c.with_declaration(EntityKind::CanonicalFrame),
        x.canonical_frame_key.spec_bytes(),
        limit,
        "canonicalFrame.canonicalFrameKey"@,
    ) {
        Err(f) => Err(f),
        Ok(c1) => canvas_step(c1, x.canvas_selection, limit),
    }
}

/// The `(section, key)` addresses of the authoring lanes.
pub open spec fn lane_addresses<'a>(xs: Seq<AuthoringLaneFields<'a>>) -> Seq<(&'a str, &'a str)> {
    xs.map_values(|x: AuthoringLaneFields<'a>| (x.road_section, x.authoring_lane_key))
}

/// The `(section, key)` addresses of the lane groups.
pub open spec fn group_addresses<'a>(xs: Seq<LaneGroupFields<'a>>) -> Seq<(&'a str, &'a str)> {
    xs.map_values(|x: LaneGroupFields<'a>| (x.road_section, x.lane_group_key))
}

/// The `(corridor, key)` addresses of the facility bands.
pub open spec fn band_addresses<'a>(xs: Seq<FacilityBandFields<'a>>) -> Seq<(&'a str, &'a str)> {
    xs.map_values(|x: FacilityBandFields<'a>| (x.road_corridor, x.facility_band_key))
}

/// The keys of the canonical frames.
pub open spec fn frame_keys<'a>(xs: Seq<CanonicalFrameFields<'a>>) -> Seq<&'a str> {
    xs.map_values(|x: CanonicalFrameFields<'a>| x.canonical_frame_key)
}

/// Distinct authoring lane addresses, then each lane in order.
#[verifier::opaque]
pub open spec fn authoring_lanes_outcome(
    c: RoadEditingPreflightCounts,
    xs: Seq<AuthoringLaneFields>,
    namespace: Seq<u8>,
    imports: Seq<&str>,
    scratch: PreflightScratch,
) -> Result<RoadEditingPreflightCounts, StageFailure> {
    let limit = single_string_limit(scratch.spec_limits());
    match unique_step::<(&str, &str)>(xs.len(), has_duplicate(lane_addresses(xs)), scratch, "authoringLanes.address"@) {
        Some(f) => Err(f),
        None => fold_steps(
            c,
            xs,
            |c: RoadEditingPreflightCounts, i: int, x: AuthoringLaneFields| authoring_lane_step(c, x, namespace, imports, limit),
        ),
    }
}

/// Distinct lane group addresses, then each group in order.
pub open spec fn lane_groups_outcome(
    c: RoadEditingPreflightCounts,
    xs: Seq<LaneGroupFields>,
    namespace: Seq<u8>,
    imports: Seq<&str>,
    scratch: PreflightScratch,
) -> Result<RoadEditingPreflightCounts, StageFailure> {
    let limit = single_string_limit(scratch.spec_limits());
    match unique_step::<(&str, &str)>(xs.len(), has_duplicate(group_addresses(xs)), scratch, "laneGroups.address"@) {
        Some(f) => Err(f),
        None => fold_steps(
            c,
            xs,
            |c: RoadEditingPreflightCounts, i: int, x: LaneGroupFields| lane_group_step(c, x, namespace, imports, limit),
        ),
    }
}

/// Distinct facility band addresses, then each band in order.
pub open spec fn facility_bands_outcome(
    c: RoadEditingPreflightCounts,
    xs: Seq<FacilityBandFields>,
    namespace: Seq<u8>,
    imports: Seq<&str>,
    scratch: PreflightScratch,
) -> Result<RoadEditingPreflightCounts, StageFailure> {
    let limit = single_string_limit(scratch.spec_limits());
    match unique_step::<(&str, &str)>(xs.len(), has_duplicate(band_addresses(xs)), scratch, "facilityBands.address"@) {
        Some(f) => Err(f),
        None => fold_steps(
            c,
            xs,
            |c: RoadEditingPreflightCounts, i: int, x: FacilityBandFields| facility_band_step(c, x, namespace, imports, limit),
        ),
    }
}

/// Distinct canonical frame keys, then each frame in order.
#[verifier::opaque]
pub open spec fn canonical_frames_outcome(
    c: RoadEditingPreflightCounts,
    xs: Seq<CanonicalFrameFields>,
    namespace: Seq<u8>,
    imports: Seq<&str>,
    scratch: PreflightScratch,
) -> Result<RoadEditingPreflightCounts, StageFailure> {
    let limit = single_string_limit(scratch.spec_limits());
    match unique_step::<&str>(xs.len(), strs_repeat(frame_keys(xs)), scratch, "canonicalFrames.canonicalFrameKey"@) {
        Some(f) => Err(f),
        None => fold_steps(
            c,
            xs,
            |c: RoadEditingPreflightCounts, i: int, x: CanonicalFrameFields| canonical_frame_step(c, x, namespace, imports, limit),
        ),
    }
}

/// The scratch need of the lane group and facility band stage: the index of
/// the group addresses or of the band addresses.
pub open spec fn groups_and_bands_need(groups: Seq<LaneGroupFields>, bands: Seq<FacilityBandFields>) -> nat {
    max_nat(unique_need::<(&str, &str)>(groups.len()), unique_need::<(&str, &str)>(bands.len()))
}

/// The outcome of the lane group and facility band stage: the groups, then
/// the bands.
#[verifier::opaque]
pub open spec fn groups_and_bands_outcome(
    c: RoadEditingPreflightCounts,
    groups: Seq<LaneGroupFields>,
    bands: Seq<FacilityBandFields>,
    namespace: Seq<u8>,
    imports: Seq<&str>,
    scratch: PreflightScratch,
) -> Result<RoadEditingPreflightCounts, StageFailure> {
    match lane_groups_outcome(c, groups, namespace, imports, scratch) {
        Err(f) => Err(f),
        Ok(c1) => facility_bands_outcome(c1, bands, namespace, imports, scratch),
    }
}

/// Checks and charges one authoring lane; see [`authoring_lane_step`].
pub fn check_authoring_lane(
    usage: &mut RoadEditingPreflightCounts,
    x: &AuthoringLaneFields,
    namespace: &str,
    imports: &[&str],
    limits: &CompileLimits,
    key: &str,
) -> (r: Result<(), DiagnosticBundle>)
    ensures
        match authoring_lane_step(*old(usage), *x, namespace.spec_bytes(), imports@, single_string_limit(*limits)) {
            Ok(c) => r is Ok && *final(usage) == c,
            Err(f) => r matches Err(b) && stage_reports(b, f, key@),
        },
{
    usage.charge_declaration(EntityKind::AuthoringLane);
    usage.charge_token(x.authoring_lane_key, "authoringLane.authoringLaneKey", limits, key)?;
    usage.charge_reference(x.lane_edge, 1, true, "authoringLane.laneEdge", namespace, imports, limits, key)?;
    if let WireLaneDirection::Other(_) = x.direction {
        return Err(invalid_combination("authoringLane.direction", key));
    }
    if let Some(v) = x.width_violation {
        return Err(semantic_error("authoringLane.widthProfile", v, key));
    }
    if let Some(group) = x.lane_group {
        usage.charge_reference(group, 3, true, "authoringLane.laneGroup", namespace, imports, limits, key)?;
    }
    usage.charge_reference(x.road_section, 2, false, "authoringLane.roadSection", namespace, imports, limits, key)?;
    usage.charge_canvas(x.canvas_selection, limits, key)
}

/// Checks and charges one lane group; see [`lane_group_step`].
pub fn check_lane_group(
    usage: &mut RoadEditingPreflightCounts,
    x: &LaneGroupFields,
    namespace: &str,
    imports: &[&str],
    limits: &CompileLimits,
    key: &str,
) -> (r: Result<(), DiagnosticBundle>)
    ensures
        match lane_group_step(*old(usage), *x, namespace.spec_bytes(), imports@, single_string_limit(*limits)) {
            Ok(c) => r is Ok && *final(usage) == c,
            Err(f) => r matches Err(b) && stage_reports(b, f, key@),
        },
{
    usage.charge_declaration(EntityKind::LaneGroup);
    usage.charge_token(x.lane_group_key, "laneGroup.laneGroupKey", limits, key)?;
    usage.charge_reference(x.road_section, 2, false, "laneGroup.roadSection", namespace, imports, limits, key)?;
    usage.charge_canvas(x.canvas_selection, limits, key)
}

/// Checks and charges one facility band; see [`facility_band_step`].
pub fn check_facility_band(
    usage: &mut RoadEditingPreflightCounts,
    x: &FacilityBandFields,
    namespace: &str,
    imports: &[&str],
    limits: &CompileLimits,
    key: &str,
) -> (r: Result<(), DiagnosticBundle>)
    ensures
        match facility_band_step(*old(usage), *x, namespace.spec_bytes(), imports@, single_string_limit(*limits)) {
            Ok(c) => r is Ok && *final(usage) == c,
            Err(f) => r matches Err(b) && stage_reports(b, f, key@),
        },
{
    usage.charge_declaration(EntityKind::FacilityBand);
    usage.charge_token(x.facility_band_key, "facilityBand.facilityBandKey", limits, key)?;
    usage.charge_token(x.kind_id, "facilityBand.kindId", limits, key)?;
    validate_facility_kind_category(x.kind_id, FacilityKindCategory::NonTraversable, "facilityBand.kindId", key)?;
    if let Some(v) = x.width_violation {
        return Err(semantic_error("facilityBand.widthProfile", v, key));
    }
    usage.charge_reference(x.road_corridor, 1, false, "facilityBand.roadCorridor", namespace, imports, limits, key)?;
    usage.charge_canvas(x.canvas_selection, limits, key)
}

/// Checks and charges one canonical frame; see [`canonical_frame_step`].
pub fn check_canonical_frame(
    usage: &mut RoadEditingPreflightCounts,
    x: &CanonicalFrameFields,
    namespace: &str,
    imports: &[&str],
    limits: &CompileLimits,
    key: &str,
) -> (r: Result<(), DiagnosticBundle>)
    ensures
        match canonical_frame_step(*old(usage), *x, namespace.spec_bytes(), imports@, single_string_limit(*limits)) {
            Ok(c) => r is Ok && *final(usage) == c,
            Err(f) => r matches Err(b) && stage_reports(b, f, key@),
        },
{
    usage.charge_declaration(EntityKind::CanonicalFrame);
    usage.charge_token(x.canonical_frame_key, "canonicalFrame.canonicalFrameKey", limits, key)?;
    usage.charge_canvas(x.canvas_selection, limits, key)
}

/// Checks and charges the authoring lanes; see [`authoring_lanes_outcome`].
pub fn validate_authoring_lanes(
    usage: &mut RoadEditingPreflightCounts,
    xs: &[AuthoringLaneFields],
    namespace: &str,
    imports: &[&str],
    scratch: &mut PreflightScratch,
    key: &str,
) -> (r: Result<(), DiagnosticBundle>)
    ensures
        match authoring_lanes_outcome(*old(usage), xs@, namespace.spec_bytes(), imports@, *old(scratch)) {
            Ok(c) => r is Ok && *final(usage) == c,
            Err(f) => r matches Err(b) && stage_reports(b, f, key@),
        },
        scratch_restored(*old(scratch), *final(scratch)),
        r is Ok ==> peak_lifted(*old(scratch), *final(scratch), unique_need::<(&str, &str)>(xs@.len())),
{
    proof {
        reveal(authoring_lanes_outcome);
    }
    let ghost s0 = *scratch;
    let limits = *scratch.limits();
    let mut keys: Vec<(&str, &str)> = Vec::new();
    let mut j: usize = 0;
    while j < xs.len()
        invariant
            j <= xs@.len(),
            keys@ == lane_addresses(xs@.take(j as int)),
        decreases xs@.len() - j,
    {
        keys.push((xs[j].road_section, xs[j].authoring_lane_key));
        proof {
            assert(lane_addresses(xs@.take(j + 1)) =~= lane_addresses(xs@.take(j as int)).push((xs@[j as int].road_section, xs@[j as int].authoring_lane_key)));
        }
        j = j + 1;
    }
    proof {
        assert(xs@.take(j as int) =~= xs@);
    }
    ensure_unique_by::<(&str, &str)>(keys.as_slice(), "authoringLanes.address", key, scratch)?;
    let ghost limit = single_string_limit(limits);
    let ghost step = |c: RoadEditingPreflightCounts, i: int, x: AuthoringLaneFields|
        authoring_lane_step(c, x, namespace.spec_bytes(), imports@, limit);
    let ghost start = *usage;
    let mut i: usize = 0;
    while i < xs.len()
        invariant
            i <= xs@.len(),
            s0 == *old(scratch),
            start == *old(usage),
            limits == s0.spec_limits(),
            limit == single_string_limit(limits),
            scratch_restored(s0, *scratch),
            authoring_lanes_outcome(start, xs@, namespace.spec_bytes(), imports@, s0) == fold_steps(start, xs@, step),
            step == (|c: RoadEditingPreflightCounts, i: int, x: AuthoringLaneFields|
                authoring_lane_step(c, x, namespace.spec_bytes(), imports@, limit)),
            fold_steps(start, xs@.take(i as int), step) == Ok::<RoadEditingPreflightCounts, StageFailure>(*usage),
        decreases xs@.len() - i,
    {
        proof {
            lemma_fold_extend(start, xs@, step, i as int);
        }
        match check_authoring_lane(usage, &xs[i], namespace, imports, &limits, key) {
            Ok(()) => {},
            Err(e) => {
                proof {
                    lemma_fold_stops(start, xs@, step, i + 1);
                }
                return Err(e);
            },
        }
        i = i + 1;
    }
    proof {
        lemma_fold_all(start, xs@, step);
    }
    Ok(())
}

/// Checks and charges the lane groups; see [`lane_groups_outcome`].
pub fn validate_lane_groups(
    usage: &mut RoadEditingPreflightCounts,
    xs: &[LaneGroupFields],
    namespace: &str,
    imports: &[&str],
    scratch: &mut PreflightScratch,
    key: &str,
) -> (r: Result<(), DiagnosticBundle>)
    ensures
        match lane_groups_outcome(*old(usage), xs@, namespace.spec_bytes(), imports@, *old(scratch)) {
            Ok(c) => r is Ok && *final(usage) == c,
            Err(f) => r matches Err(b) && stage_reports(b, f, key@),
        },
        scratch_restored(*old(scratch), *final(scratch)),
        r is Ok ==> peak_lifted(*old(scratch), *final(scratch), unique_need::<(&str, &str)>(xs@.len())),
{
    let ghost s0 = *scratch;
    let limits = *scratch.limits();
    let mut keys: Vec<(&str, &str)> = Vec::new();
    let mut j: usize = 0;
    while j < xs.len()
        invariant
            j <= xs@.len(),
            keys@ == group_addresses(xs@.take(j as int)),
        decreases xs@.len() - j,
    {
        keys.push((xs[j].road_section, xs[j].lane_group_key));
        proof {
            assert(group_addresses(xs@.take(j + 1)) =~= group_addresses(xs@.take(j as int)).push((xs@[j as int].road_section, xs@[j as int].lane_group_key)));
        }
        j = j + 1;
    }
    proof {
        assert(xs@.take(j as int) =~= xs@);
    }
    ensure_unique_by::<(&str, &str)>(keys.as_slice(), "laneGroups.address", key, scratch)?;
    let ghost limit = single_string_limit(limits);
    let ghost step = |c: RoadEditingPreflightCounts, i: int, x: LaneGroupFields|
        lane_group_step(c, x, namespace.spec_bytes(), imports@, limit);
    let ghost start = *usage;
    let mut i: usize = 0;
    while i < xs.len()
        invariant
            i <= xs@.len(),
            s0 == *old(scratch),
            start == *old(usage),
            limits == s0.spec_limits(),
            limit == single_string_limit(limits),
            scratch_restored(s0, *scratch),
            lane_groups_outcome(start, xs@, namespace.spec_bytes(), imports@, s0) == fold_steps(start, xs@, step),
            step == (|c: RoadEditingPreflightCounts, i: int, x: LaneGroupFields|
                lane_group_step(c, x, namespace.spec_bytes(), imports@, limit)),
            fold_steps(start, xs@.take(i as int), step) == Ok::<RoadEditingPreflightCounts, StageFailure>(*usage),
        decreases xs@.len() - i,
    {
        proof {
            lemma_fold_extend(start, xs@, step, i as int);
        }
        match check_lane_group(usage, &xs[i], namespace, imports, &limits, key) {
            Ok(()) => {},
            Err(e) => {
                proof {
                    lemma_fold_stops(start, xs@, step, i + 1);
                }
                return Err(e);
            },
        }
        i = i + 1;
    }
    proof {
        lemma_fold_all(start, xs@, step);
    }
    Ok(())
}

/// Checks and charges the facility bands; see [`facility_bands_outcome`].
pub fn validate_facility_bands(
    usage: &mut RoadEditingPreflightCounts,
    xs: &[FacilityBandFields],
    namespace: &str,
    imports: &[&str],
    scratch: &mut PreflightScratch,
    key: &str,
) -> (r: Result<(), DiagnosticBundle>)
    ensures
        match facility_bands_outcome(*old(usage), xs@, namespace.spec_bytes(), imports@, *old(scratch)) {
            Ok(c) => r is Ok && *final(usage) == c,
            Err(f) => r matches Err(b) && stage_reports(b, f, key@),
        },
        scratch_restored(*old(scratch), *final(scratch)),
        r is Ok ==> peak_lifted(*old(scratch), *final(scratch), unique_need::<(&str, &str)>(xs@.len())),
{
    let ghost s0 = *scratch;
    let limits = *scratch.limits();
    let mut keys: Vec<(&str, &str)> = Vec::new();
    let mut j: usize = 0;
    while j < xs.len()
        invariant
            j <= xs@.len(),
            keys@ == band_addresses(xs@.take(j as int)),
        decreases xs@.len() - j,
    {
        keys.push((xs[j].road_corridor, xs[j].facility_band_key));
        proof {
            assert(band_addresses(xs@.take(j + 1)) =~= band_addresses(xs@.take(j as int)).push((xs@[j as int].road_corridor, xs@[j as int].facility_band_key)));
        }
        j = j + 1;
    }
    proof {
        assert(xs@.take(j as int) =~= xs@);
    }
    ensure_unique_by::<(&str, &str)>(keys.as_slice(), "facilityBands.address", key, scratch)?;
    let ghost limit = single_string_limit(limits);
    let ghost step = |c: RoadEditingPreflightCounts, i: int, x: FacilityBandFields|
        facility_band_step(c, x, namespace.spec_bytes(), imports@, limit);
    let ghost start = *usage;
    let mut i: usize = 0;
    while i < xs.len()
        invariant
            i <= xs@.len(),
            s0 == *old(scratch),
            start == *old(usage),
            limits == s0.spec_limits(),
            limit == single_string_limit(limits),
            scratch_restored(s0, *scratch),
            facility_bands_outcome(start, xs@, namespace.spec_bytes(), imports@, s0) == fold_steps(start, xs@, step),
            step == (|c: RoadEditingPreflightCounts, i: int, x: FacilityBandFields|
                facility_band_step(c, x, namespace.spec_bytes(), imports@, limit)),
            fold_steps(start, xs@.take(i as int), step) == Ok::<RoadEditingPreflightCounts, StageFailure>(*usage),
        decreases xs@.len() - i,
    {
        proof {
            lemma_fold_extend(start, xs@, step, i as int);
        }
        match check_facility_band(usage, &xs[i], namespace, imports, &limits, key) {
            Ok(()) => {},
            Err(e) => {
                proof {
                    lemma_fold_stops(start, xs@, step, i + 1);
                }
                return Err(e);
            },
        }
        i = i + 1;
    }
    proof {
        lemma_fold_all(start, xs@, step);
    }
    Ok(())
}

/// Checks and charges the canonical frames; see [`canonical_frames_outcome`].
pub fn validate_routes_and_frames(
    usage: &mut RoadEditingPreflightCounts,
    xs: &[CanonicalFrameFields],
    namespace: &str,
    imports: &[&str],
    scratch: &mut PreflightScratch,
    key: &str,
) -> (r: Result<(), DiagnosticBundle>)
    ensures
        match canonical_frames_outcome(*old(usage), xs@, namespace.spec_bytes(), imports@, *old(scratch)) {
            Ok(c) => r is Ok && *final(usage) == c,
            Err(f) => r matches Err(b) && stage_reports(b, f, key@),
        },
        scratch_restored(*old(scratch), *final(scratch)),
        r is Ok ==> peak_lifted(*old(scratch), *final(scratch), unique_need::<&str>(xs@.len())),
{
    proof {
        reveal(canonical_frames_outcome);
    }
    let ghost s0 = *scratch;
    let limits = *scratch.limits();
    let mut keys: Vec<&str> = Vec::new();
    let mut j: usize = 0;
    while j < xs.len()
        invariant
            j <= xs@.len(),
            keys@ == frame_keys(xs@.take(j as int)),
        decreases xs@.len() - j,
    {
        keys.push(xs[j].canonical_frame_key);
        proof {
            assert(frame_keys(xs@.take(j + 1)) =~= frame_keys(xs@.take(j as int)).push(xs@[j as int].canonical_frame_key));
        }
        j = j + 1;
    }
    proof {
        assert(xs@.take(j as int) =~= xs@);
    }
    ensure_unique_strings(keys.as_slice(), "canonicalFrames.canonicalFrameKey", key, scratch)?;
    let ghost limit = single_string_limit(limits);
    let ghost step = |c: RoadEditingPreflightCounts, i: int, x: CanonicalFrameFields|
        canonical_frame_step(c, x, namespace.spec_bytes(), imports@, limit);
    let ghost start = *usage;
    let mut i: usize = 0;
    while i < xs.len()
        invariant
            i <= xs@.len(),
            s0 == *old(scratch),
            start == *old(usage),
            limits == s0.spec_limits(),
            limit == single_string_limit(limits),
            scratch_restored(s0, *scratch),
            canonical_frames_outcome(start, xs@, namespace.spec_bytes(), imports@, s0) == fold_steps(start, xs@, step),
            step == (|c: RoadEditingPreflightCounts, i: int, x: CanonicalFrameFields|
                canonical_frame_step(c, x, namespace.spec_bytes(), imports@, limit)),
            fold_steps(start, xs@.take(i as int), step) == Ok::<RoadEditingPreflightCounts, StageFailure>(*usage),
        decreases xs@.len() - i,
    {
        proof {
            lemma_fold_extend(start, xs@, step, i as int);
        }
        match check_canonical_frame(usage, &xs[i], namespace, imports, &limits, key) {
            Ok(()) => {},
            Err(e) => {
                proof {
                    lemma_fold_stops(start, xs@, step, i + 1);
                }
                return Err(e);
            },
        }
        i = i + 1;
    }
    proof {
        lemma_fold_all(start, xs@, step);
    }
    Ok(())
}

/// Checks and charges the lane groups, then the facility bands; see
/// [`groups_and_bands_outcome`].
pub fn validate_lane_groups_and_facility_bands(
    usage: &mut RoadEditingPreflightCounts,
    groups: &[LaneGroupFields],
    bands: &[FacilityBandFields],
    namespace: &str,
    imports: &[&str],
    scratch: &mut PreflightScratch,
    key: &str,
) -> (r: Result<(), DiagnosticBundle>)
    ensures
        match groups_and_bands_outcome(*old(usage), groups@, bands@, namespace.spec_bytes(), imports@, *old(scratch)) {
            Ok(c) => r is Ok && *final(usage) == c,
            Err(f) => r matches Err(b) && stage_reports(b, f, key@),
        },
        scratch_restored(*old(scratch), *final(scratch)),
        r is Ok ==> peak_lifted(*old(scratch), *final(scratch), groups_and_bands_need(groups@, bands@)),
{
    proof {
        reveal(groups_and_bands_outcome);
    }
    validate_lane_groups(usage, groups, namespace, imports, scratch, key)?;
    validate_facility_bands(usage, bands, namespace, imports, scratch, key)
}

/// The lane table outcomes read only the limits and the live bytes of the
/// scratch pass.
pub proof fn lemma_lane_outcomes_restored(
    c: RoadEditingPreflightCounts,
    lanes: Seq<AuthoringLaneFields>,
    groups: Seq<LaneGroupFields>,
    bands: Seq<FacilityBandFields>,
    frames: Seq<CanonicalFrameFields>,
    namespace: Seq<u8>,
    imports: Seq<&str>,
    a: PreflightScratch,
    b: PreflightScratch,
)
    requires
        scratch_restored(a, b),
    ensures
        authoring_lanes_outcome(c, lanes, namespace, imports, a) == authoring_lanes_outcome(c, lanes, namespace, imports, b),
        groups_and_bands_outcome(c, groups, bands, namespace, imports, a) == groups_and_bands_outcome(
            c,
            groups,
            bands,
            namespace,
            imports,
            b,
        ),
        canonical_frames_outcome(c, frames, namespace, imports, a) == canonical_frames_outcome(c, frames, namespace, imports, b),
{
    reveal(authoring_lanes_outcome);
    reveal(groups_and_bands_outcome);
    reveal(canonical_frames_outcome);
}

} // verus!
