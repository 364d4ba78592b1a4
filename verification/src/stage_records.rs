//! The typed records that each preflight stage charges when it succeeds.

use vstd::prelude::*;
use vstd::string::StringSliceAdditionalSpecFns;

use crate::accounting::{
    adds, lemma_area_items_records, lemma_corridor_records, lemma_geometry_items_records, lemma_policy_records,
    lemma_section_items_records, lemma_facility_records, lemma_fold_records, lemma_junction_items_records, lemma_stream_records, lemma_phase_records, lemma_signal_items_records, lemma_sum_by_const,
    movement_records,
};
use crate::corridor_check::{corridors_outcome, RoadCorridorFields};
use crate::geometry_check::{alignments_outcome, lane_edges_outcome, LaneEdgeFields, RoadAlignmentFields};
use crate::header_check::{charge_imports, header_outcome, ModuleHeaderLinks};
use crate::lane_check::{authoring_lanes_outcome, AuthoringLaneFields};
use crate::limits::CompileLimits;
use crate::policy_check::{policies_outcome, RightOfWayPolicyFields};
use crate::section_check::{sections_outcome, RoadSectionFields};
use crate::access_check::{access_outcome, AccessRuleFields, ParticipantClassFields, VehicleProfileFields};
use crate::conflict_check::{conflicts_outcome, ConflictZoneFields, ConflictZoneRegionFields, ParticipantStreamFields};
use crate::lane_check::{canonical_frames_outcome, groups_and_bands_outcome, CanonicalFrameFields, FacilityBandFields, LaneGroupFields};
use crate::links::{SignalControllerLinks, SignalPhaseLinks};
use crate::parking_check::{parking_outcome, ParkingFacilityFields, ParkingSpaceFields};
use crate::signal_check::{controllers_and_phases_outcome, stop_lines_and_groups_outcome, SignalGroupLinks, StopLineLinks};
use crate::junction_check::{
    junctions_outcome, maneuver_gates_outcome, maneuver_paths_outcome, movements_outcome, waiting_zones_outcome, JunctionLinks,
    ManeuverGateLinks, ManeuverPathLinks, MovementFields, WaitingZoneLinks,
};
use crate::preflight::RoadEditingPreflightCounts;
use crate::source_preflight::{area_tables_outcome, junction_tables_outcome, road_tables_outcome, RoadEditingSourceFields};
use crate::scratch::PreflightScratch;
use crate::source_verify::{access_rule_tables, alignment_tables, corridor_tables, lane_edge_tables, policy_tables, direction_count, facility_tables, lemma_sum_by_nonneg, phase_tables, stream_tables, sum_by};

verus! {

/// The junctions stage adds one record per junction.
pub proof fn lemma_junctions_records(
    c: RoadEditingPreflightCounts,
    xs: Seq<JunctionLinks>,
    ns: Seq<u8>,
    imports: Seq<&str>,
    scratch: PreflightScratch,
)
    requires
        c.typed_ast_record_count + xs.len() <= u64::MAX,
    ensures
        adds(junctions_outcome(c, xs, ns, imports, scratch), c, xs.len() as int),
{
    reveal(junctions_outcome);
    let step = |c: RoadEditingPreflightCounts, i: int, x: JunctionLinks| crate::junction_check::junction_step(c, x, ns, imports, scratch);
    let one = |x: JunctionLinks| 1int;
    lemma_sum_by_const(xs, 1);
    assert forall|cc: RoadEditingPreflightCounts, i: int, x: JunctionLinks|
        cc.typed_ast_record_count + one(x) <= u64::MAX implies adds(#[trigger] step(cc, i, x), cc, one(x)) by {
        lemma_junction_items_records(cc, ns, imports, scratch, 0);
    }
    lemma_fold_records(c, xs, step, one);
}

/// The records of the movements: one each, and one more per turn
/// direction.
pub proof fn lemma_movement_records_sum(ms: Seq<MovementFields>)
    ensures
        sum_by(ms, |m: MovementFields| movement_records(m)) == ms.len() + direction_count(ms),
    decreases ms.len(),
{
    if ms.len() > 0 {
        lemma_movement_records_sum(ms.drop_last());
    }
}

/// The movements stage adds one record per movement and one per turn
/// direction.
pub proof fn lemma_movements_records(
    c: RoadEditingPreflightCounts,
    xs: Seq<MovementFields>,
    ns: Seq<u8>,
    imports: Seq<&str>,
    scratch: PreflightScratch,
)
    requires
        c.typed_ast_record_count + xs.len() + direction_count(xs) <= u64::MAX,
    ensures
        adds(movements_outcome(c, xs, ns, imports, scratch), c, xs.len() + direction_count(xs)),
{
    reveal(movements_outcome);
    let limit = crate::policy_check::single_string_limit(scratch.spec_limits());
    let step = |c: RoadEditingPreflightCounts, i: int, x: MovementFields| crate::junction_check::movement_step(c, x, ns, imports, limit);
    let f = |m: MovementFields| movement_records(m);
    lemma_movement_records_sum(xs);
    assert forall|cc: RoadEditingPreflightCounts, i: int, x: MovementFields|
        cc.typed_ast_record_count + f(x) <= u64::MAX implies adds(#[trigger] step(cc, i, x), cc, f(x)) by {
        lemma_junction_items_records(cc, ns, imports, scratch, limit);
    }
    assert forall|x: MovementFields| #[trigger] f(x) >= 0 by {}
    lemma_fold_records(c, xs, step, f);
}

/// The maneuver paths stage adds one record per path.
pub proof fn lemma_maneuver_paths_records(
    c: RoadEditingPreflightCounts,
    xs: Seq<ManeuverPathLinks>,
    ns: Seq<u8>,
    imports: Seq<&str>,
    scratch: PreflightScratch,
)
    requires
        c.typed_ast_record_count + xs.len() <= u64::MAX,
    ensures
        adds(maneuver_paths_outcome(c, xs, ns, imports, scratch), c, xs.len() as int),
{
    reveal(maneuver_paths_outcome);
    let step = |c: RoadEditingPreflightCounts, i: int, x: ManeuverPathLinks|
        crate::junction_check::maneuver_path_step(c, x, ns, imports, scratch);
    let one = |x: ManeuverPathLinks| 1int;
    lemma_sum_by_const(xs, 1);
    assert forall|cc: RoadEditingPreflightCounts, i: int, x: ManeuverPathLinks|
        cc.typed_ast_record_count + one(x) <= u64::MAX implies adds(#[trigger] step(cc, i, x), cc, one(x)) by {
        lemma_junction_items_records(cc, ns, imports, scratch, 0);
    }
    lemma_fold_records(c, xs, step, one);
}

/// The maneuver gates stage adds one record per gate.
pub proof fn lemma_maneuver_gates_records(
    c: RoadEditingPreflightCounts,
    xs: Seq<ManeuverGateLinks>,
    ns: Seq<u8>,
    imports: Seq<&str>,
    scratch: PreflightScratch,
)
    requires
        c.typed_ast_record_count + xs.len() <= u64::MAX,
    ensures
        adds(maneuver_gates_outcome(c, xs, ns, imports, scratch), c, xs.len() as int),
{
    reveal(maneuver_gates_outcome);
    let limit = crate::signal_check::string_limit(scratch);
    let step = |c: RoadEditingPreflightCounts, i: int, x: ManeuverGateLinks|
        crate::junction_check::maneuver_gate_step(c, x, ns, imports, limit);
    let one = |x: ManeuverGateLinks| 1int;
    lemma_sum_by_const(xs, 1);
    assert forall|cc: RoadEditingPreflightCounts, i: int, x: ManeuverGateLinks|
        cc.typed_ast_record_count + one(x) <= u64::MAX implies adds(#[trigger] step(cc, i, x), cc, one(x)) by {
        lemma_junction_items_records(cc, ns, imports, scratch, limit);
    }
    lemma_fold_records(c, xs, step, one);
}

/// The waiting zones stage adds one record per zone.
pub proof fn lemma_waiting_zones_records(
    c: RoadEditingPreflightCounts,
    xs: Seq<WaitingZoneLinks>,
    ns: Seq<u8>,
    imports: Seq<&str>,
    scratch: PreflightScratch,
)
    requires
        c.typed_ast_record_count + xs.len() <= u64::MAX,
    ensures
        adds(waiting_zones_outcome(c, xs, ns, imports, scratch), c, xs.len() as int),
{
    reveal(waiting_zones_outcome);
    let limit = crate::signal_check::string_limit(scratch);
    let step = |c: RoadEditingPreflightCounts, i: int, x: WaitingZoneLinks|
        crate::junction_check::waiting_zone_step(c, x, ns, imports, limit);
    let one = |x: WaitingZoneLinks| 1int;
    lemma_sum_by_const(xs, 1);
    assert forall|cc: RoadEditingPreflightCounts, i: int, x: WaitingZoneLinks|
        cc.typed_ast_record_count + one(x) <= u64::MAX implies adds(#[trigger] step(cc, i, x), cc, one(x)) by {
        lemma_junction_items_records(cc, ns, imports, scratch, limit);
    }
    lemma_fold_records(c, xs, step, one);
}

/// The stop line and signal group stage adds one record per stop line and
/// per group.
pub proof fn lemma_stop_lines_and_groups_records(
    c: RoadEditingPreflightCounts,
    lines: Seq<StopLineLinks>,
    groups: Seq<SignalGroupLinks>,
    ns: Seq<u8>,
    imports: Seq<&str>,
    scratch: PreflightScratch,
)
    requires
        c.typed_ast_record_count + lines.len() + groups.len() <= u64::MAX,
    ensures
        adds(stop_lines_and_groups_outcome(c, lines, groups, ns, imports, scratch), c, (lines.len() + groups.len()) as int),
{
    reveal(stop_lines_and_groups_outcome);
    let limit = crate::signal_check::string_limit(scratch);
    let ls = |c: RoadEditingPreflightCounts, i: int, s: StopLineLinks| crate::signal_check::stop_line_step(c, s, ns, imports, limit);
    let gs = |c: RoadEditingPreflightCounts, i: int, g: SignalGroupLinks| crate::signal_check::signal_group_step(c, g, limit);
    let one_l = |x: StopLineLinks| 1int;
    let one_g = |x: SignalGroupLinks| 1int;
    lemma_sum_by_const(lines, 1);
    lemma_sum_by_const(groups, 1);
    assert forall|cc: RoadEditingPreflightCounts, i: int, x: StopLineLinks|
        cc.typed_ast_record_count + one_l(x) <= u64::MAX implies adds(#[trigger] ls(cc, i, x), cc, one_l(x)) by {
        lemma_signal_items_records(cc, ns, imports, scratch, limit);
    }
    assert forall|cc: RoadEditingPreflightCounts, i: int, x: SignalGroupLinks|
        cc.typed_ast_record_count + one_g(x) <= u64::MAX implies adds(#[trigger] gs(cc, i, x), cc, one_g(x)) by {
        lemma_signal_items_records(cc, ns, imports, scratch, limit);
    }
    lemma_fold_records(c, lines, ls, one_l);
    if let Ok(c1) = crate::preflight::fold_steps(c, lines, ls) {
        lemma_fold_records(c1, groups, gs, one_g);
    }
}

/// The controller and phase stage adds one record per controller and the
/// tables of each phase.
pub proof fn lemma_controllers_and_phases_records(
    c: RoadEditingPreflightCounts,
    controllers: Seq<SignalControllerLinks>,
    phases: Seq<SignalPhaseLinks>,
    ns: Seq<u8>,
    imports: Seq<&str>,
    scratch: PreflightScratch,
)
    requires
        c.typed_ast_record_count + controllers.len() + sum_by(phases, |p: SignalPhaseLinks| phase_tables(p)) <= u64::MAX,
    ensures
        adds(
            controllers_and_phases_outcome(c, controllers, phases, ns, imports, scratch),
            c,
            controllers.len() + sum_by(phases, |p: SignalPhaseLinks| phase_tables(p)),
        ),
{
    reveal(controllers_and_phases_outcome);
    let cs = |c: RoadEditingPreflightCounts, i: int, x: SignalControllerLinks| crate::signal_check::controller_step(c, x, ns, imports, scratch);
    let ps = |c: RoadEditingPreflightCounts, i: int, x: SignalPhaseLinks| crate::signal_check::phase_step(c, x, ns, imports, scratch);
    let one = |x: SignalControllerLinks| 1int;
    let f = |p: SignalPhaseLinks| phase_tables(p);
    lemma_sum_by_const(controllers, 1);
    assert forall|x: SignalPhaseLinks| #[trigger] f(x) >= 0 by {}
    lemma_sum_by_nonneg(phases, f);
    assert forall|cc: RoadEditingPreflightCounts, i: int, x: SignalControllerLinks|
        cc.typed_ast_record_count + one(x) <= u64::MAX implies adds(#[trigger] cs(cc, i, x), cc, one(x)) by {
        lemma_signal_items_records(cc, ns, imports, scratch, 0);
    }
    assert forall|cc: RoadEditingPreflightCounts, i: int, x: SignalPhaseLinks|
        cc.typed_ast_record_count + f(x) <= u64::MAX implies adds(#[trigger] ps(cc, i, x), cc, f(x)) by {
        lemma_phase_records(cc, x, ns, imports, scratch);
    }
    lemma_fold_records(c, controllers, cs, one);
    if let Ok(c1) = crate::preflight::fold_steps(c, controllers, cs) {
        lemma_fold_records(c1, phases, ps, f);
    }
}

/// The parking stage adds the tables of each facility and four records per
/// space.
pub proof fn lemma_parking_records(
    c: RoadEditingPreflightCounts,
    facilities: Seq<ParkingFacilityFields>,
    spaces: Seq<ParkingSpaceFields>,
    ns: Seq<u8>,
    imports: Seq<&str>,
    scratch: PreflightScratch,
)
    requires
        c.typed_ast_record_count + sum_by(facilities, |f: ParkingFacilityFields| facility_tables(f)) + 4 * spaces.len() <= u64::MAX,
    ensures
        adds(
            parking_outcome(c, facilities, spaces, ns, imports, scratch),
            c,
            sum_by(facilities, |f: ParkingFacilityFields| facility_tables(f)) + 4 * spaces.len(),
        ),
{
    reveal(parking_outcome);
    let limit = crate::policy_check::single_string_limit(scratch.spec_limits());
    let fs = |c: RoadEditingPreflightCounts, i: int, x: ParkingFacilityFields| crate::parking_check::facility_step(c, x, ns, imports, limit);
    let ss = |c: RoadEditingPreflightCounts, i: int, x: ParkingSpaceFields| crate::parking_check::space_step(c, x, ns, imports, limit);
    let f = |x: ParkingFacilityFields| facility_tables(x);
    let four = |x: ParkingSpaceFields| 4int;
    assert forall|x: ParkingFacilityFields| #[trigger] f(x) >= 0 by {}
    lemma_sum_by_nonneg(facilities, f);
    lemma_sum_by_const(spaces, 4);
    assert forall|cc: RoadEditingPreflightCounts, i: int, x: ParkingFacilityFields|
        cc.typed_ast_record_count + f(x) <= u64::MAX implies adds(#[trigger] fs(cc, i, x), cc, f(x)) by {
        lemma_facility_records(cc, x, ns, imports, limit);
    }
    assert forall|cc: RoadEditingPreflightCounts, i: int, x: ParkingSpaceFields|
        cc.typed_ast_record_count + four(x) <= u64::MAX implies adds(#[trigger] ss(cc, i, x), cc, four(x)) by {
        lemma_area_items_records(cc, ns, imports, scratch, limit);
    }
    reveal(crate::parking_check::facilities_outcome);
    reveal(crate::parking_check::spaces_outcome);
    lemma_fold_records(c, facilities, fs, f);
    if let Ok(c1) = crate::parking_check::facilities_outcome(c, facilities, ns, imports, scratch) {
        lemma_fold_records(c1, spaces, ss, four);
    }
}

/// The lane group and facility band stage adds one record per group and
/// per band.
pub proof fn lemma_groups_and_bands_records(
    c: RoadEditingPreflightCounts,
    groups: Seq<LaneGroupFields>,
    bands: Seq<FacilityBandFields>,
    ns: Seq<u8>,
    imports: Seq<&str>,
    scratch: PreflightScratch,
)
    requires
        c.typed_ast_record_count + groups.len() + bands.len() <= u64::MAX,
    ensures
        adds(groups_and_bands_outcome(c, groups, bands, ns, imports, scratch), c, (groups.len() + bands.len()) as int),
{
    reveal(groups_and_bands_outcome);
    let limit = crate::policy_check::single_string_limit(scratch.spec_limits());
    let gs = |c: RoadEditingPreflightCounts, i: int, x: LaneGroupFields| crate::lane_check::lane_group_step(c, x, ns, imports, limit);
    let bs = |c: RoadEditingPreflightCounts, i: int, x: FacilityBandFields| crate::lane_check::facility_band_step(c, x, ns, imports, limit);
    let one_g = |x: LaneGroupFields| 1int;
    let one_b = |x: FacilityBandFields| 1int;
    lemma_sum_by_const(groups, 1);
    lemma_sum_by_const(bands, 1);
    assert forall|cc: RoadEditingPreflightCounts, i: int, x: LaneGroupFields|
        cc.typed_ast_record_count + one_g(x) <= u64::MAX implies adds(#[trigger] gs(cc, i, x), cc, one_g(x)) by {
        lemma_area_items_records(cc, ns, imports, scratch, limit);
    }
    assert forall|cc: RoadEditingPreflightCounts, i: int, x: FacilityBandFields|
        cc.typed_ast_record_count + one_b(x) <= u64::MAX implies adds(#[trigger] bs(cc, i, x), cc, one_b(x)) by {
        lemma_area_items_records(cc, ns, imports, scratch, limit);
    }
    lemma_fold_records(c, groups, gs, one_g);
    if let Ok(c1) = crate::lane_check::lane_groups_outcome(c, groups, ns, imports, scratch) {
        lemma_fold_records(c1, bands, bs, one_b);
    }
}

/// The access stage adds one record per class, the tables of each rule and
/// two records per vehicle profile.
pub proof fn lemma_access_records(
    c: RoadEditingPreflightCounts,
    classes: Seq<ParticipantClassFields>,
    rules: Seq<AccessRuleFields>,
    profiles: Seq<VehicleProfileFields>,
    ns: Seq<u8>,
    imports: Seq<&str>,
    scratch: PreflightScratch,
)
    requires
        c.typed_ast_record_count + classes.len() + sum_by(rules, |r: AccessRuleFields| access_rule_tables(r)) + 2 * profiles.len()
            <= u64::MAX,
    ensures
        adds(
            access_outcome(c, classes, rules, profiles, ns, imports, scratch),
            c,
            classes.len() + sum_by(rules, |r: AccessRuleFields| access_rule_tables(r)) + 2 * profiles.len(),
        ),
{
    reveal(access_outcome);
    let limit = crate::policy_check::single_string_limit(scratch.spec_limits());
    let cs = |c: RoadEditingPreflightCounts, i: int, x: ParticipantClassFields|
        crate::access_check::participant_class_step(c, x, ns, imports, limit);
    let rs = |c: RoadEditingPreflightCounts, i: int, x: AccessRuleFields| crate::access_check::access_rule_step(c, x, ns, imports, scratch);
    let ps = |c: RoadEditingPreflightCounts, i: int, x: VehicleProfileFields|
        crate::access_check::vehicle_profile_step(c, x, ns, imports, limit);
    let one = |x: ParticipantClassFields| 1int;
    let f = |x: AccessRuleFields| access_rule_tables(x);
    let two = |x: VehicleProfileFields| 2int;
    lemma_sum_by_const(classes, 1);
    lemma_sum_by_const(profiles, 2);
    assert forall|x: AccessRuleFields| #[trigger] f(x) >= 0 by {}
    lemma_sum_by_nonneg(rules, f);
    assert forall|cc: RoadEditingPreflightCounts, i: int, x: ParticipantClassFields|
        cc.typed_ast_record_count + one(x) <= u64::MAX implies adds(#[trigger] cs(cc, i, x), cc, one(x)) by {
        lemma_area_items_records(cc, ns, imports, scratch, limit);
    }
    assert forall|cc: RoadEditingPreflightCounts, i: int, x: AccessRuleFields|
        cc.typed_ast_record_count + f(x) <= u64::MAX implies adds(#[trigger] rs(cc, i, x), cc, f(x)) by {
        lemma_area_items_records(cc, ns, imports, scratch, limit);
    }
    assert forall|cc: RoadEditingPreflightCounts, i: int, x: VehicleProfileFields|
        cc.typed_ast_record_count + two(x) <= u64::MAX implies adds(#[trigger] ps(cc, i, x), cc, two(x)) by {
        lemma_area_items_records(cc, ns, imports, scratch, limit);
    }
    lemma_fold_records(c, classes, cs, one);
    if let Ok(c1) = crate::access_check::classes_outcome(c, classes, ns, imports, scratch) {
        lemma_fold_records(c1, rules, rs, f);
        if let Ok(c2) = crate::access_check::rules_outcome(c1, rules, ns, imports, scratch) {
            lemma_fold_records(c2, profiles, ps, two);
        }
    }
}

/// The canonical frame stage adds one record per frame.
pub proof fn lemma_canonical_frames_records(
    c: RoadEditingPreflightCounts,
    xs: Seq<CanonicalFrameFields>,
    ns: Seq<u8>,
    imports: Seq<&str>,
    scratch: PreflightScratch,
)
    requires
        c.typed_ast_record_count + xs.len() <= u64::MAX,
    ensures
        adds(canonical_frames_outcome(c, xs, ns, imports, scratch), c, xs.len() as int),
{
    reveal(canonical_frames_outcome);
    let limit = crate::policy_check::single_string_limit(scratch.spec_limits());
    let step = |c: RoadEditingPreflightCounts, i: int, x: CanonicalFrameFields|
        crate::lane_check::canonical_frame_step(c, x, ns, imports, limit);
    let one = |x: CanonicalFrameFields| 1int;
    lemma_sum_by_const(xs, 1);
    assert forall|cc: RoadEditingPreflightCounts, i: int, x: CanonicalFrameFields|
        cc.typed_ast_record_count + one(x) <= u64::MAX implies adds(#[trigger] step(cc, i, x), cc, one(x)) by {
        lemma_area_items_records(cc, ns, imports, scratch, limit);
    }
    lemma_fold_records(c, xs, step, one);
}

/// The conflict stage adds one record per zone, the tables of each stream
/// and one record per region.
pub proof fn lemma_conflicts_records(
    c: RoadEditingPreflightCounts,
    zones: Seq<ConflictZoneFields>,
    streams: Seq<ParticipantStreamFields>,
    regions: Seq<ConflictZoneRegionFields>,
    ns: Seq<u8>,
    imports: Seq<&str>,
    scratch: PreflightScratch,
)
    requires
        c.typed_ast_record_count + zones.len() + sum_by(streams, |p: ParticipantStreamFields| stream_tables(p)) + regions.len()
            <= u64::MAX,
    ensures
        adds(
            conflicts_outcome(c, zones, streams, regions, ns, imports, scratch),
            c,
            zones.len() + sum_by(streams, |p: ParticipantStreamFields| stream_tables(p)) + regions.len(),
        ),
{
    reveal(conflicts_outcome);
    let limits = scratch.spec_limits();
    let limit = crate::policy_check::single_string_limit(limits);
    let zs = |c: RoadEditingPreflightCounts, i: int, z: ConflictZoneFields| crate::conflict_check::conflict_zone_step(c, z, ns, imports, limit);
    let ss = |c: RoadEditingPreflightCounts, i: int, s: ParticipantStreamFields|
        crate::conflict_check::participant_stream_step(c, s, ns, imports, limits);
    let rs = |c: RoadEditingPreflightCounts, i: int, r: ConflictZoneRegionFields|
        crate::conflict_check::region_step(c, regions, i, r, ns, imports, limit);
    let one_z = |x: ConflictZoneFields| 1int;
    let f = |x: ParticipantStreamFields| stream_tables(x);
    let one_r = |x: ConflictZoneRegionFields| 1int;
    lemma_sum_by_const(zones, 1);
    lemma_sum_by_const(regions, 1);
    assert forall|x: ParticipantStreamFields| #[trigger] f(x) >= 0 by {}
    lemma_sum_by_nonneg(streams, f);
    assert forall|cc: RoadEditingPreflightCounts, i: int, x: ConflictZoneFields|
        cc.typed_ast_record_count + one_z(x) <= u64::MAX implies adds(#[trigger] zs(cc, i, x), cc, one_z(x)) by {
        lemma_area_items_records(cc, ns, imports, scratch, limit);
    }
    assert forall|cc: RoadEditingPreflightCounts, i: int, x: ParticipantStreamFields|
        cc.typed_ast_record_count + f(x) <= u64::MAX implies adds(#[trigger] ss(cc, i, x), cc, f(x)) by {
        lemma_stream_records(cc, x, ns, imports, limits);
    }
    assert forall|cc: RoadEditingPreflightCounts, i: int, x: ConflictZoneRegionFields|
        cc.typed_ast_record_count + one_r(x) <= u64::MAX implies adds(#[trigger] rs(cc, i, x), cc, one_r(x)) by {
        lemma_area_items_records(cc, ns, imports, scratch, limit);
    }
    lemma_fold_records(c, zones, zs, one_z);
    if let Ok(c1) = crate::conflict_check::zones_outcome(c, zones, ns, imports, scratch) {
        lemma_fold_records(c1, streams, ss, f);
        if let Ok(c2) = crate::conflict_check::streams_outcome(c1, streams, ns, imports, scratch) {
            let c3 = crate::policy_check::with_relations(c2, regions.len() as int);
            lemma_fold_records(c3, regions, rs, one_r);
        }
    }
}

/// The alignment stage adds the tables of each alignment.
pub proof fn lemma_alignments_records(
    c: RoadEditingPreflightCounts,
    xs: Seq<RoadAlignmentFields>,
    ns: Seq<u8>,
    imports: Seq<&str>,
    scratch: PreflightScratch,
)
    requires
        c.typed_ast_record_count + sum_by(xs, |a: RoadAlignmentFields| alignment_tables(a)) <= u64::MAX,
    ensures
        adds(alignments_outcome(c, xs, ns, imports, scratch), c, sum_by(xs, |a: RoadAlignmentFields| alignment_tables(a))),
{
    reveal(alignments_outcome);
    let limit = crate::policy_check::single_string_limit(scratch.spec_limits());
    let step = |c: RoadEditingPreflightCounts, i: int, x: RoadAlignmentFields| crate::geometry_check::alignment_step(c, x, ns, imports, limit);
    let f = |a: RoadAlignmentFields| alignment_tables(a);
    assert forall|x: RoadAlignmentFields| #[trigger] f(x) >= 0 by {}
    assert forall|cc: RoadEditingPreflightCounts, i: int, x: RoadAlignmentFields|
        cc.typed_ast_record_count + f(x) <= u64::MAX implies adds(#[trigger] step(cc, i, x), cc, f(x)) by {
        lemma_geometry_items_records(cc, ns, imports, scratch);
    }
    lemma_fold_records(c, xs, step, f);
}

/// The corridor stage adds the tables of each corridor.
pub proof fn lemma_corridors_records(
    c: RoadEditingPreflightCounts,
    xs: Seq<RoadCorridorFields>,
    ns: Seq<u8>,
    imports: Seq<&str>,
    scratch: PreflightScratch,
)
    requires
        c.typed_ast_record_count + sum_by(xs, |x: RoadCorridorFields| corridor_tables(x)) <= u64::MAX,
    ensures
        adds(corridors_outcome(c, xs, ns, imports, scratch), c, sum_by(xs, |x: RoadCorridorFields| corridor_tables(x))),
{
    reveal(corridors_outcome);
    let step = |c: RoadEditingPreflightCounts, i: int, x: RoadCorridorFields| crate::corridor_check::corridor_step(c, x, ns, imports, scratch);
    let f = |x: RoadCorridorFields| corridor_tables(x);
    assert forall|x: RoadCorridorFields| #[trigger] f(x) >= 0 by {}
    assert forall|cc: RoadEditingPreflightCounts, i: int, x: RoadCorridorFields|
        cc.typed_ast_record_count + f(x) <= u64::MAX implies adds(#[trigger] step(cc, i, x), cc, f(x)) by {
        lemma_corridor_records(cc, x, ns, imports, scratch);
    }
    lemma_fold_records(c, xs, step, f);
}

/// The road section stage adds one record per section.
pub proof fn lemma_sections_records(
    c: RoadEditingPreflightCounts,
    xs: Seq<RoadSectionFields>,
    corridor_keys: Seq<&str>,
    ns: Seq<u8>,
    imports: Seq<&str>,
    scratch: PreflightScratch,
)
    requires
        c.typed_ast_record_count + xs.len() <= u64::MAX,
    ensures
        adds(sections_outcome(c, xs, corridor_keys, ns, imports, scratch), c, xs.len() as int),
{
    reveal(sections_outcome);
    let one = |x: RoadSectionFields| 1int;
    lemma_sum_by_const(xs, 1);
    if let Ok(live) = crate::scratch::scratch_request(
        scratch.spec_limits(),
        scratch.admitted(),
        scratch.live(),
        (corridor_keys.len() * vstd::layout::size_of::<&str>()) as int,
    ) {
        let held = scratch.after_grant(live);
        let step = |c: RoadEditingPreflightCounts, i: int, x: RoadSectionFields|
            crate::section_check::section_step(c, x, corridor_keys, ns, imports, held);
        assert forall|cc: RoadEditingPreflightCounts, i: int, x: RoadSectionFields|
            cc.typed_ast_record_count + one(x) <= u64::MAX implies adds(#[trigger] step(cc, i, x), cc, one(x)) by {
            lemma_section_items_records(cc, corridor_keys, ns, imports, held);
        }
        lemma_fold_records(c, xs, step, one);
    }
}

/// The authoring lane stage adds one record per lane.
pub proof fn lemma_authoring_lanes_records(
    c: RoadEditingPreflightCounts,
    xs: Seq<AuthoringLaneFields>,
    ns: Seq<u8>,
    imports: Seq<&str>,
    scratch: PreflightScratch,
)
    requires
        c.typed_ast_record_count + xs.len() <= u64::MAX,
    ensures
        adds(authoring_lanes_outcome(c, xs, ns, imports, scratch), c, xs.len() as int),
{
    reveal(authoring_lanes_outcome);
    let limit = crate::policy_check::single_string_limit(scratch.spec_limits());
    let step = |c: RoadEditingPreflightCounts, i: int, x: AuthoringLaneFields|
        crate::lane_check::authoring_lane_step(c, x, ns, imports, limit);
    let one = |x: AuthoringLaneFields| 1int;
    lemma_sum_by_const(xs, 1);
    assert forall|cc: RoadEditingPreflightCounts, i: int, x: AuthoringLaneFields|
        cc.typed_ast_record_count + one(x) <= u64::MAX implies adds(#[trigger] step(cc, i, x), cc, one(x)) by {
        lemma_area_items_records(cc, ns, imports, scratch, limit);
    }
    lemma_fold_records(c, xs, step, one);
}

/// The lane edge stage adds the tables of each edge.
pub proof fn lemma_lane_edges_records(
    c: RoadEditingPreflightCounts,
    xs: Seq<LaneEdgeFields>,
    ns: Seq<u8>,
    imports: Seq<&str>,
    scratch: PreflightScratch,
)
    requires
        c.typed_ast_record_count + sum_by(xs, |e: LaneEdgeFields| lane_edge_tables(e)) <= u64::MAX,
    ensures
        adds(lane_edges_outcome(c, xs, ns, imports, scratch), c, sum_by(xs, |e: LaneEdgeFields| lane_edge_tables(e))),
{
    reveal(lane_edges_outcome);
    let step = |c: RoadEditingPreflightCounts, i: int, x: LaneEdgeFields| crate::geometry_check::lane_edge_step(c, x, ns, imports, scratch);
    let f = |e: LaneEdgeFields| lane_edge_tables(e);
    assert forall|x: LaneEdgeFields| #[trigger] f(x) >= 0 by {}
    assert forall|cc: RoadEditingPreflightCounts, i: int, x: LaneEdgeFields|
        cc.typed_ast_record_count + f(x) <= u64::MAX implies adds(#[trigger] step(cc, i, x), cc, f(x)) by {
        lemma_geometry_items_records(cc, ns, imports, scratch);
    }
    lemma_fold_records(c, xs, step, f);
}

/// Charging the imports leaves the typed records alone.
pub proof fn lemma_imports_records(c: RoadEditingPreflightCounts, imports: Seq<&str>, ns: Seq<u8>, limit: u64)
    ensures
        adds(charge_imports(c, imports, ns, limit), c, 0),
    decreases imports.len(),
{
    if imports.len() > 0 {
        lemma_imports_records(c, imports.drop_last(), ns, limit);
    }
}

/// A header that passes its stage is one typed record.
pub proof fn lemma_header_records(h: ModuleHeaderLinks, limits: CompileLimits, scratch: PreflightScratch)
    ensures
        header_outcome(h, limits, scratch) is Ok ==> header_outcome(h, limits, scratch)->Ok_0.typed_ast_record_count == 1,
{
    reveal(header_outcome);
    let limit = limits.spec_value(crate::limits::CompileLimitDimension::SingleStringBytes);
    if let Ok(c1) = crate::preflight::token_step(
        crate::header_check::header_start(),
        h.authoring_namespace_id.spec_bytes(),
        limit,
        "moduleHeader.authoringNamespaceId"@,
    ) {
        if let Ok(c2) = crate::preflight::token_step(c1, h.source_document_key.spec_bytes(), limit, "moduleHeader.sourceDocumentKey"@) {
            lemma_imports_records(c2, h.imports@, h.authoring_namespace_id.spec_bytes(), limit);
        }
    }
}

/// The policy stage adds the tables of each policy set.
pub proof fn lemma_policies_records(
    c: RoadEditingPreflightCounts,
    root_slots: Seq<u16>,
    movement_slots: Seq<Vec<u16>>,
    policies: Seq<RightOfWayPolicyFields>,
    ns: Seq<u8>,
    imports: Seq<&str>,
    limits: CompileLimits,
)
    requires
        c.typed_ast_record_count + sum_by(policies, |p: RightOfWayPolicyFields| policy_tables(p)) <= u64::MAX,
    ensures
        adds(
            policies_outcome(c, root_slots, movement_slots, policies, ns, imports, limits),
            c,
            sum_by(policies, |p: RightOfWayPolicyFields| policy_tables(p)),
        ),
{
    reveal(policies_outcome);
    let limit = crate::policy_check::single_string_limit(limits);
    let ms = |c: RoadEditingPreflightCounts, i: int, m: Vec<u16>| crate::policy_check::closed_step(c, m@, 6);
    let ps = |c: RoadEditingPreflightCounts, i: int, p: RightOfWayPolicyFields| crate::policy_check::policy_step(c, p, ns, imports, limit);
    let zero = |m: Vec<u16>| 0int;
    let f = |p: RightOfWayPolicyFields| policy_tables(p);
    lemma_sum_by_const(movement_slots, 0);
    assert forall|x: RightOfWayPolicyFields| #[trigger] f(x) >= 0 by {}
    assert forall|cc: RoadEditingPreflightCounts, i: int, x: Vec<u16>|
        cc.typed_ast_record_count + zero(x) <= u64::MAX implies adds(#[trigger] ms(cc, i, x), cc, zero(x)) by {}
    assert forall|cc: RoadEditingPreflightCounts, i: int, x: RightOfWayPolicyFields|
        cc.typed_ast_record_count + f(x) <= u64::MAX implies adds(#[trigger] ps(cc, i, x), cc, f(x)) by {
        lemma_policy_records(cc, x, ns, imports, limit);
    }
    if let Ok(c0) = crate::policy_check::closed_step(c, root_slots, 30) {
        lemma_fold_records(c0, movement_slots, ms, zero);
        if let Ok(c1) = crate::preflight::fold_steps(c0, movement_slots, ms) {
            lemma_fold_records(c1, policies, ps, f);
        }
    }
}

/// The records of the road tables.
pub open spec fn road_records(s: RoadEditingSourceFields) -> int {
    sum_by(s.road_alignments@, |a: RoadAlignmentFields| alignment_tables(a)) + sum_by(
        s.road_corridors@,
        |x: RoadCorridorFields| corridor_tables(x),
    ) + s.road_sections@.len() + s.authoring_lanes@.len() + sum_by(s.lane_edges@, |e: LaneEdgeFields| lane_edge_tables(e))
}

/// The records of the junction tables.
pub open spec fn junction_records(s: RoadEditingSourceFields) -> int {
    s.junctions@.len() + s.movements@.len() + direction_count(s.movements@) + s.maneuver_paths@.len() + s.maneuver_gates@.len()
        + s.waiting_zones@.len()
}

/// The records of the signal, parking, lane group, access, frame and
/// conflict tables.
pub open spec fn area_records(s: RoadEditingSourceFields) -> int {
    s.stop_lines@.len() + s.signal_groups@.len() + s.signal_controllers@.len() + sum_by(
        s.signal_phases@,
        |p: SignalPhaseLinks| phase_tables(p),
    ) + sum_by(s.parking_facilities@, |f: ParkingFacilityFields| facility_tables(f)) + 4 * s.parking_spaces@.len()
        + s.lane_groups@.len() + s.facility_bands@.len() + s.participant_classes@.len() + sum_by(
        s.access_rules@,
        |r: AccessRuleFields| access_rule_tables(r),
    ) + 2 * s.vehicle_profiles@.len() + s.canonical_frames@.len() + s.conflict_zones@.len() + sum_by(
        s.participant_streams@,
        |p: ParticipantStreamFields| stream_tables(p),
    ) + s.conflict_zone_regions@.len()
}

/// The road tables add their records.
pub proof fn lemma_road_tables_records(c: RoadEditingPreflightCounts, s: RoadEditingSourceFields, scratch: PreflightScratch)
    requires
        c.typed_ast_record_count + road_records(s) <= u64::MAX,
    ensures
        adds(road_tables_outcome(c, s, scratch), c, road_records(s)),
{
    let ns = s.header.authoring_namespace_id.spec_bytes();
    let imports = s.header.imports@;
    let fa = |a: RoadAlignmentFields| alignment_tables(a);
    let fc = |x: RoadCorridorFields| corridor_tables(x);
    let fe = |e: LaneEdgeFields| lane_edge_tables(e);
    assert forall|x: RoadAlignmentFields| #[trigger] fa(x) >= 0 by {}
    assert forall|x: RoadCorridorFields| #[trigger] fc(x) >= 0 by {}
    assert forall|x: LaneEdgeFields| #[trigger] fe(x) >= 0 by {}
    lemma_sum_by_nonneg(s.road_alignments@, fa);
    lemma_sum_by_nonneg(s.road_corridors@, fc);
    lemma_sum_by_nonneg(s.lane_edges@, fe);
    lemma_alignments_records(c, s.road_alignments@, ns, imports, scratch);
    if let Ok(c1) = alignments_outcome(c, s.road_alignments@, ns, imports, scratch) {
        lemma_corridors_records(c1, s.road_corridors@, ns, imports, scratch);
        if let Ok(c2) = corridors_outcome(c1, s.road_corridors@, ns, imports, scratch) {
            let keys = crate::corridor_check::corridor_keys(s.road_corridors@);
            lemma_sections_records(c2, s.road_sections@, keys, ns, imports, scratch);
            if let Ok(c3) = sections_outcome(c2, s.road_sections@, keys, ns, imports, scratch) {
                lemma_authoring_lanes_records(c3, s.authoring_lanes@, ns, imports, scratch);
                if let Ok(c4) = authoring_lanes_outcome(c3, s.authoring_lanes@, ns, imports, scratch) {
                    lemma_lane_edges_records(c4, s.lane_edges@, ns, imports, scratch);
                }
            }
        }
    }
}

/// The junction tables add their records.
pub proof fn lemma_junction_tables_records(c: RoadEditingPreflightCounts, s: RoadEditingSourceFields, scratch: PreflightScratch)
    requires
        c.typed_ast_record_count + junction_records(s) <= u64::MAX,
    ensures
        adds(junction_tables_outcome(c, s, scratch), c, junction_records(s)),
{
    let ns = s.header.authoring_namespace_id.spec_bytes();
    let imports = s.header.imports@;
    lemma_movement_records_sum(s.movements@);
    let f = |m: MovementFields| movement_records(m);
    assert forall|x: MovementFields| #[trigger] f(x) >= 0 by {}
    lemma_sum_by_nonneg(s.movements@, f);
    lemma_junctions_records(c, s.junctions@, ns, imports, scratch);
    if let Ok(c1) = junctions_outcome(c, s.junctions@, ns, imports, scratch) {
        lemma_movements_records(c1, s.movements@, ns, imports, scratch);
        if let Ok(c2) = movements_outcome(c1, s.movements@, ns, imports, scratch) {
            lemma_maneuver_paths_records(c2, s.maneuver_paths@, ns, imports, scratch);
            if let Ok(c3) = maneuver_paths_outcome(c2, s.maneuver_paths@, ns, imports, scratch) {
                lemma_maneuver_gates_records(c3, s.maneuver_gates@, ns, imports, scratch);
                if let Ok(c4) = maneuver_gates_outcome(c3, s.maneuver_gates@, ns, imports, scratch) {
                    lemma_waiting_zones_records(c4, s.waiting_zones@, ns, imports, scratch);
                }
            }
        }
    }
}

/// The signal, parking, lane group, access, frame and conflict tables add
/// their records.
pub proof fn lemma_area_tables_records(c: RoadEditingPreflightCounts, s: RoadEditingSourceFields, scratch: PreflightScratch)
    requires
        c.typed_ast_record_count + area_records(s) <= u64::MAX,
    ensures
        adds(area_tables_outcome(c, s, scratch), c, area_records(s)),
{
    let ns = s.header.authoring_namespace_id.spec_bytes();
    let imports = s.header.imports@;
    let fp = |p: SignalPhaseLinks| phase_tables(p);
    let ff = |f: ParkingFacilityFields| facility_tables(f);
    let fr = |r: AccessRuleFields| access_rule_tables(r);
    let fs = |p: ParticipantStreamFields| stream_tables(p);
    assert forall|x: SignalPhaseLinks| #[trigger] fp(x) >= 0 by {}
    assert forall|x: ParkingFacilityFields| #[trigger] ff(x) >= 0 by {}
    assert forall|x: AccessRuleFields| #[trigger] fr(x) >= 0 by {}
    assert forall|x: ParticipantStreamFields| #[trigger] fs(x) >= 0 by {}
    lemma_sum_by_nonneg(s.signal_phases@, fp);
    lemma_sum_by_nonneg(s.parking_facilities@, ff);
    lemma_sum_by_nonneg(s.access_rules@, fr);
    lemma_sum_by_nonneg(s.participant_streams@, fs);
    lemma_stop_lines_and_groups_records(c, s.stop_lines@, s.signal_groups@, ns, imports, scratch);
    if let Ok(c1) = stop_lines_and_groups_outcome(c, s.stop_lines@, s.signal_groups@, ns, imports, scratch) {
        lemma_controllers_and_phases_records(c1, s.signal_controllers@, s.signal_phases@, ns, imports, scratch);
        if let Ok(c2) = controllers_and_phases_outcome(c1, s.signal_controllers@, s.signal_phases@, ns, imports, scratch) {
            lemma_parking_records(c2, s.parking_facilities@, s.parking_spaces@, ns, imports, scratch);
            if let Ok(c3) = parking_outcome(c2, s.parking_facilities@, s.parking_spaces@, ns, imports, scratch) {
                lemma_groups_and_bands_records(c3, s.lane_groups@, s.facility_bands@, ns, imports, scratch);
                if let Ok(c4) = groups_and_bands_outcome(c3, s.lane_groups@, s.facility_bands@, ns, imports, scratch) {
                    lemma_access_records(c4, s.participant_classes@, s.access_rules@, s.vehicle_profiles@, ns, imports, scratch);
                    if let Ok(c5) = access_outcome(c4, s.participant_classes@, s.access_rules@, s.vehicle_profiles@, ns, imports, scratch) {
                        lemma_canonical_frames_records(c5, s.canonical_frames@, ns, imports, scratch);
                        if let Ok(c6) = canonical_frames_outcome(c5, s.canonical_frames@, ns, imports, scratch) {
                            lemma_conflicts_records(
                                c6,
                                s.conflict_zones@,
                                s.participant_streams@,
                                s.conflict_zone_regions@,
                                ns,
                                imports,
                                scratch,
                            );
                        }
                    }
                }
            }
        }
    }
}

/// The records of each group of tables are never negative.
pub proof fn lemma_records_nonneg(s: RoadEditingSourceFields)
    ensures
        road_records(s) >= 0,
        junction_records(s) >= 0,
        area_records(s) >= 0,
{
    let fa = |a: RoadAlignmentFields| alignment_tables(a);
    let fc = |x: RoadCorridorFields| corridor_tables(x);
    let fe = |e: LaneEdgeFields| lane_edge_tables(e);
    let fp = |p: SignalPhaseLinks| phase_tables(p);
    let ff = |f: ParkingFacilityFields| facility_tables(f);
    let fr = |r: AccessRuleFields| access_rule_tables(r);
    let fs = |p: ParticipantStreamFields| stream_tables(p);
    let d = |m: MovementFields| if m.turn_direction is Some { 1int } else { 0int };
    assert forall|x: RoadAlignmentFields| #[trigger] fa(x) >= 0 by {}
    assert forall|x: RoadCorridorFields| #[trigger] fc(x) >= 0 by {}
    assert forall|x: LaneEdgeFields| #[trigger] fe(x) >= 0 by {}
    assert forall|x: SignalPhaseLinks| #[trigger] fp(x) >= 0 by {}
    assert forall|x: ParkingFacilityFields| #[trigger] ff(x) >= 0 by {}
    assert forall|x: AccessRuleFields| #[trigger] fr(x) >= 0 by {}
    assert forall|x: ParticipantStreamFields| #[trigger] fs(x) >= 0 by {}
    assert forall|x: MovementFields| #[trigger] d(x) >= 0 by {}
    lemma_sum_by_nonneg(s.road_alignments@, fa);
    lemma_sum_by_nonneg(s.road_corridors@, fc);
    lemma_sum_by_nonneg(s.lane_edges@, fe);
    lemma_sum_by_nonneg(s.signal_phases@, fp);
    lemma_sum_by_nonneg(s.parking_facilities@, ff);
    lemma_sum_by_nonneg(s.access_rules@, fr);
    lemma_sum_by_nonneg(s.participant_streams@, fs);
    lemma_sum_by_nonneg(s.movements@, d);
}

} // verus!
