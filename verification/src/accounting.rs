//! The two ways a verified source counts its typed records agree: the
//! records that the semantic preflight charges table by table are the wire
//! tables of the source but the root and the provenance, plus one per
//! movement with a turn direction.

use vstd::prelude::*;
use vstd::string::StringSliceAdditionalSpecFns;

use crate::preflight::{
    charge_key_path, charge_reference_spec, charge_tokens, fold_steps, reference_step, reference_vector_step,
    RoadEditingPreflightCounts, StageFailure,
};
use crate::scratch::PreflightScratch;
use crate::source_verify::{direction_count, sum_by, table_total, typed_record_count};
use crate::source_preflight::{source_outcome, RoadEditingSourceFields};
use crate::limits::CompileLimits;

verus! {

/// `r` fails, or succeeds with `k` more typed records than `c`.
pub open spec fn adds(r: Result<RoadEditingPreflightCounts, StageFailure>, c: RoadEditingPreflightCounts, k: int) -> bool {
    r is Ok ==> r->Ok_0.typed_ast_record_count == c.typed_ast_record_count + k
}

/// Charging tokens leaves the typed records alone.
pub proof fn lemma_charge_tokens_records(c: RoadEditingPreflightCounts, tokens: Seq<Seq<u8>>, limit: u64)
    ensures
        charge_tokens(c, tokens, limit).0.typed_ast_record_count == c.typed_ast_record_count,
    decreases tokens.len(),
{
    if tokens.len() > 0 {
        lemma_charge_tokens_records(c, tokens.drop_last(), limit);
    }
}

/// Charging a reference leaves the typed records alone.
pub proof fn lemma_reference_records(
    c: RoadEditingPreflightCounts,
    s: Seq<u8>,
    component_count: u8,
    allow_qualified: bool,
    namespace: Seq<u8>,
    imports: Seq<&str>,
    limit: u64,
    field: Seq<char>,
)
    ensures
        adds(reference_step(c, s, component_count, allow_qualified, namespace, imports, limit, field), c, 0),
{
    let (c1, e) = charge_reference_spec(c, s, component_count, allow_qualified, namespace, imports, limit);
    match crate::rules::wire_reference_spec(s, component_count, allow_qualified) {
        Err(_) => {},
        Ok((None, kp)) => {
            lemma_charge_tokens_records(c, crate::rules::split_components(kp), limit);
        },
        Ok((Some(ns), kp)) => {
            let c0 = RoadEditingPreflightCounts {
                external_namespace_reference_count: crate::preflight::sat_add(c.external_namespace_reference_count, 1),
                ..c
            };
            lemma_charge_tokens_records(c0.with_string(ns.len() as int), crate::rules::split_components(kp), limit);
        },
    }
}

/// A fold whose steps each add the records `f` of their item adds the sum of
/// `f` over the items, while that sum stays representable.
pub proof fn lemma_fold_records<T>(
    c: RoadEditingPreflightCounts,
    items: Seq<T>,
    step: spec_fn(RoadEditingPreflightCounts, int, T) -> Result<RoadEditingPreflightCounts, StageFailure>,
    f: spec_fn(T) -> int,
)
    requires
        forall|x: T| #[trigger] f(x) >= 0,
        forall|c1: RoadEditingPreflightCounts, i: int, x: T|
            c1.typed_ast_record_count + f(x) <= u64::MAX ==> adds(#[trigger] step(c1, i, x), c1, f(x)),
        c.typed_ast_record_count + sum_by(items, f) <= u64::MAX,
    ensures
        adds(fold_steps(c, items, step), c, sum_by(items, f)),
    decreases items.len(),
{
    if items.len() > 0 {
        crate::source_verify::lemma_sum_by_nonneg(items.drop_last(), f);
        lemma_fold_records(c, items.drop_last(), step, f);
    }
}

/// The sum of a constant over `s` is that constant times its length.
pub proof fn lemma_sum_by_const<T>(s: Seq<T>, k: int)
    ensures
        sum_by(s, |x: T| k) == k * s.len(),
    decreases s.len(),
{
    if s.len() > 0 {
        lemma_sum_by_const(s.drop_last(), k);
        assert(k * (s.len() - 1) + k == k * s.len()) by (nonlinear_arith);
    }
}

/// Checking a reference vector leaves the typed records alone.
pub proof fn lemma_reference_vector_records(
    c: RoadEditingPreflightCounts,
    values: Seq<&str>,
    component_count: u8,
    field: Seq<char>,
    non_empty: bool,
    unique: bool,
    relation: bool,
    namespace: Seq<u8>,
    imports: Seq<&str>,
    scratch: PreflightScratch,
)
    requires
        c.typed_ast_record_count <= u64::MAX,
    ensures
        adds(
            reference_vector_step(c, values, component_count, field, non_empty, unique, relation, namespace, imports, scratch),
            c,
            0,
        ),
{
    let limit = scratch.spec_limits().spec_value(crate::limits::CompileLimitDimension::SingleStringBytes);
    let step = |c: RoadEditingPreflightCounts, i: int, v: &str|
        reference_step(c, v.spec_bytes(), component_count, true, namespace, imports, limit, field);
    let zero = |v: &str| 0int;
    assert forall|c1: RoadEditingPreflightCounts, i: int, x: &str|
        c1.typed_ast_record_count + zero(x) <= u64::MAX implies adds(#[trigger] step(c1, i, x), c1, zero(x)) by {
        lemma_reference_records(c1, x.spec_bytes(), component_count, true, namespace, imports, limit, field);
    }
    lemma_sum_by_const(values, 0);
    let n = values.len();
    let observed = crate::preflight::sat_add(c.relation_occurrence_count, n as int);
    let c1 = if relation {
        RoadEditingPreflightCounts { relation_occurrence_count: observed, ..c }
    } else {
        c
    };
    lemma_fold_records(c1, values, step, zero);
}

/// No reference charge changes the typed records.
pub proof fn lemma_references_keep_records()
    ensures
        forall|c: RoadEditingPreflightCounts, s: Seq<u8>, n: u8, q: bool, ns: Seq<u8>, imports: Seq<&str>, limit: u64, field: Seq<char>|
            adds(#[trigger] reference_step(c, s, n, q, ns, imports, limit, field), c, 0),
{
    assert forall|c: RoadEditingPreflightCounts, s: Seq<u8>, n: u8, q: bool, ns: Seq<u8>, imports: Seq<&str>, limit: u64, field: Seq<char>|
        adds(#[trigger] reference_step(c, s, n, q, ns, imports, limit, field), c, 0) by {
        lemma_reference_records(c, s, n, q, ns, imports, limit, field);
    }
}

/// No reference vector check changes the typed records.
pub proof fn lemma_reference_vectors_keep_records()
    ensures
        forall|c: RoadEditingPreflightCounts, values: Seq<&str>, n: u8, field: Seq<char>, e: bool, u: bool, r: bool, ns: Seq<u8>, imports: Seq<&str>, scratch: PreflightScratch|
            adds(#[trigger] reference_vector_step(c, values, n, field, e, u, r, ns, imports, scratch), c, 0),
{
    assert forall|c: RoadEditingPreflightCounts, values: Seq<&str>, n: u8, field: Seq<char>, e: bool, u: bool, r: bool, ns: Seq<u8>, imports: Seq<&str>, scratch: PreflightScratch|
        adds(#[trigger] reference_vector_step(c, values, n, field, e, u, r, ns, imports, scratch), c, 0) by {
        lemma_reference_vector_records(c, values, n, field, e, u, r, ns, imports, scratch);
    }
}

/// The records of a movement: one, and one more with a turn direction.
pub open spec fn movement_records(x: crate::junction_check::MovementFields) -> int {
    if x.turn_direction is Some {
        2
    } else {
        1
    }
}

/// A junction, maneuver path, gate or waiting zone adds one record; a
/// movement one more with a turn direction.
pub proof fn lemma_junction_items_records(c: RoadEditingPreflightCounts, namespace: Seq<u8>, imports: Seq<&str>, scratch: PreflightScratch, limit: u64)
    ensures
        forall|x: crate::junction_check::JunctionLinks|
            c.typed_ast_record_count + 1 <= u64::MAX ==> adds(#[trigger] crate::junction_check::junction_step(c, x, namespace, imports, scratch), c, 1),
        forall|x: crate::junction_check::ManeuverPathLinks|
            c.typed_ast_record_count + 1 <= u64::MAX ==> adds(#[trigger] crate::junction_check::maneuver_path_step(c, x, namespace, imports, scratch), c, 1),
        forall|x: crate::junction_check::ManeuverGateLinks|
            c.typed_ast_record_count + 1 <= u64::MAX ==> adds(#[trigger] crate::junction_check::maneuver_gate_step(c, x, namespace, imports, limit), c, 1),
        forall|x: crate::junction_check::WaitingZoneLinks|
            c.typed_ast_record_count + 1 <= u64::MAX ==> adds(#[trigger] crate::junction_check::waiting_zone_step(c, x, namespace, imports, limit), c, 1),
        forall|x: crate::junction_check::MovementFields|
            c.typed_ast_record_count + movement_records(x) <= u64::MAX ==> adds(
                #[trigger] crate::junction_check::movement_step(c, x, namespace, imports, limit),
                c,
                movement_records(x),
            ),
{
    lemma_references_keep_records();
    lemma_reference_vectors_keep_records();
}

/// A stop line, signal group or controller adds one record; a phase one
/// and one per state.
pub proof fn lemma_signal_items_records(c: RoadEditingPreflightCounts, namespace: Seq<u8>, imports: Seq<&str>, scratch: PreflightScratch, limit: u64)
    ensures
        forall|x: crate::signal_check::StopLineLinks|
            c.typed_ast_record_count + 1 <= u64::MAX ==> adds(#[trigger] crate::signal_check::stop_line_step(c, x, namespace, imports, limit), c, 1),
        forall|x: crate::signal_check::SignalGroupLinks|
            c.typed_ast_record_count + 1 <= u64::MAX ==> adds(#[trigger] crate::signal_check::signal_group_step(c, x, limit), c, 1),
        forall|x: crate::links::SignalControllerLinks|
            c.typed_ast_record_count + 1 <= u64::MAX ==> adds(#[trigger] crate::signal_check::controller_step(c, x, namespace, imports, scratch), c, 1),
{
    lemma_references_keep_records();
    lemma_reference_vectors_keep_records();
}

/// A signal phase adds one record and one per state.
pub proof fn lemma_phase_records(
    c: RoadEditingPreflightCounts,
    p: crate::links::SignalPhaseLinks,
    namespace: Seq<u8>,
    imports: Seq<&str>,
    scratch: PreflightScratch,
)
    requires
        c.typed_ast_record_count + 1 + p.states@.len() <= u64::MAX,
    ensures
        adds(crate::signal_check::phase_step(c, p, namespace, imports, scratch), c, (1 + p.states@.len()) as int),
{
    lemma_references_keep_records();
    let limit = crate::signal_check::string_limit(scratch);
    let c1 = c.with_declaration(crate::declaration::EntityKind::SignalPhase);
    let n = p.states@.len();
    if let Ok(c2) = crate::preflight::token_step(c1, p.signal_phase_key.spec_bytes(), limit, "signalPhase.signalPhaseKey"@) {
        if let Ok(c3) = crate::preflight::signal_time_step(c2, p.duration_milliseconds, false, "signalPhase.durationMilliseconds"@) {
            if n > 0 {
                let c4 = RoadEditingPreflightCounts {
                    relation_occurrence_count: crate::preflight::sat_add(c3.relation_occurrence_count, n as int),
                    ..c3
                };
                if let Ok(duplicate) = crate::signal_check::duplicate_request(crate::links::state_groups(p.states@), namespace, scratch) {
                    let step = |c: RoadEditingPreflightCounts, i: int, st: crate::links::SignalPhaseStateLinks|
                        crate::signal_check::state_step(c, i, st, duplicate, namespace, imports, limit);
                    let one = |st: crate::links::SignalPhaseStateLinks| 1int;
                    lemma_sum_by_const(p.states@, 1);
                    assert forall|cc: RoadEditingPreflightCounts, i: int, x: crate::links::SignalPhaseStateLinks|
                        cc.typed_ast_record_count + one(x) <= u64::MAX implies adds(#[trigger] step(cc, i, x), cc, one(x)) by {
                    }
                    lemma_fold_records(c4, p.states@, step, one);
                }
            }
        }
    }
}

/// Checking parking anchors leaves the typed records alone.
pub proof fn lemma_anchors_records(
    c: RoadEditingPreflightCounts,
    anchors: Seq<crate::parking_check::ParkingAnchorFields>,
    field: Seq<char>,
    namespace: Seq<u8>,
    imports: Seq<&str>,
    limit: u64,
)
    ensures
        adds(crate::parking_check::anchors_step(c, anchors, field, namespace, imports, limit), c, 0),
{
    lemma_references_keep_records();
    let step = |c: RoadEditingPreflightCounts, i: int, a: crate::parking_check::ParkingAnchorFields|
        crate::parking_check::anchor_step(c, a, field, namespace, imports, limit);
    let zero = |a: crate::parking_check::ParkingAnchorFields| 0int;
    lemma_sum_by_const(anchors, 0);
    assert forall|cc: RoadEditingPreflightCounts, i: int, x: crate::parking_check::ParkingAnchorFields|
        cc.typed_ast_record_count + zero(x) <= u64::MAX implies adds(#[trigger] step(cc, i, x), cc, zero(x)) by {
    }
    lemma_fold_records(c, anchors, step, zero);
}

/// The records of the parking, lane, access and frame items.
pub proof fn lemma_area_items_records(c: RoadEditingPreflightCounts, namespace: Seq<u8>, imports: Seq<&str>, scratch: PreflightScratch, limit: u64)
    ensures
        forall|x: crate::parking_check::ParkingSpaceFields|
            c.typed_ast_record_count + 4 <= u64::MAX ==> adds(#[trigger] crate::parking_check::space_step(c, x, namespace, imports, limit), c, 4),
        forall|x: crate::lane_check::AuthoringLaneFields|
            c.typed_ast_record_count + 1 <= u64::MAX ==> adds(#[trigger] crate::lane_check::authoring_lane_step(c, x, namespace, imports, limit), c, 1),
        forall|x: crate::lane_check::LaneGroupFields|
            c.typed_ast_record_count + 1 <= u64::MAX ==> adds(#[trigger] crate::lane_check::lane_group_step(c, x, namespace, imports, limit), c, 1),
        forall|x: crate::lane_check::FacilityBandFields|
            c.typed_ast_record_count + 1 <= u64::MAX ==> adds(#[trigger] crate::lane_check::facility_band_step(c, x, namespace, imports, limit), c, 1),
        forall|x: crate::lane_check::CanonicalFrameFields|
            c.typed_ast_record_count + 1 <= u64::MAX ==> adds(#[trigger] crate::lane_check::canonical_frame_step(c, x, namespace, imports, limit), c, 1),
        forall|x: crate::access_check::ParticipantClassFields|
            c.typed_ast_record_count + 1 <= u64::MAX ==> adds(#[trigger] crate::access_check::participant_class_step(c, x, namespace, imports, limit), c, 1),
        forall|x: crate::access_check::AccessRuleFields|
            c.typed_ast_record_count + crate::source_verify::access_rule_tables(x) <= u64::MAX ==> adds(
                #[trigger] crate::access_check::access_rule_step(c, x, namespace, imports, scratch),
                c,
                crate::source_verify::access_rule_tables(x),
            ),
        forall|x: crate::access_check::VehicleProfileFields|
            c.typed_ast_record_count + 2 <= u64::MAX ==> adds(#[trigger] crate::access_check::vehicle_profile_step(c, x, namespace, imports, limit), c, 2),
        forall|x: crate::conflict_check::ConflictZoneFields|
            c.typed_ast_record_count + 1 <= u64::MAX ==> adds(#[trigger] crate::conflict_check::conflict_zone_step(c, x, namespace, imports, limit), c, 1),
        forall|regions: Seq<crate::conflict_check::ConflictZoneRegionFields>, i: int, x: crate::conflict_check::ConflictZoneRegionFields|
            c.typed_ast_record_count + 1 <= u64::MAX ==> adds(#[trigger] crate::conflict_check::region_step(c, regions, i, x, namespace, imports, limit), c, 1),
{
    lemma_references_keep_records();
    lemma_reference_vectors_keep_records();
}

/// A parking facility adds one record and one per virtual anchor.
pub proof fn lemma_facility_records(
    c: RoadEditingPreflightCounts,
    x: crate::parking_check::ParkingFacilityFields,
    namespace: Seq<u8>,
    imports: Seq<&str>,
    limit: u64,
)
    requires
        c.typed_ast_record_count + 1 + x.virtual_entries@.len() + x.virtual_exits@.len() <= u64::MAX,
    ensures
        adds(
            crate::parking_check::facility_step(c, x, namespace, imports, limit),
            c,
            (1 + x.virtual_entries@.len() + x.virtual_exits@.len()) as int,
        ),
{
    let n = x.virtual_entries@.len() + x.virtual_exits@.len();
    if let Ok(c1) = crate::preflight::token_step(
        c.with_declaration(crate::declaration::EntityKind::ParkingFacility),
        x.parking_facility_key.spec_bytes(),
        limit,
        "parkingFacility.parkingFacilityKey"@,
    ) {
        let c2 = crate::policy_check::with_relations(crate::policy_check::with_records(c1, n as int), n as int);
        lemma_anchors_records(c2, x.virtual_entries@, "parkingFacility.virtualEntries"@, namespace, imports, limit);
        if let Ok(c3) = crate::parking_check::anchors_step(c2, x.virtual_entries@, "parkingFacility.virtualEntries"@, namespace, imports, limit) {
            lemma_anchors_records(c3, x.virtual_exits@, "parkingFacility.virtualExits"@, namespace, imports, limit);
        }
    }
}

/// Checking passages leaves the typed records alone.
pub proof fn lemma_passages_records(
    c: RoadEditingPreflightCounts,
    passages: Seq<crate::conflict_check::PassageFields>,
    namespace: Seq<u8>,
    imports: Seq<&str>,
    limit: u64,
)
    ensures
        adds(
            fold_steps(
                c,
                passages,
                |c: RoadEditingPreflightCounts, i: int, p: crate::conflict_check::PassageFields|
                    crate::conflict_check::passage_step(c, passages, i, p, namespace, imports, limit),
            ),
            c,
            0,
        ),
{
    lemma_references_keep_records();
    let step = |c: RoadEditingPreflightCounts, i: int, p: crate::conflict_check::PassageFields|
        crate::conflict_check::passage_step(c, passages, i, p, namespace, imports, limit);
    let zero = |p: crate::conflict_check::PassageFields| 0int;
    lemma_sum_by_const(passages, 0);
    assert forall|cc: RoadEditingPreflightCounts, i: int, x: crate::conflict_check::PassageFields|
        cc.typed_ast_record_count + zero(x) <= u64::MAX implies adds(#[trigger] step(cc, i, x), cc, zero(x)) by {
    }
    lemma_fold_records(c, passages, step, zero);
}

/// A participant stream adds one record and three per passage.
pub proof fn lemma_stream_records(
    c: RoadEditingPreflightCounts,
    x: crate::conflict_check::ParticipantStreamFields,
    namespace: Seq<u8>,
    imports: Seq<&str>,
    limits: crate::limits::CompileLimits,
)
    requires
        c.typed_ast_record_count + 1 + 3 * x.passages@.len() <= u64::MAX,
    ensures
        adds(
            crate::conflict_check::participant_stream_step(c, x, namespace, imports, limits),
            c,
            (1 + 3 * x.passages@.len()) as int,
        ),
{
    lemma_references_keep_records();
    let limit = crate::policy_check::single_string_limit(limits);
    let n = x.passages@.len();
    if let Ok(c1) = crate::preflight::token_step(
        c.with_declaration(crate::declaration::EntityKind::ParticipantStream),
        x.participant_stream_key.spec_bytes(),
        limit,
        "participantStream.participantStreamKey"@,
    ) {
        if let Ok(c2) = reference_step(c1, x.junction.spec_bytes(), 1, false, namespace, imports, limit, "participantStream.junction"@) {
            if let Ok(c3) = reference_step(
                c2,
                x.maneuver_path.spec_bytes(),
                3,
                true,
                namespace,
                imports,
                limit,
                "participantStream.maneuverPath"@,
            ) {
                let c4 = crate::policy_check::with_records(
                    crate::policy_check::with_relations(c3, n as int),
                    crate::conflict_check::triple(n) as int,
                );
                lemma_passages_records(c4, x.passages@, namespace, imports, limit);
            }
        }
    }
}

/// A curve program adds its tables: one, and two per segment.
pub proof fn lemma_curve_records(c: RoadEditingPreflightCounts, p: crate::geometry_check::CurveProgramFields, limit: u64)
    requires
        c.typed_ast_record_count + crate::source_verify::curve_tables(p) <= u64::MAX,
    ensures
        adds(crate::geometry_check::curve_step(c, p, limit), c, crate::source_verify::curve_tables(p)),
{
    let c0 = crate::geometry_check::with_points(with_records_spec(c, 1), 1);
    let step = |c: RoadEditingPreflightCounts, i: int, s: crate::geometry_check::CurveSegmentFields|
        crate::geometry_check::segment_step(c, s, limit);
    let two = |s: crate::geometry_check::CurveSegmentFields| 2int;
    lemma_sum_by_const(p.segments@, 2);
    assert forall|cc: RoadEditingPreflightCounts, i: int, x: crate::geometry_check::CurveSegmentFields|
        cc.typed_ast_record_count + two(x) <= u64::MAX implies adds(#[trigger] step(cc, i, x), cc, two(x)) by {
    }
    lemma_fold_records(c0, p.segments@, step, two);
}

/// The counts with `n` more typed records.
pub open spec fn with_records_spec(c: RoadEditingPreflightCounts, n: int) -> RoadEditingPreflightCounts {
    crate::policy_check::with_records(c, n)
}

/// An alignment adds one record and its reference line; a lane edge one and
/// its explicit geometry.
pub proof fn lemma_geometry_items_records(c: RoadEditingPreflightCounts, namespace: Seq<u8>, imports: Seq<&str>, scratch: PreflightScratch)
    ensures
        forall|x: crate::geometry_check::RoadAlignmentFields|
            c.typed_ast_record_count + crate::source_verify::alignment_tables(x) <= u64::MAX ==> adds(
                #[trigger] crate::geometry_check::alignment_step(
                    c,
                    x,
                    namespace,
                    imports,
                    crate::policy_check::single_string_limit(scratch.spec_limits()),
                ),
                c,
                crate::source_verify::alignment_tables(x),
            ),
        forall|x: crate::geometry_check::LaneEdgeFields|
            c.typed_ast_record_count + crate::source_verify::lane_edge_tables(x) <= u64::MAX ==> adds(
                #[trigger] crate::geometry_check::lane_edge_step(c, x, namespace, imports, scratch),
                c,
                crate::source_verify::lane_edge_tables(x),
            ),
{
    lemma_references_keep_records();
    lemma_reference_vectors_keep_records();
    let limit = crate::policy_check::single_string_limit(scratch.spec_limits());
    assert forall|x: crate::geometry_check::RoadAlignmentFields|
        c.typed_ast_record_count + crate::source_verify::alignment_tables(x) <= u64::MAX implies adds(
            #[trigger] crate::geometry_check::alignment_step(c, x, namespace, imports, limit),
            c,
            crate::source_verify::alignment_tables(x),
        ) by {
        if let Ok(c1) = crate::preflight::token_step(
            with_records_spec(c, 1),
            x.road_alignment_key.spec_bytes(),
            limit,
            "roadAlignment.roadAlignmentKey"@,
        ) {
            if let Ok(c2) = reference_step(c1, x.canonical_frame.spec_bytes(), 1, true, namespace, imports, limit, "roadAlignment.canonicalFrame"@) {
                lemma_curve_records(c2, x.reference_line, limit);
            }
        }
    }
    assert forall|x: crate::geometry_check::LaneEdgeFields|
        c.typed_ast_record_count + crate::source_verify::lane_edge_tables(x) <= u64::MAX implies adds(
            #[trigger] crate::geometry_check::lane_edge_step(c, x, namespace, imports, scratch),
            c,
            crate::source_verify::lane_edge_tables(x),
        ) by {
        if let Ok(c1) = crate::preflight::token_step(
            c.with_declaration(crate::declaration::EntityKind::LaneEdge),
            x.lane_edge_key.spec_bytes(),
            limit,
            "laneEdge.laneEdgeKey"@,
        ) {
            if let Ok(c2) = reference_vector_step(c1, x.successors@, 1, "laneEdge.successors"@, false, true, true, namespace, imports, scratch) {
                if let Some(g) = x.explicit_geometry {
                    lemma_curve_records(c2, g, limit);
                }
            }
        }
    }
}

/// A corridor adds one record and one per element.
pub proof fn lemma_corridor_records(
    c: RoadEditingPreflightCounts,
    x: crate::corridor_check::RoadCorridorFields,
    namespace: Seq<u8>,
    imports: Seq<&str>,
    scratch: PreflightScratch,
)
    requires
        c.typed_ast_record_count + crate::source_verify::corridor_tables(x) <= u64::MAX,
    ensures
        adds(crate::corridor_check::corridor_step(c, x, namespace, imports, scratch), c, crate::source_verify::corridor_tables(x)),
{
    lemma_references_keep_records();
    let limit = crate::policy_check::single_string_limit(scratch.spec_limits());
    if let Ok(c1) = crate::corridor_check::corridor_head_step(c, x, namespace, imports, limit) {
        if let Ok(duplicate) = crate::corridor_check::element_duplicate_request(x.elements@, namespace, scratch) {
            let step = |c: RoadEditingPreflightCounts, i: int, e: crate::corridor_check::CorridorElementFields|
                crate::corridor_check::element_step(c, i, e, x.road_corridor_key.spec_bytes(), duplicate, namespace, imports, limit);
            let one = |e: crate::corridor_check::CorridorElementFields| 1int;
            lemma_sum_by_const(x.elements@, 1);
            assert forall|cc: RoadEditingPreflightCounts, i: int, e: crate::corridor_check::CorridorElementFields|
                cc.typed_ast_record_count + one(e) <= u64::MAX implies adds(#[trigger] step(cc, i, e), cc, one(e)) by {
            }
            lemma_fold_records(
                crate::policy_check::with_relations(c1, x.elements@.len() as int),
                x.elements@,
                step,
                one,
            );
        }
    }
}

/// A road section adds one record.
pub proof fn lemma_section_items_records(
    c: RoadEditingPreflightCounts,
    corridor_keys: Seq<&str>,
    namespace: Seq<u8>,
    imports: Seq<&str>,
    scratch: PreflightScratch,
)
    ensures
        forall|x: crate::section_check::RoadSectionFields|
            c.typed_ast_record_count + 1 <= u64::MAX ==> adds(#[trigger] crate::section_check::section_step(c, x, corridor_keys, namespace, imports, scratch), c, 1),
{
    lemma_references_keep_records();
    lemma_reference_vectors_keep_records();
}

/// Charging a token list or a reference list leaves the typed records
/// alone.
pub proof fn lemma_lists_keep_records(namespace: Seq<u8>, imports: Seq<&str>, limit: u64)
    ensures
        forall|c: RoadEditingPreflightCounts, values: Seq<&str>, field: Seq<char>|
            adds(#[trigger] crate::policy_check::token_list_step(c, values, limit, field), c, 0),
        forall|c: RoadEditingPreflightCounts, values: Seq<&str>, n: u8, field: Seq<char>|
            adds(#[trigger] crate::policy_check::reference_list_step(c, values, n, namespace, imports, limit, field), c, 0),
{
    lemma_references_keep_records();
    assert forall|c: RoadEditingPreflightCounts, values: Seq<&str>, field: Seq<char>|
        adds(#[trigger] crate::policy_check::token_list_step(c, values, limit, field), c, 0) by {
        let step = |c: RoadEditingPreflightCounts, i: int, v: &str| crate::preflight::token_step(c, v.spec_bytes(), limit, field);
        let zero = |v: &str| 0int;
        lemma_sum_by_const(values, 0);
        assert forall|cc: RoadEditingPreflightCounts, i: int, x: &str|
            cc.typed_ast_record_count + zero(x) <= u64::MAX implies adds(#[trigger] step(cc, i, x), cc, zero(x)) by {
        }
        lemma_fold_records(c, values, step, zero);
    }
    assert forall|c: RoadEditingPreflightCounts, values: Seq<&str>, n: u8, field: Seq<char>|
        adds(#[trigger] crate::policy_check::reference_list_step(c, values, n, namespace, imports, limit, field), c, 0) by {
        let step = |c: RoadEditingPreflightCounts, i: int, v: &str|
            reference_step(c, v.spec_bytes(), n, true, namespace, imports, limit, field);
        let zero = |v: &str| 0int;
        lemma_sum_by_const(values, 0);
        assert forall|cc: RoadEditingPreflightCounts, i: int, x: &str|
            cc.typed_ast_record_count + zero(x) <= u64::MAX implies adds(#[trigger] step(cc, i, x), cc, zero(x)) by {
        }
        lemma_fold_records(c, values, step, zero);
    }
}

/// A policy set adds two records and one per rule and evidence entry.
pub proof fn lemma_policy_records(
    c: RoadEditingPreflightCounts,
    p: crate::policy_check::RightOfWayPolicyFields,
    namespace: Seq<u8>,
    imports: Seq<&str>,
    limit: u64,
)
    requires
        c.typed_ast_record_count + crate::source_verify::policy_tables(p) <= u64::MAX,
    ensures
        adds(crate::policy_check::policy_step(c, p, namespace, imports, limit), c, crate::source_verify::policy_tables(p)),
{
    lemma_references_keep_records();
    lemma_lists_keep_records(namespace, imports, limit);
    let zero_e = |e: crate::policy_check::PolicyEvidenceFields| 0int;
    let zero_g = |e: crate::policy_check::PolicyGapProfileFields| 0int;
    let zero_s = |e: crate::policy_check::PolicyStreamRuleFields| 0int;
    let zero_r = |e: crate::policy_check::PolicyGateRuleFields| 0int;
    let es = |c: RoadEditingPreflightCounts, i: int, e: crate::policy_check::PolicyEvidenceFields|
        crate::policy_check::evidence_step(c, e, limit);
    let gs = |c: RoadEditingPreflightCounts, i: int, g: crate::policy_check::PolicyGapProfileFields|
        crate::policy_check::gap_profile_step(c, g, limit);
    let ss = |c: RoadEditingPreflightCounts, i: int, r: crate::policy_check::PolicyStreamRuleFields|
        crate::policy_check::stream_rule_step(c, r, namespace, imports, limit);
    let rs = |c: RoadEditingPreflightCounts, i: int, r: crate::policy_check::PolicyGateRuleFields|
        crate::policy_check::gate_rule_step(c, r, namespace, imports, limit);
    lemma_sum_by_const(p.evidence@, 0);
    lemma_sum_by_const(p.gap_profiles@, 0);
    lemma_sum_by_const(p.stream_rules@, 0);
    lemma_sum_by_const(p.gate_rules@, 0);
    assert forall|cc: RoadEditingPreflightCounts, i: int, x: crate::policy_check::PolicyEvidenceFields|
        cc.typed_ast_record_count + zero_e(x) <= u64::MAX implies adds(#[trigger] es(cc, i, x), cc, zero_e(x)) by {
    }
    assert forall|cc: RoadEditingPreflightCounts, i: int, x: crate::policy_check::PolicyGapProfileFields|
        cc.typed_ast_record_count + zero_g(x) <= u64::MAX implies adds(#[trigger] gs(cc, i, x), cc, zero_g(x)) by {
    }
    assert forall|cc: RoadEditingPreflightCounts, i: int, x: crate::policy_check::PolicyStreamRuleFields|
        cc.typed_ast_record_count + zero_s(x) <= u64::MAX implies adds(#[trigger] ss(cc, i, x), cc, zero_s(x)) by {
    }
    assert forall|cc: RoadEditingPreflightCounts, i: int, x: crate::policy_check::PolicyGateRuleFields|
        cc.typed_ast_record_count + zero_r(x) <= u64::MAX implies adds(#[trigger] rs(cc, i, x), cc, zero_r(x)) by {
    }
    assert forall|c0: RoadEditingPreflightCounts|
        adds(#[trigger] crate::policy_check::policy_rules_step(c0, p, namespace, imports, limit), c0, 0) by {
        lemma_fold_records(c0, p.evidence@, es, zero_e);
        if let Ok(c1) = fold_steps(c0, p.evidence@, es) {
            lemma_fold_records(c1, p.gap_profiles@, gs, zero_g);
            if let Ok(c2) = fold_steps(c1, p.gap_profiles@, gs) {
                lemma_fold_records(c2, p.stream_rules@, ss, zero_s);
                if let Ok(c3) = fold_steps(c2, p.stream_rules@, ss) {
                    lemma_fold_records(c3, p.gate_rules@, rs, zero_r);
                }
            }
        }
    }
}

/// A source whose semantic preflight succeeds counts exactly as many typed
/// records as its accounting gives it: its wire tables but the root and the
/// provenance, plus one per movement with a turn direction, for every
/// source whose count fits in a `u64`.
pub proof fn law_record_accounting(s: RoadEditingSourceFields, limits: CompileLimits, admitted_live_bytes: u64)
    requires
        table_total(s) + direction_count(s.movements@) <= u64::MAX,
    ensures
        source_outcome(s, limits, admitted_live_bytes) is Ok ==> source_outcome(s, limits, admitted_live_bytes)->Ok_0.typed_ast_record_count
            == typed_record_count(s),
{
    reveal(table_total);
    reveal(crate::source_verify::cap);
    let s0 = PreflightScratch::fresh(limits, admitted_live_bytes);
    let fp = |p: crate::policy_check::RightOfWayPolicyFields| crate::source_verify::policy_tables(p);
    assert forall|x: crate::policy_check::RightOfWayPolicyFields| #[trigger] fp(x) >= 0 by {}
    crate::source_verify::lemma_sum_by_nonneg(s.policies@, fp);
    let d = |m: crate::junction_check::MovementFields| if m.turn_direction is Some { 1int } else { 0int };
    assert forall|x: crate::junction_check::MovementFields| #[trigger] d(x) >= 0 by {}
    crate::source_verify::lemma_sum_by_nonneg(s.movements@, d);
    crate::stage_records::lemma_records_nonneg(s);
    crate::stage_records::lemma_header_records(s.header, limits, s0);
    if let Ok(c0) = crate::header_check::header_outcome(s.header, limits, s0) {
        crate::stage_records::lemma_road_tables_records(c0, s, s0);
        if let Ok(c1) = crate::source_preflight::road_tables_outcome(c0, s, s0) {
            crate::stage_records::lemma_junction_tables_records(c1, s, s0);
            if let Ok(c2) = crate::source_preflight::junction_tables_outcome(c1, s, s0) {
                crate::stage_records::lemma_area_tables_records(c2, s, s0);
                if let Ok(c3) = crate::source_preflight::area_tables_outcome(c2, s, s0) {
                    crate::stage_records::lemma_policies_records(
                        c3,
                        s.root_slots@,
                        s.movement_slots@,
                        s.policies@,
                        s.header.authoring_namespace_id.spec_bytes(),
                        s.header.imports@,
                        limits,
                    );
                }
            }
        }
    }
}

} // verus!
