//! Field preflight of the geometry tables of a verified source: road
//! alignments and lane edges, with their curve programs.

use vstd::prelude::*;
use vstd::string::StringSliceAdditionalSpecFns;

use crate::declaration::EntityKind;
use crate::diagnostic::{DiagnosticBundle, RoadEditingInputViolation};
use crate::limits::CompileLimits;
use crate::policy_check::{single_string_limit, with_records};
use crate::preflight::{
    canvas_step, ensure_unique_strings, fold_steps, invalid_combination, lemma_fold_all, lemma_fold_extend,
    lemma_fold_stops, lemma_reference_vector_step_restored, reference_step, reference_vector_step, sat_add,
    scratch_restored, semantic_error, stage_reports, strs_repeat, token_step, unique_step,
    reference_vector_need, unique_need, validate_reference_vector, RoadEditingPreflightCounts, StageFailure,
};
use crate::scratch::{lemma_max_need_all, lemma_max_need_extend, max_nat, max_need, peak_lifted, PreflightScratch};

verus! {

/// The geometry type of a curve segment as the wire carries it.
#[derive(Clone, Copy, Debug, PartialEq, Eq, Structural)]
pub enum WireCurveSegmentGeometry {
    LineSegment,
    CubicBezierSegment,
    Other(u8),
}

/// A curve segment: its geometry type, whether the geometry value is of that
/// type, the verdict of the canonical point range on its points (the field
/// and violation of the first point out of range), its canvas selection.
#[derive(Clone, Copy, Debug)]
pub struct CurveSegmentFields<'a> {
    pub geometry_type: WireCurveSegmentGeometry,
    pub geometry_present: bool,
    pub point_violation: Option<(&'a str, RoadEditingInputViolation)>,
    pub canvas_selection: Option<&'a str>,
}

/// A curve program: the verdict of the canonical point range on its start
/// point, and its segments.
#[derive(Clone, Debug)]
pub struct CurveProgramFields<'a> {
    pub start_violation: Option<RoadEditingInputViolation>,
    pub segments: Vec<CurveSegmentFields<'a>>,
}

/// A road alignment: its key, canonical frame, reference line, canvas
/// selection.
#[derive(Clone, Debug)]
pub struct RoadAlignmentFields<'a> {
    pub road_alignment_key: &'a str,
    pub canonical_frame: &'a str,
    pub reference_line: CurveProgramFields<'a>,
    pub canvas_selection: Option<&'a str>,
}

/// A lane edge: its key, the verdict of the speed rule on its speed limit,
/// its successors, optional explicit geometry, canvas selection.
#[derive(Clone, Debug)]
pub struct LaneEdgeFields<'a> {
    pub lane_edge_key: &'a str,
    pub speed_violation: Option<RoadEditingInputViolation>,
    pub successors: Vec<&'a str>,
    pub explicit_geometry: Option<CurveProgramFields<'a>>,
    pub canvas_selection: Option<&'a str>,
}

/// The counts with `n` more authoring points.
pub open spec fn with_points(c: RoadEditingPreflightCounts, n: int) -> RoadEditingPreflightCounts {
    RoadEditingPreflightCounts { authoring_point_count: sat_add(c.authoring_point_count, n), ..c }
}

/// Checks and charges one curve segment: a line adds one point, a cubic
/// three.
pub open spec fn segment_step(c: RoadEditingPreflightCounts, s: CurveSegmentFields, limit: u64) -> Result<
    RoadEditingPreflightCounts,
    StageFailure,
> {
    let c0 = with_records(c, 2);
    if s.geometry_type is Other || !s.geometry_present {
        Err(Err(("curveSegment.geometry"@, RoadEditingInputViolation::InvalidCombination)))
    } else if s.point_violation is Some {
        Err(Err((s.point_violation->Some_0.0@, s.point_violation->Some_0.1)))
    } else {
        let points: int = if s.geometry_type is LineSegment {
            1
        } else {
            3
        };
        canvas_step(with_points(c0, points), s.canvas_selection, limit)
    }
}

/// Checks and charges a curve program: one record and one point for the
/// start, which must be in range; then at least one segment, each in order.
pub open spec fn curve_step(c: RoadEditingPreflightCounts, p: CurveProgramFields, limit: u64) -> Result<
    RoadEditingPreflightCounts,
    StageFailure,
> {
    let c0 = with_points(with_records(c, 1), 1);
    if p.start_violation is Some {
        Err(Err(("curveProgram.start"@, p.start_violation->Some_0)))
    } else if p.segments@.len() == 0 {
        Err(Err(("curveProgram.segments"@, RoadEditingInputViolation::EmptyCollection)))
    } else {
        fold_steps(c0, p.segments@, |c: RoadEditingPreflightCounts, i: int, s: CurveSegmentFields| segment_step(c, s, limit))
    }
}

/// Checks and charges one road alignment.
pub open spec fn alignment_step(
    c: RoadEditingPreflightCounts,
    x: RoadAlignmentFields,
    namespace: Seq<u8>,
    imports: Seq<&str>,
    limit: u64,
) -> Result<RoadEditingPreflightCounts, StageFailure> {
    match token_step(with_records(c, 1), x.road_alignment_key.spec_bytes(), limit, "roadAlignment.roadAlignmentKey"@) {
        Err(f) => Err(f),
        Ok(c1) => match reference_step(
            c1,
            x.canonical_frame.spec_bytes(),
            1,
            true,
            namespace,
            imports,
            limit,
            "roadAlignment.canonicalFrame"@,
        ) {
            Err(f) => Err(f),
            Ok(c2) => match curve_step(c2, x.reference_line, limit) {
                Err(f) => Err(f),
                Ok(c3) => canvas_step(c3, x.canvas_selection, limit),
            },
        },
    }
}

/// Checks and charges one lane edge.
pub open spec fn lane_edge_step(
    c: RoadEditingPreflightCounts,
    x: LaneEdgeFields,
    namespace: Seq<u8>,
    imports: Seq<&str>,
    scratch: PreflightScratch,
) -> Result<RoadEditingPreflightCounts, StageFailure> {
    let limit = single_string_limit(scratch.spec_limits());
    match token_step(c.with_declaration(EntityKind::LaneEdge), x.lane_edge_key.spec_bytes(), limit, "laneEdge.laneEdgeKey"@) {
        Err(f) => Err(f),
        Ok(c1) => if x.speed_violation is Some {
            Err(Err(("laneEdge.speedLimitMetersPerSecond"@, x.speed_violation->Some_0)))
        } else {
            match reference_vector_step(
                c1,
                x.successors@,
                1,
                "laneEdge.successors"@,
                false,
                true,
                true,
                namespace,
                imports,
                scratch,
            ) {
                Err(f) => Err(f),
                Ok(c2) => {
                    let c3 = match x.explicit_geometry {
                        None => Ok(c2),
                        Some(g) => curve_step(c2, g, limit),
                    };
                    match c3 {
                        Err(f) => Err(f),
                        Ok(c4) => canvas_step(c4, x.canvas_selection, limit),
                    }
                },
            }
        },
    }
}

/// The keys of the road alignments.
pub open spec fn alignment_keys<'a>(xs: Seq<RoadAlignmentFields<'a>>) -> Seq<&'a str> {
    xs.map_values(|x: RoadAlignmentFields<'a>| x.road_alignment_key)
}

/// The keys of the lane edges.
pub open spec fn lane_edge_keys<'a>(xs: Seq<LaneEdgeFields<'a>>) -> Seq<&'a str> {
    xs.map_values(|x: LaneEdgeFields<'a>| x.lane_edge_key)
}

/// Distinct alignment keys, then each alignment in order.
#[verifier::opaque]
pub open spec fn alignments_outcome(
    c: RoadEditingPreflightCounts,
    xs: Seq<RoadAlignmentFields>,
    namespace: Seq<u8>,
    imports: Seq<&str>,
    scratch: PreflightScratch,
) -> Result<RoadEditingPreflightCounts, StageFailure> {
    let limit = single_string_limit(scratch.spec_limits());
    match unique_step::<&str>(xs.len(), strs_repeat(alignment_keys(xs)), scratch, "roadAlignments.roadAlignmentKey"@) {
        Some(f) => Err(f),
        None => fold_steps(
            c,
            xs,
            |c: RoadEditingPreflightCounts, i: int, x: RoadAlignmentFields| alignment_step(c, x, namespace, imports, limit),
        ),
    }
}

/// Distinct lane edge keys, then each edge in order.
#[verifier::opaque]
pub open spec fn lane_edges_outcome(
    c: RoadEditingPreflightCounts,
    xs: Seq<LaneEdgeFields>,
    namespace: Seq<u8>,
    imports: Seq<&str>,
    scratch: PreflightScratch,
) -> Result<RoadEditingPreflightCounts, StageFailure> {
    match unique_step::<&str>(xs.len(), strs_repeat(lane_edge_keys(xs)), scratch, "laneEdges.laneEdgeKey"@) {
        Some(f) => Err(f),
        None => fold_steps(
            c,
            xs,
            |c: RoadEditingPreflightCounts, i: int, x: LaneEdgeFields| lane_edge_step(c, x, namespace, imports, scratch),
        ),
    }
}

/// The scratch need of the alignment stage: the index of its keys.
pub open spec fn alignments_need(xs: Seq<RoadAlignmentFields>) -> nat {
    unique_need::<&str>(xs.len())
}

/// The scratch need of one lane edge: the index of its successors.
pub open spec fn lane_edge_need<'a>() -> spec_fn(LaneEdgeFields<'a>) -> nat {
    |x: LaneEdgeFields<'a>| reference_vector_need(x.successors@.len(), true)
}

/// The scratch need of the lane edge stage: the index of its keys, or of the
/// successors of one edge.
pub open spec fn lane_edges_need(xs: Seq<LaneEdgeFields>) -> nat {
    max_nat(unique_need::<&str>(xs.len()), max_need(xs, lane_edge_need()))
}

/// Checks and charges one curve segment; see [`segment_step`].
pub fn check_curve_segment(
    usage: &mut RoadEditingPreflightCounts,
    s: &CurveSegmentFields,
    limits: &CompileLimits,
    key: &str,
) -> (r: Result<(), DiagnosticBundle>)
    ensures
        match segment_step(*old(usage), *s, single_string_limit(*limits)) {
            Ok(c) => r is Ok && *final(usage) == c,
            Err(f) => r matches Err(b) && stage_reports(b, f, key@),
        },
{
    usage.typed_ast_record_count = usage.typed_ast_record_count.saturating_add(2);
    let points: u64 = match s.geometry_type {
        WireCurveSegmentGeometry::LineSegment => 1,
        WireCurveSegmentGeometry::CubicBezierSegment => 3,
        WireCurveSegmentGeometry::Other(_) => {
            return Err(invalid_combination("curveSegment.geometry", key));
        },
    };
    if !s.geometry_present {
        return Err(invalid_combination("curveSegment.geometry", key));
    }
    if let Some((field, v)) = s.point_violation {
        return Err(semantic_error(field, v, key));
    }
    usage.authoring_point_count = usage.authoring_point_count.saturating_add(points);
    usage.charge_canvas(s.canvas_selection, limits, key)
}

/// Checks and charges a curve program; see [`curve_step`].
pub fn check_curve(
    usage: &mut RoadEditingPreflightCounts,
    p: &CurveProgramFields,
    limits: &CompileLimits,
    key: &str,
) -> (r: Result<(), DiagnosticBundle>)
    ensures
        match curve_step(*old(usage), *p, single_string_limit(*limits)) {
            Ok(c) => r is Ok && *final(usage) == c,
            Err(f) => r matches Err(b) && stage_reports(b, f, key@),
        },
{
    usage.typed_ast_record_count = usage.typed_ast_record_count.saturating_add(1);
    usage.authoring_point_count = usage.authoring_point_count.saturating_add(1);
    if let Some(v) = p.start_violation {
        return Err(semantic_error("curveProgram.start", v, key));
    }
    let segments = p.segments.as_slice();
    if segments.len() == 0 {
        return Err(semantic_error("curveProgram.segments", RoadEditingInputViolation::EmptyCollection, key));
    }
    let ghost limit = single_string_limit(*limits);
    let ghost step = |c: RoadEditingPreflightCounts, i: int, s: CurveSegmentFields| segment_step(c, s, limit);
    let ghost start = *usage;
    let mut i: usize = 0;
    while i < segments.len()
        invariant
            i <= segments@.len(),
            segments@ == p.segments@,
            p.start_violation is None,
            segments@.len() > 0,
            start == with_points(with_records(*old(usage), 1), 1),
            limit == single_string_limit(*limits),
            step == (|c: RoadEditingPreflightCounts, i: int, s: CurveSegmentFields| segment_step(c, s, limit)),
            fold_steps(start, segments@.take(i as int), step) == Ok::<RoadEditingPreflightCounts, StageFailure>(*usage),
        decreases segments@.len() - i,
    {
        proof {
            lemma_fold_extend(start, segments@, step, i as int);
        }
        match check_curve_segment(usage, &segments[i], limits, key) {
            Ok(()) => {},
            Err(e) => {
                proof {
                    lemma_fold_stops(start, segments@, step, i + 1);
                }
                return Err(e);
            },
        }
        i = i + 1;
    }
    proof {
        lemma_fold_all(start, segments@, step);
    }
    Ok(())
}

/// Checks and charges one road alignment; see [`alignment_step`].
pub fn check_road_alignment(
    usage: &mut RoadEditingPreflightCounts,
    x: &RoadAlignmentFields,
    namespace: &str,
    imports: &[&str],
    limits: &CompileLimits,
    key: &str,
) -> (r: Result<(), DiagnosticBundle>)
    ensures
        match alignment_step(*old(usage), *x, namespace.spec_bytes(), imports@, single_string_limit(*limits)) {
            Ok(c) => r is Ok && *final(usage) == c,
            Err(f) => r matches Err(b) && stage_reports(b, f, key@),
        },
{
    usage.typed_ast_record_count = usage.typed_ast_record_count.saturating_add(1);
    usage.charge_token(x.road_alignment_key, "roadAlignment.roadAlignmentKey", limits, key)?;
    usage.charge_reference(x.canonical_frame, 1, true, "roadAlignment.canonicalFrame", namespace, imports, limits, key)?;
    check_curve(usage, &x.reference_line, limits, key)?;
    usage.charge_canvas(x.canvas_selection, limits, key)
}

/// Checks and charges one lane edge; see [`lane_edge_step`].
pub fn check_lane_edge(
    usage: &mut RoadEditingPreflightCounts,
    x: &LaneEdgeFields,
    namespace: &str,
    imports: &[&str],
    scratch: &mut PreflightScratch,
    key: &str,
) -> (r: Result<(), DiagnosticBundle>)
    ensures
        match lane_edge_step(*old(usage), *x, namespace.spec_bytes(), imports@, *old(scratch)) {
            Ok(c) => r is Ok && *final(usage) == c,
            Err(f) => r matches Err(b) && stage_reports(b, f, key@),
        },
        scratch_restored(*old(scratch), *final(scratch)),
        r is Ok ==> peak_lifted(*old(scratch), *final(scratch), lane_edge_need()(*x)),
{
    let limits = *scratch.limits();
    usage.charge_declaration(EntityKind::LaneEdge);
    usage.charge_token(x.lane_edge_key, "laneEdge.laneEdgeKey", &limits, key)?;
    if let Some(v) = x.speed_violation {
        return Err(semantic_error("laneEdge.speedLimitMetersPerSecond", v, key));
    }
    validate_reference_vector(
        usage,
        x.successors.as_slice(),
        1,
        "laneEdge.successors",
        false,
        true,
        true,
        namespace,
        imports,
        scratch,
        key,
    )?;
    if let Some(g) = &x.explicit_geometry {
        check_curve(usage, g, &limits, key)?;
    }
    usage.charge_canvas(x.canvas_selection, &limits, key)
}

/// Lane edge checks read only the limits and the live bytes of the scratch
/// pass.
proof fn lemma_lane_edge_steps_restored(namespace: Seq<u8>, imports: Seq<&str>, a: PreflightScratch, b: PreflightScratch)
    requires
        scratch_restored(a, b),
    ensures
        forall|c: RoadEditingPreflightCounts, x: LaneEdgeFields|
            #[trigger] lane_edge_step(c, x, namespace, imports, a) == lane_edge_step(c, x, namespace, imports, b),
{
    assert forall|c: RoadEditingPreflightCounts, x: LaneEdgeFields|
        #[trigger] lane_edge_step(c, x, namespace, imports, a) == lane_edge_step(c, x, namespace, imports, b) by {
        assert forall|c1: RoadEditingPreflightCounts|
            reference_vector_step(c1, x.successors@, 1, "laneEdge.successors"@, false, true, true, namespace, imports, a)
                == #[trigger] reference_vector_step(c1, x.successors@, 1, "laneEdge.successors"@, false, true, true, namespace, imports, b) by {
            lemma_reference_vector_step_restored(c1, x.successors@, 1, "laneEdge.successors"@, false, namespace, imports, a, b);
        }
    }
}

/// Checks and charges the road alignments; see [`alignments_outcome`].
pub fn validate_alignments(
    usage: &mut RoadEditingPreflightCounts,
    xs: &[RoadAlignmentFields],
    namespace: &str,
    imports: &[&str],
    scratch: &mut PreflightScratch,
    key: &str,
) -> (r: Result<(), DiagnosticBundle>)
    ensures
        match alignments_outcome(*old(usage), xs@, namespace.spec_bytes(), imports@, *old(scratch)) {
            Ok(c) => r is Ok && *final(usage) == c,
            Err(f) => r matches Err(b) && stage_reports(b, f, key@),
        },
        scratch_restored(*old(scratch), *final(scratch)),
        r is Ok ==> peak_lifted(*old(scratch), *final(scratch), alignments_need(xs@)),
{
    proof {
        reveal(alignments_outcome);
    }
    let ghost s0 = *scratch;
    let limits = *scratch.limits();
    let mut keys: Vec<&str> = Vec::new();
    let mut j: usize = 0;
    while j < xs.len()
        invariant
            j <= xs@.len(),
            keys@ == alignment_keys(xs@.take(j as int)),
        decreases xs@.len() - j,
    {
        keys.push(xs[j].road_alignment_key);
        proof {
            assert(alignment_keys(xs@.take(j + 1)) =~= alignment_keys(xs@.take(j as int)).push(xs@[j as int].road_alignment_key));
        }
        j = j + 1;
    }
    proof {
        assert(xs@.take(j as int) =~= xs@);
    }
    ensure_unique_strings(keys.as_slice(), "roadAlignments.roadAlignmentKey", key, scratch)?;
    let ghost s1 = *scratch;
    let ghost limit = single_string_limit(limits);
    let ghost step = |c: RoadEditingPreflightCounts, i: int, x: RoadAlignmentFields|
        alignment_step(c, x, namespace.spec_bytes(), imports@, limit);
    let ghost start = *usage;
    let mut i: usize = 0;
    while i < xs.len()
        invariant
            i <= xs@.len(),
            s0 == *old(scratch),
            start == *old(usage),
            limits == s0.spec_limits(),
            limit == single_string_limit(limits),
            scratch_restored(s0, *scratch),
            *scratch == s1,
            alignments_outcome(start, xs@, namespace.spec_bytes(), imports@, s0) == fold_steps(start, xs@, step),
            step == (|c: RoadEditingPreflightCounts, i: int, x: RoadAlignmentFields|
                alignment_step(c, x, namespace.spec_bytes(), imports@, limit)),
            fold_steps(start, xs@.take(i as int), step) == Ok::<RoadEditingPreflightCounts, StageFailure>(*usage),
        decreases xs@.len() - i,
    {
        proof {
            lemma_fold_extend(start, xs@, step, i as int);
        }
        match check_road_alignment(usage, &xs[i], namespace, imports, &limits, key) {
            Ok(()) => {},
            Err(e) => {
                proof {
                    lemma_fold_stops(start, xs@, step, i + 1);
                }
                return Err(e);
            },
        }
        i = i + 1;
    }
    proof {
        lemma_fold_all(start, xs@, step);
    }
    Ok(())
}

/// Checks and charges the lane edges; see [`lane_edges_outcome`].
pub fn validate_lane_edges(
    usage: &mut RoadEditingPreflightCounts,
    xs: &[LaneEdgeFields],
    namespace: &str,
    imports: &[&str],
    scratch: &mut PreflightScratch,
    key: &str,
) -> (r: Result<(), DiagnosticBundle>)
    ensures
        match lane_edges_outcome(*old(usage), xs@, namespace.spec_bytes(), imports@, *old(scratch)) {
            Ok(c) => r is Ok && *final(usage) == c,
            Err(f) => r matches Err(b) && stage_reports(b, f, key@),
        },
        scratch_restored(*old(scratch), *final(scratch)),
        r is Ok ==> peak_lifted(*old(scratch), *final(scratch), lane_edges_need(xs@)),
{
    proof {
        reveal(lane_edges_outcome);
    }
    let ghost s0 = *scratch;
    let mut keys: Vec<&str> = Vec::new();
    let mut j: usize = 0;
    while j < xs.len()
        invariant
            j <= xs@.len(),
            keys@ == lane_edge_keys(xs@.take(j as int)),
        decreases xs@.len() - j,
    {
        keys.push(xs[j].lane_edge_key);
        proof {
            assert(lane_edge_keys(xs@.take(j + 1)) =~= lane_edge_keys(xs@.take(j as int)).push(xs@[j as int].lane_edge_key));
        }
        j = j + 1;
    }
    proof {
        assert(xs@.take(j as int) =~= xs@);
    }
    ensure_unique_strings(keys.as_slice(), "laneEdges.laneEdgeKey", key, scratch)?;
    let ghost s1 = *scratch;
    let ghost step = |c: RoadEditingPreflightCounts, i: int, x: LaneEdgeFields|
        lane_edge_step(c, x, namespace.spec_bytes(), imports@, s0);
    let ghost start = *usage;
    let mut i: usize = 0;
    while i < xs.len()
        invariant
            i <= xs@.len(),
            s0 == *old(scratch),
            start == *old(usage),
            scratch_restored(s0, *scratch),
            scratch_restored(s0, s1),
            peak_lifted(s1, *scratch, max_need(xs@.take(i as int), lane_edge_need())),
            lane_edges_outcome(start, xs@, namespace.spec_bytes(), imports@, s0) == fold_steps(start, xs@, step),
            step == (|c: RoadEditingPreflightCounts, i: int, x: LaneEdgeFields|
                lane_edge_step(c, x, namespace.spec_bytes(), imports@, s0)),
            fold_steps(start, xs@.take(i as int), step) == Ok::<RoadEditingPreflightCounts, StageFailure>(*usage),
        decreases xs@.len() - i,
    {
        proof {
            lemma_fold_extend(start, xs@, step, i as int);
            lemma_lane_edge_steps_restored(namespace.spec_bytes(), imports@, s0, *scratch);
            lemma_max_need_extend(xs@, lane_edge_need(), i as int);
        }
        match check_lane_edge(usage, &xs[i], namespace, imports, scratch, key) {
            Ok(()) => {},
            Err(e) => {
                proof {
                    lemma_fold_stops(start, xs@, step, i + 1);
                }
                return Err(e);
            },
        }
        i = i + 1;
    }
    proof {
        lemma_fold_all(start, xs@, step);
        lemma_max_need_all(xs@, lane_edge_need());
    }
    Ok(())
}

/// The geometry table outcomes read only the limits and the live bytes of
/// the scratch pass.
pub proof fn lemma_geometry_outcomes_restored(
    c: RoadEditingPreflightCounts,
    alignments: Seq<RoadAlignmentFields>,
    edges: Seq<LaneEdgeFields>,
    namespace: Seq<u8>,
    imports: Seq<&str>,
    a: PreflightScratch,
    b: PreflightScratch,
)
    requires
        scratch_restored(a, b),
    ensures
        alignments_outcome(c, alignments, namespace, imports, a) == alignments_outcome(c, alignments, namespace, imports, b),
        lane_edges_outcome(c, edges, namespace, imports, a) == lane_edges_outcome(c, edges, namespace, imports, b),
{
    reveal(alignments_outcome);
    reveal(lane_edges_outcome);
    lemma_lane_edge_steps_restored(namespace, imports, a, b);
    assert((|c: RoadEditingPreflightCounts, i: int, x: LaneEdgeFields| lane_edge_step(c, x, namespace, imports, a))
        =~= (|c: RoadEditingPreflightCounts, i: int, x: LaneEdgeFields| lane_edge_step(c, x, namespace, imports, b)));
}

} // verus!
