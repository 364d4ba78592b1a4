//! What follows the wire verifier for a verified road-editing source: the
//! format version and document key it carries, its table count and typed
//! record accounting against the compile limits, and the semantic preflight,
//! whose record count must match the accounting.

use vstd::prelude::*;
use vstd::string::StringSliceAdditionalSpecFns;

use crate::diagnostic::{DiagnosticBundle, RoadEditingInputViolation, RoadEditingSourceViolation};
use crate::geometry_check::CurveProgramFields;
use crate::junction_check::MovementFields;
use crate::limits::{CompileLimitDimension, CompileLimits};
use crate::preflight::{sat_add, semantic_error, stage_reports, RoadEditingPreflightCounts};
use crate::reader::{is_source_error, source_error, FORMAT_VERSION};
use crate::scratch::limit_error;
use crate::source_preflight::{preflight_source, source_outcome, RoadEditingSourceFields};
use crate::split::str_equal;

verus! {

/// `x` held at `u64::MAX`.
#[verifier::opaque]
pub open spec fn cap(x: int) -> u64 {
    if x > u64::MAX {
        u64::MAX
    } else if x < 0 {
        0
    } else {
        x as u64
    }
}

/// The sum of `f` over `s`.
pub open spec fn sum_by<T>(s: Seq<T>, f: spec_fn(T) -> int) -> int
    decreases s.len(),
{
    if s.len() == 0 {
        0
    } else {
        sum_by(s.drop_last(), f) + f(s.last())
    }
}

/// One more item adds its term to the sum.
pub proof fn lemma_sum_by_extend<T>(s: Seq<T>, f: spec_fn(T) -> int, i: int)
    requires
        0 <= i < s.len(),
    ensures
        sum_by(s.take(i + 1), f) == sum_by(s.take(i), f) + f(s[i]),
{
    assert(s.take(i + 1).drop_last() =~= s.take(i));
}

/// A sum of non-negative terms is non-negative.
pub proof fn lemma_sum_by_nonneg<T>(s: Seq<T>, f: spec_fn(T) -> int)
    requires
        forall|x: T| #[trigger] f(x) >= 0,
    ensures
        sum_by(s, f) >= 0,
    decreases s.len(),
{
    if s.len() > 0 {
        lemma_sum_by_nonneg(s.drop_last(), f);
    }
}

/// The tables of a curve program: itself and two per segment.
pub open spec fn curve_tables(p: CurveProgramFields) -> int {
    (1 + 2 * p.segments@.len()) as int
}

/// The tables of a policy set: itself, its regulation and each rule.
pub open spec fn policy_tables(p: crate::policy_check::RightOfWayPolicyFields) -> int {
    (2 + p.evidence@.len() + p.gap_profiles@.len() + p.stream_rules@.len() + p.gate_rules@.len()) as int
}

/// The tables of an alignment: itself and its reference line.
pub open spec fn alignment_tables(a: crate::geometry_check::RoadAlignmentFields) -> int {
    1 + curve_tables(a.reference_line)
}

/// The tables of a corridor: itself and its elements.
pub open spec fn corridor_tables(c: crate::corridor_check::RoadCorridorFields) -> int {
    (1 + c.elements@.len()) as int
}

/// The tables of a lane edge: itself and its explicit geometry.
pub open spec fn lane_edge_tables(e: crate::geometry_check::LaneEdgeFields) -> int {
    1 + match e.explicit_geometry {
        Some(g) => curve_tables(g),
        None => 0,
    }
}

/// The tables of a signal phase: itself and its states.
pub open spec fn phase_tables(p: crate::links::SignalPhaseLinks) -> int {
    (1 + p.states@.len()) as int
}

/// The tables of a parking facility: itself and its virtual anchors.
pub open spec fn facility_tables(f: crate::parking_check::ParkingFacilityFields) -> int {
    (1 + f.virtual_entries@.len() + f.virtual_exits@.len()) as int
}

/// The tables of an access rule: itself and its regulation.
pub open spec fn access_rule_tables(r: crate::access_check::AccessRuleFields) -> int {
    if r.regulation is Some {
        2
    } else {
        1
    }
}

/// The tables of a participant stream: itself and three per passage.
pub open spec fn stream_tables(p: crate::conflict_check::ParticipantStreamFields) -> int {
    (1 + 3 * p.passages@.len()) as int
}

/// The wire tables of a source: the root, its header and provenance, and
/// every table each vector holds, nested ones included.
#[verifier::opaque]
pub open spec fn table_total(s: RoadEditingSourceFields) -> int {
    3 + sum_by(s.policies@, |p: crate::policy_check::RightOfWayPolicyFields| policy_tables(p))
        + sum_by(s.road_alignments@, |a: crate::geometry_check::RoadAlignmentFields| alignment_tables(a))
        + sum_by(s.road_corridors@, |c: crate::corridor_check::RoadCorridorFields| corridor_tables(c))
        + s.road_sections@.len() + s.authoring_lanes@.len()
        + sum_by(s.lane_edges@, |e: crate::geometry_check::LaneEdgeFields| lane_edge_tables(e))
        + s.junctions@.len() + s.movements@.len() + s.maneuver_paths@.len() + s.maneuver_gates@.len()
        + s.waiting_zones@.len() + s.stop_lines@.len() + s.signal_groups@.len() + s.signal_controllers@.len()
        + sum_by(s.signal_phases@, |p: crate::links::SignalPhaseLinks| phase_tables(p))
        + sum_by(s.parking_facilities@, |f: crate::parking_check::ParkingFacilityFields| facility_tables(f))
        + 4 * s.parking_spaces@.len() + s.lane_groups@.len() + s.facility_bands@.len() + s.participant_classes@.len()
        + sum_by(s.access_rules@, |r: crate::access_check::AccessRuleFields| access_rule_tables(r))
        + 2 * s.vehicle_profiles@.len() + s.canonical_frames@.len() + s.conflict_zones@.len()
        + sum_by(s.participant_streams@, |p: crate::conflict_check::ParticipantStreamFields| stream_tables(p))
        + s.conflict_zone_regions@.len()
}

/// Two capped non-negative amounts add, with saturation, to their capped sum.
pub proof fn lemma_cap_add(x: int, y: int)
    requires
        0 <= x,
        0 <= y,
    ensures
        sat_add(cap(x), cap(y) as int) == cap(x + y),
{
    reveal(cap);
}

/// The movements that carry a turn direction.
pub open spec fn direction_count(ms: Seq<MovementFields>) -> int {
    sum_by(ms, |m: MovementFields| if m.turn_direction is Some { 1int } else { 0int })
}

/// The tables of a curve program; see [`curve_tables`].
fn curve_table_count(p: &CurveProgramFields) -> (r: u64)
    ensures
        r == cap(curve_tables(*p)),
{
    proof {
        reveal(cap);
    }
    let n = p.segments.len() as u64;
    let twice = match n.checked_mul(2) {
        Some(v) => v,
        None => u64::MAX,
    };
    1u64.saturating_add(twice)
}

/// The tables of the policy sets, held at `u64::MAX`.
fn policy_table_sum(xs: &[crate::policy_check::RightOfWayPolicyFields]) -> (r: u64)
    ensures
        r == cap(sum_by(xs@, |x: crate::policy_check::RightOfWayPolicyFields| policy_tables(x))),
{
    let ghost f = |x: crate::policy_check::RightOfWayPolicyFields| policy_tables(x);
    let mut count: u64 = 0;
    proof {
        reveal(cap);
    }
    let mut i: usize = 0;
    while i < xs.len()
        invariant
            i <= xs@.len(),
            f == (|x: crate::policy_check::RightOfWayPolicyFields| policy_tables(x)),
            count == cap(sum_by(xs@.take(i as int), f)),
        decreases xs@.len() - i,
    {
        let x = &xs[i];
        let mut t: u64 = 2;
        t = t.saturating_add(x.evidence.len() as u64);
        t = t.saturating_add(x.gap_profiles.len() as u64);
        t = t.saturating_add(x.stream_rules.len() as u64);
        t = t.saturating_add(x.gate_rules.len() as u64);
        proof {
            reveal(cap);
            lemma_sum_by_extend(xs@, f, i as int);
            assert forall|y: crate::policy_check::RightOfWayPolicyFields| #[trigger] f(y) >= 0 by {}
            lemma_sum_by_nonneg(xs@.take(i as int), f);
            lemma_cap_add(sum_by(xs@.take(i as int), f), policy_tables(xs@[i as int]));
        }
        count = count.saturating_add(t);
        i = i + 1;
    }
    proof {
        assert(xs@.take(xs@.len() as int) =~= xs@);
    }
    count
}

/// The tables of the road alignments, held at `u64::MAX`.
fn alignment_table_sum(xs: &[crate::geometry_check::RoadAlignmentFields]) -> (r: u64)
    ensures
        r == cap(sum_by(xs@, |x: crate::geometry_check::RoadAlignmentFields| alignment_tables(x))),
{
    let ghost f = |x: crate::geometry_check::RoadAlignmentFields| alignment_tables(x);
    let mut count: u64 = 0;
    proof {
        reveal(cap);
    }
    let mut i: usize = 0;
    while i < xs.len()
        invariant
            i <= xs@.len(),
            f == (|x: crate::geometry_check::RoadAlignmentFields| alignment_tables(x)),
            count == cap(sum_by(xs@.take(i as int), f)),
        decreases xs@.len() - i,
    {
        let x = &xs[i];
        let t: u64 = 1u64.saturating_add(curve_table_count(&x.reference_line));
        proof {
            reveal(cap);
            lemma_sum_by_extend(xs@, f, i as int);
            assert forall|y: crate::geometry_check::RoadAlignmentFields| #[trigger] f(y) >= 0 by {}
            lemma_sum_by_nonneg(xs@.take(i as int), f);
            lemma_cap_add(sum_by(xs@.take(i as int), f), alignment_tables(xs@[i as int]));
        }
        count = count.saturating_add(t);
        i = i + 1;
    }
    proof {
        assert(xs@.take(xs@.len() as int) =~= xs@);
    }
    count
}

/// The tables of the road corridors, held at `u64::MAX`.
fn corridor_table_sum(xs: &[crate::corridor_check::RoadCorridorFields]) -> (r: u64)
    ensures
        r == cap(sum_by(xs@, |x: crate::corridor_check::RoadCorridorFields| corridor_tables(x))),
{
    let ghost f = |x: crate::corridor_check::RoadCorridorFields| corridor_tables(x);
    let mut count: u64 = 0;
    proof {
        reveal(cap);
    }
    let mut i: usize = 0;
    while i < xs.len()
        invariant
            i <= xs@.len(),
            f == (|x: crate::corridor_check::RoadCorridorFields| corridor_tables(x)),
            count == cap(sum_by(xs@.take(i as int), f)),
        decreases xs@.len() - i,
    {
        let x = &xs[i];
        let t: u64 = 1u64.saturating_add(x.elements.len() as u64);
        proof {
            reveal(cap);
            lemma_sum_by_extend(xs@, f, i as int);
            assert forall|y: crate::corridor_check::RoadCorridorFields| #[trigger] f(y) >= 0 by {}
            lemma_sum_by_nonneg(xs@.take(i as int), f);
            lemma_cap_add(sum_by(xs@.take(i as int), f), corridor_tables(xs@[i as int]));
        }
        count = count.saturating_add(t);
        i = i + 1;
    }
    proof {
        assert(xs@.take(xs@.len() as int) =~= xs@);
    }
    count
}

/// The tables of the lane edges, held at `u64::MAX`.
fn lane_edge_table_sum(xs: &[crate::geometry_check::LaneEdgeFields]) -> (r: u64)
    ensures
        r == cap(sum_by(xs@, |x: crate::geometry_check::LaneEdgeFields| lane_edge_tables(x))),
{
    let ghost f = |x: crate::geometry_check::LaneEdgeFields| lane_edge_tables(x);
    let mut count: u64 = 0;
    proof {
        reveal(cap);
    }
    let mut i: usize = 0;
    while i < xs.len()
        invariant
            i <= xs@.len(),
            f == (|x: crate::geometry_check::LaneEdgeFields| lane_edge_tables(x)),
            count == cap(sum_by(xs@.take(i as int), f)),
        decreases xs@.len() - i,
    {
        let x = &xs[i];
        let t: u64 = match &x.explicit_geometry {
            Some(g) => 1u64.saturating_add(curve_table_count(g)),
            None => 1,
        };
        proof {
            reveal(cap);
            lemma_sum_by_extend(xs@, f, i as int);
            assert forall|y: crate::geometry_check::LaneEdgeFields| #[trigger] f(y) >= 0 by {}
            lemma_sum_by_nonneg(xs@.take(i as int), f);
            lemma_cap_add(sum_by(xs@.take(i as int), f), lane_edge_tables(xs@[i as int]));
        }
        count = count.saturating_add(t);
        i = i + 1;
    }
    proof {
        assert(xs@.take(xs@.len() as int) =~= xs@);
    }
    count
}

/// The tables of the signal phases, held at `u64::MAX`.
fn phase_table_sum(xs: &[crate::links::SignalPhaseLinks]) -> (r: u64)
    ensures
        r == cap(sum_by(xs@, |x: crate::links::SignalPhaseLinks| phase_tables(x))),
{
    let ghost f = |x: crate::links::SignalPhaseLinks| phase_tables(x);
    let mut count: u64 = 0;
    proof {
        reveal(cap);
    }
    let mut i: usize = 0;
    while i < xs.len()
        invariant
            i <= xs@.len(),
            f == (|x: crate::links::SignalPhaseLinks| phase_tables(x)),
            count == cap(sum_by(xs@.take(i as int), f)),
        decreases xs@.len() - i,
    {
        let x = &xs[i];
        let t: u64 = 1u64.saturating_add(x.states.len() as u64);
        proof {
            reveal(cap);
            lemma_sum_by_extend(xs@, f, i as int);
            assert forall|y: crate::links::SignalPhaseLinks| #[trigger] f(y) >= 0 by {}
            lemma_sum_by_nonneg(xs@.take(i as int), f);
            lemma_cap_add(sum_by(xs@.take(i as int), f), phase_tables(xs@[i as int]));
        }
        count = count.saturating_add(t);
        i = i + 1;
    }
    proof {
        assert(xs@.take(xs@.len() as int) =~= xs@);
    }
    count
}

/// The tables of the parking facilities, held at `u64::MAX`.
fn facility_table_sum(xs: &[crate::parking_check::ParkingFacilityFields]) -> (r: u64)
    ensures
        r == cap(sum_by(xs@, |x: crate::parking_check::ParkingFacilityFields| facility_tables(x))),
{
    let ghost f = |x: crate::parking_check::ParkingFacilityFields| facility_tables(x);
    let mut count: u64 = 0;
    proof {
        reveal(cap);
    }
    let mut i: usize = 0;
    while i < xs.len()
        invariant
            i <= xs@.len(),
            f == (|x: crate::parking_check::ParkingFacilityFields| facility_tables(x)),
            count == cap(sum_by(xs@.take(i as int), f)),
        decreases xs@.len() - i,
    {
        let x = &xs[i];
        let t: u64 = 1u64.saturating_add(x.virtual_entries.len() as u64).saturating_add(x.virtual_exits.len() as u64);
        proof {
            reveal(cap);
            lemma_sum_by_extend(xs@, f, i as int);
            assert forall|y: crate::parking_check::ParkingFacilityFields| #[trigger] f(y) >= 0 by {}
            lemma_sum_by_nonneg(xs@.take(i as int), f);
            lemma_cap_add(sum_by(xs@.take(i as int), f), facility_tables(xs@[i as int]));
        }
        count = count.saturating_add(t);
        i = i + 1;
    }
    proof {
        assert(xs@.take(xs@.len() as int) =~= xs@);
    }
    count
}

/// The tables of the access rules, held at `u64::MAX`.
fn access_rule_table_sum(xs: &[crate::access_check::AccessRuleFields]) -> (r: u64)
    ensures
        r == cap(sum_by(xs@, |x: crate::access_check::AccessRuleFields| access_rule_tables(x))),
{
    let ghost f = |x: crate::access_check::AccessRuleFields| access_rule_tables(x);
    let mut count: u64 = 0;
    proof {
        reveal(cap);
    }
    let mut i: usize = 0;
    while i < xs.len()
        invariant
            i <= xs@.len(),
            f == (|x: crate::access_check::AccessRuleFields| access_rule_tables(x)),
            count == cap(sum_by(xs@.take(i as int), f)),
        decreases xs@.len() - i,
    {
        let x = &xs[i];
        let t: u64 = if x.regulation.is_some() {
            2
        } else {
            1
        };
        proof {
            reveal(cap);
            lemma_sum_by_extend(xs@, f, i as int);
            assert forall|y: crate::access_check::AccessRuleFields| #[trigger] f(y) >= 0 by {}
            lemma_sum_by_nonneg(xs@.take(i as int), f);
            lemma_cap_add(sum_by(xs@.take(i as int), f), access_rule_tables(xs@[i as int]));
        }
        count = count.saturating_add(t);
        i = i + 1;
    }
    proof {
        assert(xs@.take(xs@.len() as int) =~= xs@);
    }
    count
}

/// The tables of the participant streams, held at `u64::MAX`.
fn stream_table_sum(xs: &[crate::conflict_check::ParticipantStreamFields]) -> (r: u64)
    ensures
        r == cap(sum_by(xs@, |x: crate::conflict_check::ParticipantStreamFields| stream_tables(x))),
{
    let ghost f = |x: crate::conflict_check::ParticipantStreamFields| stream_tables(x);
    let mut count: u64 = 0;
    proof {
        reveal(cap);
    }
    let mut i: usize = 0;
    while i < xs.len()
        invariant
            i <= xs@.len(),
            f == (|x: crate::conflict_check::ParticipantStreamFields| stream_tables(x)),
            count == cap(sum_by(xs@.take(i as int), f)),
        decreases xs@.len() - i,
    {
        let x = &xs[i];
        let passages = x.passages.len() as u64;
        let t: u64 = 1u64.saturating_add(match passages.checked_mul(3) {
            Some(v) => v,
            None => u64::MAX,
        });
        proof {
            reveal(cap);
            lemma_sum_by_extend(xs@, f, i as int);
            assert forall|y: crate::conflict_check::ParticipantStreamFields| #[trigger] f(y) >= 0 by {}
            lemma_sum_by_nonneg(xs@.take(i as int), f);
            lemma_cap_add(sum_by(xs@.take(i as int), f), stream_tables(xs@[i as int]));
        }
        count = count.saturating_add(t);
        i = i + 1;
    }
    proof {
        assert(xs@.take(xs@.len() as int) =~= xs@);
    }
    count
}

/// `n k`, held at `u64::MAX`.
fn times(n: u64, k: u64) -> (r: u64)
    ensures
        r == cap(n * k),
{
    proof {
        reveal(cap);
    }
    match n.checked_mul(k) {
        Some(v) => v,
        None => u64::MAX,
    }
}

/// Counts the wire tables of a source, held at `u64::MAX`; see
/// [`table_total`].
pub fn table_count(s: &RoadEditingSourceFields) -> (r: u64)
    ensures
        r == cap(table_total(*s)),
{
    let ghost fp = |p: crate::policy_check::RightOfWayPolicyFields| policy_tables(p);
    let ghost fa = |a: crate::geometry_check::RoadAlignmentFields| alignment_tables(a);
    let ghost fc = |c: crate::corridor_check::RoadCorridorFields| corridor_tables(c);
    let ghost fe = |e: crate::geometry_check::LaneEdgeFields| lane_edge_tables(e);
    let ghost fh = |p: crate::links::SignalPhaseLinks| phase_tables(p);
    let ghost ff = |f: crate::parking_check::ParkingFacilityFields| facility_tables(f);
    let ghost fr = |r: crate::access_check::AccessRuleFields| access_rule_tables(r);
    let ghost fs = |p: crate::conflict_check::ParticipantStreamFields| stream_tables(p);
    proof {
        assert forall|x: crate::policy_check::RightOfWayPolicyFields| #[trigger] fp(x) >= 0 by {}
        assert forall|x: crate::geometry_check::RoadAlignmentFields| #[trigger] fa(x) >= 0 by {}
        assert forall|x: crate::corridor_check::RoadCorridorFields| #[trigger] fc(x) >= 0 by {}
        assert forall|x: crate::geometry_check::LaneEdgeFields| #[trigger] fe(x) >= 0 by {}
        assert forall|x: crate::links::SignalPhaseLinks| #[trigger] fh(x) >= 0 by {}
        assert forall|x: crate::parking_check::ParkingFacilityFields| #[trigger] ff(x) >= 0 by {}
        assert forall|x: crate::access_check::AccessRuleFields| #[trigger] fr(x) >= 0 by {}
        assert forall|x: crate::conflict_check::ParticipantStreamFields| #[trigger] fs(x) >= 0 by {}
        lemma_sum_by_nonneg(s.policies@, fp);
        lemma_sum_by_nonneg(s.road_alignments@, fa);
        lemma_sum_by_nonneg(s.road_corridors@, fc);
        lemma_sum_by_nonneg(s.lane_edges@, fe);
        lemma_sum_by_nonneg(s.signal_phases@, fh);
        lemma_sum_by_nonneg(s.parking_facilities@, ff);
        lemma_sum_by_nonneg(s.access_rules@, fr);
        lemma_sum_by_nonneg(s.participant_streams@, fs);
    }
    let mut count: u64 = 3;
    let ghost mut acc: int = 3;
    proof {
        reveal(cap);
    }
    proof {
        lemma_cap_add(acc, sum_by(s.policies@, fp));
        acc = acc + sum_by(s.policies@, fp);
    }
    count = count.saturating_add(policy_table_sum(s.policies.as_slice()));
    proof {
        lemma_cap_add(acc, sum_by(s.road_alignments@, fa));
        acc = acc + sum_by(s.road_alignments@, fa);
    }
    count = count.saturating_add(alignment_table_sum(s.road_alignments.as_slice()));
    proof {
        lemma_cap_add(acc, sum_by(s.road_corridors@, fc));
        acc = acc + sum_by(s.road_corridors@, fc);
    }
    count = count.saturating_add(corridor_table_sum(s.road_corridors.as_slice()));
    proof {
        lemma_cap_add(acc, s.road_sections@.len() as int);
        acc = acc + s.road_sections@.len() as int;
    }
    count = count.saturating_add(s.road_sections.len() as u64);
    proof {
        lemma_cap_add(acc, s.authoring_lanes@.len() as int);
        acc = acc + s.authoring_lanes@.len() as int;
    }
    count = count.saturating_add(s.authoring_lanes.len() as u64);
    proof {
        lemma_cap_add(acc, sum_by(s.lane_edges@, fe));
        acc = acc + sum_by(s.lane_edges@, fe);
    }
    count = count.saturating_add(lane_edge_table_sum(s.lane_edges.as_slice()));
    proof {
        lemma_cap_add(acc, s.junctions@.len() as int);
        acc = acc + s.junctions@.len() as int;
    }
    count = count.saturating_add(s.junctions.len() as u64);
    proof {
        lemma_cap_add(acc, s.movements@.len() as int);
        acc = acc + s.movements@.len() as int;
    }
    count = count.saturating_add(s.movements.len() as u64);
    proof {
        lemma_cap_add(acc, s.maneuver_paths@.len() as int);
        acc = acc + s.maneuver_paths@.len() as int;
    }
    count = count.saturating_add(s.maneuver_paths.len() as u64);
    proof {
        lemma_cap_add(acc, s.maneuver_gates@.len() as int);
        acc = acc + s.maneuver_gates@.len() as int;
    }
    count = count.saturating_add(s.maneuver_gates.len() as u64);
    proof {
        lemma_cap_add(acc, s.waiting_zones@.len() as int);
        acc = acc + s.waiting_zones@.len() as int;
    }
    count = count.saturating_add(s.waiting_zones.len() as u64);
    proof {
        lemma_cap_add(acc, s.stop_lines@.len() as int);
        acc = acc + s.stop_lines@.len() as int;
    }
    count = count.saturating_add(s.stop_lines.len() as u64);
    proof {
        lemma_cap_add(acc, s.signal_groups@.len() as int);
        acc = acc + s.signal_groups@.len() as int;
    }
    count = count.saturating_add(s.signal_groups.len() as u64);
    proof {
        lemma_cap_add(acc, s.signal_controllers@.len() as int);
        acc = acc + s.signal_controllers@.len() as int;
    }
    count = count.saturating_add(s.signal_controllers.len() as u64);
    proof {
        lemma_cap_add(acc, sum_by(s.signal_phases@, fh));
        acc = acc + sum_by(s.signal_phases@, fh);
    }
    count = count.saturating_add(phase_table_sum(s.signal_phases.as_slice()));
    proof {
        lemma_cap_add(acc, sum_by(s.parking_facilities@, ff));
        acc = acc + sum_by(s.parking_facilities@, ff);
    }
    count = count.saturating_add(facility_table_sum(s.parking_facilities.as_slice()));
    proof {
        lemma_cap_add(acc, (4 * s.parking_spaces@.len()) as int);
        acc = acc + (4 * s.parking_spaces@.len()) as int;
    }
    count = count.saturating_add(times(s.parking_spaces.len() as u64, 4));
    proof {
        lemma_cap_add(acc, s.lane_groups@.len() as int);
        acc = acc + s.lane_groups@.len() as int;
    }
    count = count.saturating_add(s.lane_groups.len() as u64);
    proof {
        lemma_cap_add(acc, s.facility_bands@.len() as int);
        acc = acc + s.facility_bands@.len() as int;
    }
    count = count.saturating_add(s.facility_bands.len() as u64);
    proof {
        lemma_cap_add(acc, s.participant_classes@.len() as int);
        acc = acc + s.participant_classes@.len() as int;
    }
    count = count.saturating_add(s.participant_classes.len() as u64);
    proof {
        lemma_cap_add(acc, sum_by(s.access_rules@, fr));
        acc = acc + sum_by(s.access_rules@, fr);
    }
    count = count.saturating_add(access_rule_table_sum(s.access_rules.as_slice()));
    proof {
        lemma_cap_add(acc, (2 * s.vehicle_profiles@.len()) as int);
        acc = acc + (2 * s.vehicle_profiles@.len()) as int;
    }
    count = count.saturating_add(times(s.vehicle_profiles.len() as u64, 2));
    proof {
        lemma_cap_add(acc, s.canonical_frames@.len() as int);
        acc = acc + s.canonical_frames@.len() as int;
    }
    count = count.saturating_add(s.canonical_frames.len() as u64);
    proof {
        lemma_cap_add(acc, s.conflict_zones@.len() as int);
        acc = acc + s.conflict_zones@.len() as int;
    }
    count = count.saturating_add(s.conflict_zones.len() as u64);
    proof {
        lemma_cap_add(acc, sum_by(s.participant_streams@, fs));
        acc = acc + sum_by(s.participant_streams@, fs);
    }
    count = count.saturating_add(stream_table_sum(s.participant_streams.as_slice()));
    proof {
        lemma_cap_add(acc, s.conflict_zone_regions@.len() as int);
        acc = acc + s.conflict_zone_regions@.len() as int;
    }
    count = count.saturating_add(s.conflict_zone_regions.len() as u64);
    proof {
        reveal(table_total);
    }
    count
}

/// Counts the movements that carry a turn direction; see
/// [`direction_count`].
pub fn count_directions(ms: &[MovementFields]) -> (r: u64)
    ensures
        r == direction_count(ms@),
{
    let ghost f = |m: MovementFields| if m.turn_direction is Some { 1int } else { 0int };
    let mut count: u64 = 0;
    let mut i: usize = 0;
    while i < ms.len()
        invariant
            i <= ms@.len(),
            f == (|m: MovementFields| if m.turn_direction is Some { 1int } else { 0int }),
            count == sum_by(ms@.take(i as int), f),
            count <= i,
        decreases ms@.len() - i,
    {
        proof {
            lemma_sum_by_extend(ms@, f, i as int);
        }
        if ms[i].turn_direction.is_some() {
            count = count + 1;
        }
        i = i + 1;
    }
    proof {
        assert(ms@.take(ms@.len() as int) =~= ms@);
    }
    count
}

/// The typed records of a source: its tables but the root and the
/// provenance, and one more per movement with a turn direction.
pub open spec fn typed_record_count(s: RoadEditingSourceFields) -> u64 {
    let tables = cap(table_total(s));
    let physical: u64 = if tables < 2 {
        0
    } else {
        (tables - 2) as u64
    };
    sat_add(physical, direction_count(s.movements@))
}

/// Whether `b` reports a document key mismatch for `expected_key`, carrying
/// the actual key only when it is within the single-string limit.
pub open spec fn reports_key_mismatch(b: DiagnosticBundle, expected_key: Seq<char>, actual_key: &str, limit: u64) -> bool {
    &&& b.diagnostics@.len() == 1
    &&& !b.truncated
    &&& b.diagnostics@[0].payload is InvalidRoadEditingSource
    &&& b.diagnostics@[0].payload->InvalidRoadEditingSource_violation == RoadEditingSourceViolation::SourceDocumentKeyMismatch
    &&& b.diagnostics@[0].payload->InvalidRoadEditingSource_field is None
    &&& b.diagnostics@[0].payload->InvalidRoadEditingSource_expected_key@ == expected_key
    &&& if actual_key.spec_bytes().len() <= limit {
        b.diagnostics@[0].payload->InvalidRoadEditingSource_actual_key matches Some(a) && a@ == actual_key@
    } else {
        b.diagnostics@[0].payload->InvalidRoadEditingSource_actual_key is None
    }
}

/// Finishes the verification of a source that the wire verifier accepted
/// with format version `format_version`: the version and document key, the
/// typed record accounting after `typed_ast_records_already_admitted`
/// records of other modules, the semantic preflight, and the agreement of
/// its record count with the accounting.
pub fn check_verified_source(
    s: &RoadEditingSourceFields,
    format_version: u32,
    limits: &CompileLimits,
    expected_key: &str,
    typed_ast_records_already_admitted: u64,
    admitted_live_bytes: u64,
) -> (r: Result<RoadEditingPreflightCounts, DiagnosticBundle>)
    requires
        crate::source_preflight::links_match(*s),
    ensures
        format_version != FORMAT_VERSION ==> (r matches Err(b) && is_source_error(
            b,
            RoadEditingSourceViolation::UnsupportedFormatVersion { expected: FORMAT_VERSION, actual: format_version },
            expected_key@,
        )),
        format_version == FORMAT_VERSION && s.header.source_document_key.spec_bytes() != expected_key.spec_bytes() ==> (
        r matches Err(b) && reports_key_mismatch(
            b,
            expected_key@,
            s.header.source_document_key,
            limits.spec_value(CompileLimitDimension::SingleStringBytes),
        )),
        format_version == FORMAT_VERSION && s.header.source_document_key.spec_bytes() == expected_key.spec_bytes() ==> {
            let typed = typed_record_count(*s);
            let total = sat_add(typed_ast_records_already_admitted, typed as int);
            let typed_limit = limits.spec_value(CompileLimitDimension::TypedAstRecordCount);
            if total > typed_limit {
                r matches Err(b) && b.is_limit_error(CompileLimitDimension::TypedAstRecordCount, typed_limit, total)
            } else {
                match source_outcome(*s, *limits, admitted_live_bytes) {
                    Err(f) => r matches Err(b) && stage_reports(b, f, expected_key@),
                    Ok(c) => if c.typed_ast_record_count != typed {
                        r matches Err(b) && b.is_semantic_error(
                            "roadEditingSource.recordAccounting"@,
                            RoadEditingInputViolation::InvalidCombination,
                            expected_key@,
                        )
                    } else {
                        r matches Ok(u) && u == (RoadEditingPreflightCounts {
                            preflight_peak_scratch_bytes: u.preflight_peak_scratch_bytes,
                            ..c
                        })
                    },
                }
            }
        },
        r matches Ok(u) ==> crate::scratch::peak_within_limits(
            *limits,
            admitted_live_bytes,
            u.preflight_peak_scratch_bytes,
        ),
        r matches Ok(u) ==> u.preflight_peak_scratch_bytes == crate::source_preflight::source_peak_scratch_bytes(*s),
        r is Ok ==> crate::links::owners_declared(s.links),
        r is Ok ==> crate::links::signal_references_declared(s.links),
{
    if format_version != FORMAT_VERSION {
        return Err(
            source_error(
                RoadEditingSourceViolation::UnsupportedFormatVersion { expected: FORMAT_VERSION, actual: format_version },
                expected_key,
                None,
            ),
        );
    }
    let actual_key = s.header.source_document_key;
    if !str_equal(actual_key, expected_key) {
        let bounded = if (actual_key.as_bytes().len() as u64) <= limits.value(CompileLimitDimension::SingleStringBytes) {
            Some(actual_key)
        } else {
            None
        };
        return Err(source_error(RoadEditingSourceViolation::SourceDocumentKeyMismatch, expected_key, bounded));
    }
    let tables = table_count(s);
    let directions = count_directions(s.movements.as_slice());
    let typed = tables.saturating_sub(2).saturating_add(directions);
    let typed_limit = limits.value(CompileLimitDimension::TypedAstRecordCount);
    let total = typed_ast_records_already_admitted.saturating_add(typed);
    if total > typed_limit {
        return Err(limit_error(CompileLimitDimension::TypedAstRecordCount, typed_limit, total));
    }
    let counts = preflight_source(s, limits, expected_key, admitted_live_bytes)?;
    if counts.typed_ast_record_count != typed {
        return Err(
            semantic_error("roadEditingSource.recordAccounting", RoadEditingInputViolation::InvalidCombination, expected_key),
        );
    }
    Ok(counts)
}

} // verus!
