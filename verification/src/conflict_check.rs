//! Field preflight of the conflict tables of a verified source: conflict
//! zones, participant streams with their passages, and conflict zone regions.

use vstd::prelude::*;
use vstd::string::StringSliceAdditionalSpecFns;

use crate::declaration::{EntityKind, MAX_CONFLICT_ZONE_REGION_RING_POINTS};
use crate::diagnostic::{DiagnosticBundle, RoadEditingInputViolation};
use crate::limits::{CompileLimitDimension, CompileLimits};
use crate::policy_check::{single_string_limit, with_records, with_relations};
use crate::preflight::{
    canvas_step, ensure_unique_by, fold_steps, has_duplicate, invalid_combination, lemma_fold_all,
    lemma_fold_extend, lemma_fold_stops, reference_parts_spec, reference_step, references_equal, sat_add,
    scratch_restored, semantic_error, stage_reports, token_step, unique_need, unique_step, RoadEditingPreflightCounts,
    StageFailure,
};
use crate::scratch::{max_nat, peak_lifted, PreflightScratch};

verus! {

/// A conflict zone: its junction, its key, its canvas selection.
#[derive(Clone, Copy, Debug)]
pub struct ConflictZoneFields<'a> {
    pub junction: &'a str,
    pub conflict_zone_key: &'a str,
    pub canvas_selection: Option<&'a str>,
}

/// The kind of a path anchor as the wire carries it.
#[derive(Clone, Copy, Debug, PartialEq, Eq, Structural)]
pub enum WirePathAnchorKind {
    Gate,
    EdgeBoundary,
    Interior,
    Other(u8),
}

/// A path anchor: its kind, optional gate, boundary and edge indices, whether
/// its progress is exactly positive zero, and the verdict of the interior
/// progress rule on its progress.
#[derive(Clone, Copy, Debug)]
pub struct PathAnchorFields<'a> {
    pub kind: WirePathAnchorKind,
    pub gate: Option<&'a str>,
    pub boundary_index: u32,
    pub path_edge_index: u32,
    pub progress_is_zero: bool,
    pub interior_progress_violation: Option<RoadEditingInputViolation>,
}

/// One passage of a participant stream through a conflict zone.
#[derive(Clone, Copy, Debug)]
pub struct PassageFields<'a> {
    pub conflict_zone: &'a str,
    pub entry: PathAnchorFields<'a>,
    pub exit: PathAnchorFields<'a>,
}

/// A participant stream: its junction, key, maneuver path, passages and
/// canvas selection.
#[derive(Clone, Debug)]
pub struct ParticipantStreamFields<'a> {
    pub junction: &'a str,
    pub participant_stream_key: &'a str,
    pub maneuver_path: &'a str,
    pub passages: Vec<PassageFields<'a>>,
    pub canvas_selection: Option<&'a str>,
}

/// A conflict zone region: its zone and frame, the verdicts of the canonical
/// range on its heights and ring points, whether its lower height lies below
/// its upper one, its ring point count, its canvas selection.
#[derive(Clone, Copy, Debug)]
pub struct ConflictZoneRegionFields<'a> {
    pub conflict_zone: &'a str,
    pub canonical_frame: &'a str,
    pub min_y_violation: Option<RoadEditingInputViolation>,
    pub max_y_violation: Option<RoadEditingInputViolation>,
    pub heights_ordered: bool,
    pub ring_point_count: u64,
    pub ring_violation: Option<RoadEditingInputViolation>,
    pub canvas_selection: Option<&'a str>,
}

/// Checks and charges one conflict zone.
pub open spec fn conflict_zone_step(
    c: RoadEditingPreflightCounts,
    z: ConflictZoneFields,
    namespace: Seq<u8>,
    imports: Seq<&str>,
    limit: u64,
) -> Result<RoadEditingPreflightCounts, StageFailure> {
    match token_step(
        c.with_declaration(EntityKind::ConflictZone),
        z.conflict_zone_key.spec_bytes(),
        limit,
        "conflictZone.conflictZoneKey"@,
    ) {
        Err(f) => Err(f),
        Ok(c1) => match reference_step(c1, z.junction.spec_bytes(), 1, false, namespace, imports, limit, "conflictZone.junction"@) {
            Err(f) => Err(f),
            Ok(c2) => canvas_step(c2, z.canvas_selection, limit),
        },
    }
}

/// Checks a path anchor at `field`: a gate anchor names its gate at the
/// zero boundary, edge and progress; an edge boundary anchor has no gate,
/// edge zero and zero progress; an interior anchor has no gate, boundary
/// zero and an interior progress.
pub open spec fn path_anchor_step(
    c: RoadEditingPreflightCounts,
    a: PathAnchorFields,
    field: Seq<char>,
    namespace: Seq<u8>,
    imports: Seq<&str>,
    limit: u64,
) -> Result<RoadEditingPreflightCounts, StageFailure> {
    match a.kind {
        WirePathAnchorKind::Gate if a.gate is Some && a.boundary_index == 0 && a.path_edge_index == 0
            && a.progress_is_zero => reference_step(c, a.gate->Some_0.spec_bytes(), 4, true, namespace, imports, limit, field),
        WirePathAnchorKind::EdgeBoundary if a.gate is None && a.path_edge_index == 0 && a.progress_is_zero => Ok(c),
        WirePathAnchorKind::Interior if a.gate is None && a.boundary_index == 0 => match a.interior_progress_violation {
            Some(v) => Err(Err((field, v))),
            None => Ok(c),
        },
        _ => Err(Err((field, RoadEditingInputViolation::InvalidCombination))),
    }
}

/// An earlier passage of `passages` before `i` names the same conflict zone
/// as `p`.
pub open spec fn earlier_same_zone(passages: Seq<PassageFields>, i: int, p: PassageFields, namespace: Seq<u8>) -> bool {
    exists|k: int|
        0 <= k < i && reference_parts_spec((#[trigger] passages[k]).conflict_zone.spec_bytes(), namespace)
            == reference_parts_spec(p.conflict_zone.spec_bytes(), namespace)
}

/// Checks and charges the passage at `i` of a stream.
pub open spec fn passage_step(
    c: RoadEditingPreflightCounts,
    passages: Seq<PassageFields>,
    i: int,
    p: PassageFields,
    namespace: Seq<u8>,
    imports: Seq<&str>,
    limit: u64,
) -> Result<RoadEditingPreflightCounts, StageFailure> {
    match reference_step(
        c,
        p.conflict_zone.spec_bytes(),
        2,
        true,
        namespace,
        imports,
        limit,
        "participantStream.passages.conflictZone"@,
    ) {
        Err(f) => Err(f),
        Ok(c1) => if earlier_same_zone(passages, i, p, namespace) {
            Err(Err(("participantStream.passages.conflictZone"@, RoadEditingInputViolation::DuplicateValue)))
        } else {
            match path_anchor_step(c1, p.entry, "participantStream.passages.entry"@, namespace, imports, limit) {
                Err(f) => Err(f),
                Ok(c2) => path_anchor_step(c2, p.exit, "participantStream.passages.exit"@, namespace, imports, limit),
            }
        },
    }
}

/// `3 n`, held at `u64::MAX`.
pub open spec fn triple(n: nat) -> u64 {
    if 3 * n > u64::MAX {
        u64::MAX
    } else {
        (3 * n) as u64
    }
}

/// Checks and charges one participant stream.
pub open spec fn participant_stream_step(
    c: RoadEditingPreflightCounts,
    s: ParticipantStreamFields,
    namespace: Seq<u8>,
    imports: Seq<&str>,
    limits: CompileLimits,
) -> Result<RoadEditingPreflightCounts, StageFailure> {
    let limit = single_string_limit(limits);
    let relation_limit = limits.spec_value(CompileLimitDimension::RelationOccurrenceCount);
    let n = s.passages@.len();
    match token_step(
        c.with_declaration(EntityKind::ParticipantStream),
        s.participant_stream_key.spec_bytes(),
        limit,
        "participantStream.participantStreamKey"@,
    ) {
        Err(f) => Err(f),
        Ok(c1) => match reference_step(
            c1,
            s.junction.spec_bytes(),
            1,
            false,
            namespace,
            imports,
            limit,
            "participantStream.junction"@,
        ) {
            Err(f) => Err(f),
            Ok(c2) => match reference_step(
                c2,
                s.maneuver_path.spec_bytes(),
                3,
                true,
                namespace,
                imports,
                limit,
                "participantStream.maneuverPath"@,
            ) {
                Err(f) => Err(f),
                Ok(c3) => if n == 0 {
                    Err(Err(("participantStream.passages"@, RoadEditingInputViolation::EmptyCollection)))
                } else if sat_add(c3.relation_occurrence_count, n as int) > relation_limit {
                    Err(
                        Ok(
                            (
                                CompileLimitDimension::RelationOccurrenceCount,
                                relation_limit,
                                sat_add(c3.relation_occurrence_count, n as int),
                            ),
                        ),
                    )
                } else {
                    match fold_steps(
                        with_records(with_relations(c3, n as int), triple(n) as int),
                        s.passages@,
                        |c: RoadEditingPreflightCounts, i: int, p: PassageFields|
                            passage_step(c, s.passages@, i, p, namespace, imports, limit),
                    ) {
                        Err(f) => Err(f),
                        Ok(c4) => canvas_step(c4, s.canvas_selection, limit),
                    }
                },
            },
        },
    }
}

/// An earlier region of `regions` before `i` names the same conflict zone
/// as `r`.
pub open spec fn earlier_same_region(
    regions: Seq<ConflictZoneRegionFields>,
    i: int,
    r: ConflictZoneRegionFields,
    namespace: Seq<u8>,
) -> bool {
    exists|k: int|
        0 <= k < i && reference_parts_spec((#[trigger] regions[k]).conflict_zone.spec_bytes(), namespace)
            == reference_parts_spec(r.conflict_zone.spec_bytes(), namespace)
}

/// Checks and charges the region at `i`.
pub open spec fn region_step(
    c: RoadEditingPreflightCounts,
    regions: Seq<ConflictZoneRegionFields>,
    i: int,
    r: ConflictZoneRegionFields,
    namespace: Seq<u8>,
    imports: Seq<&str>,
    limit: u64,
) -> Result<RoadEditingPreflightCounts, StageFailure> {
    let c0 = with_records(c, 1);
    if earlier_same_region(regions, i, r, namespace) {
        Err(Err(("conflictZoneRegions.conflictZone"@, RoadEditingInputViolation::DuplicateValue)))
    } else {
        match reference_step(
            c0,
            r.conflict_zone.spec_bytes(),
            2,
            true,
            namespace,
            imports,
            limit,
            "conflictZoneRegion.conflictZone"@,
        ) {
            Err(f) => Err(f),
            Ok(c1) => match reference_step(
                c1,
                r.canonical_frame.spec_bytes(),
                1,
                true,
                namespace,
                imports,
                limit,
                "conflictZoneRegion.canonicalFrame"@,
            ) {
                Err(f) => Err(f),
                Ok(c2) => if r.min_y_violation is Some {
                    Err(Err(("conflictZoneRegion.minY"@, r.min_y_violation->Some_0)))
                } else if r.max_y_violation is Some {
                    Err(Err(("conflictZoneRegion.maxY"@, r.max_y_violation->Some_0)))
                } else if !r.heights_ordered || r.ring_point_count < 3 {
                    Err(Err(("conflictZoneRegion"@, RoadEditingInputViolation::InvalidCombination)))
                } else if r.ring_point_count > MAX_CONFLICT_ZONE_REGION_RING_POINTS {
                    Err(
                        Err(
                            (
                                "conflictZoneRegion.ringXZ"@,
                                RoadEditingInputViolation::CollectionTooLarge {
                                    maximum: MAX_CONFLICT_ZONE_REGION_RING_POINTS as u64,
                                    actual: r.ring_point_count,
                                },
                            ),
                        ),
                    )
                } else if r.ring_violation is Some {
                    Err(Err(("conflictZoneRegion.ringXZ"@, r.ring_violation->Some_0)))
                } else {
                    canvas_step(
                        RoadEditingPreflightCounts {
                            conflict_region_point_count: sat_add(c2.conflict_region_point_count, r.ring_point_count as int),
                            ..c2
                        },
                        r.canvas_selection,
                        limit,
                    )
                },
            },
        }
    }
}

/// The `(junction, key)` addresses of the conflict zones.
pub open spec fn zone_addresses<'a>(zs: Seq<ConflictZoneFields<'a>>) -> Seq<(&'a str, &'a str)> {
    zs.map_values(|z: ConflictZoneFields<'a>| (z.junction, z.conflict_zone_key))
}

/// The `(junction, key)` addresses of the participant streams.
pub open spec fn stream_addresses<'a>(ss: Seq<ParticipantStreamFields<'a>>) -> Seq<(&'a str, &'a str)> {
    ss.map_values(|s: ParticipantStreamFields<'a>| (s.junction, s.participant_stream_key))
}

/// Distinct conflict zone addresses, then each zone in order.
pub open spec fn zones_outcome(
    c: RoadEditingPreflightCounts,
    zones: Seq<ConflictZoneFields>,
    namespace: Seq<u8>,
    imports: Seq<&str>,
    scratch: PreflightScratch,
) -> Result<RoadEditingPreflightCounts, StageFailure> {
    let limit = single_string_limit(scratch.spec_limits());
    match unique_step::<(&str, &str)>(
        zones.len(),
        has_duplicate(zone_addresses(zones)),
        scratch,
        "conflictZones.junction+conflictZoneKey"@,
    ) {
        Some(f) => Err(f),
        None => fold_steps(
            c,
            zones,
            |c: RoadEditingPreflightCounts, i: int, z: ConflictZoneFields| conflict_zone_step(c, z, namespace, imports, limit),
        ),
    }
}

/// Distinct participant stream addresses, then each stream in order.
pub open spec fn streams_outcome(
    c: RoadEditingPreflightCounts,
    streams: Seq<ParticipantStreamFields>,
    namespace: Seq<u8>,
    imports: Seq<&str>,
    scratch: PreflightScratch,
) -> Result<RoadEditingPreflightCounts, StageFailure> {
    match unique_step::<(&str, &str)>(
        streams.len(),
        has_duplicate(stream_addresses(streams)),
        scratch,
        "participantStreams.junction+participantStreamKey"@,
    ) {
        Some(f) => Err(f),
        None => fold_steps(
            c,
            streams,
            |c: RoadEditingPreflightCounts, i: int, s: ParticipantStreamFields|
                participant_stream_step(c, s, namespace, imports, scratch.spec_limits()),
        ),
    }
}

/// The regions within the relation limit, counted as relations, then each
/// region in order.
pub open spec fn regions_outcome(
    c: RoadEditingPreflightCounts,
    regions: Seq<ConflictZoneRegionFields>,
    namespace: Seq<u8>,
    imports: Seq<&str>,
    limits: CompileLimits,
) -> Result<RoadEditingPreflightCounts, StageFailure> {
    let relation_limit = limits.spec_value(CompileLimitDimension::RelationOccurrenceCount);
    let observed = sat_add(c.relation_occurrence_count, regions.len() as int);
    if observed > relation_limit {
        Err(Ok((CompileLimitDimension::RelationOccurrenceCount, relation_limit, observed)))
    } else {
        fold_steps(
            with_relations(c, regions.len() as int),
            regions,
            |c: RoadEditingPreflightCounts, i: int, r: ConflictZoneRegionFields|
                region_step(c, regions, i, r, namespace, imports, single_string_limit(limits)),
        )
    }
}

/// The outcome of the conflict stage: the zones, then the streams, then the
/// regions.
#[verifier::opaque]
pub open spec fn conflicts_outcome(
    c: RoadEditingPreflightCounts,
    zones: Seq<ConflictZoneFields>,
    streams: Seq<ParticipantStreamFields>,
    regions: Seq<ConflictZoneRegionFields>,
    namespace: Seq<u8>,
    imports: Seq<&str>,
    scratch: PreflightScratch,
) -> Result<RoadEditingPreflightCounts, StageFailure> {
    match zones_outcome(c, zones, namespace, imports, scratch) {
        Err(f) => Err(f),
        Ok(c1) => match streams_outcome(c1, streams, namespace, imports, scratch) {
            Err(f) => Err(f),
            Ok(c2) => regions_outcome(c2, regions, namespace, imports, scratch.spec_limits()),
        },
    }
}

/// Checks and charges one conflict zone; see [`conflict_zone_step`].
pub fn check_conflict_zone(
    usage: &mut RoadEditingPreflightCounts,
    z: &ConflictZoneFields,
    namespace: &str,
    imports: &[&str],
    limits: &CompileLimits,
    key: &str,
) -> (r: Result<(), DiagnosticBundle>)
    ensures
        match conflict_zone_step(*old(usage), *z, namespace.spec_bytes(), imports@, single_string_limit(*limits)) {
            Ok(c) => r is Ok && *final(usage) == c,
            Err(f) => r matches Err(b) && stage_reports(b, f, key@),
        },
{
    usage.charge_declaration(EntityKind::ConflictZone);
    usage.charge_token(z.conflict_zone_key, "conflictZone.conflictZoneKey", limits, key)?;
    usage.charge_reference(z.junction, 1, false, "conflictZone.junction", namespace, imports, limits, key)?;
    usage.charge_canvas(z.canvas_selection, limits, key)
}

/// Checks a path anchor at `field`; see [`path_anchor_step`].
pub fn check_path_anchor(
    usage: &mut RoadEditingPreflightCounts,
    a: &PathAnchorFields,
    field: &str,
    namespace: &str,
    imports: &[&str],
    limits: &CompileLimits,
    key: &str,
) -> (r: Result<(), DiagnosticBundle>)
    ensures
        match path_anchor_step(*old(usage), *a, field@, namespace.spec_bytes(), imports@, single_string_limit(*limits)) {
            Ok(c) => r is Ok && *final(usage) == c,
            Err(f) => r matches Err(b) && stage_reports(b, f, key@),
        },
{
    match a.kind {
        WirePathAnchorKind::Gate => {
            if a.boundary_index == 0 && a.path_edge_index == 0 && a.progress_is_zero {
                if let Some(gate) = a.gate {
                    return usage.charge_reference(gate, 4, true, field, namespace, imports, limits, key);
                }
            }
        },
        WirePathAnchorKind::EdgeBoundary => {
            if a.gate.is_none() && a.path_edge_index == 0 && a.progress_is_zero {
                return Ok(());
            }
        },
        WirePathAnchorKind::Interior => {
            if a.gate.is_none() && a.boundary_index == 0 {
                return match a.interior_progress_violation {
                    Some(v) => Err(semantic_error(field, v, key)),
                    None => Ok(()),
                };
            }
        },
        WirePathAnchorKind::Other(_) => {},
    }
    Err(invalid_combination(field, key))
}

/// Whether a passage before `i` names the same conflict zone as the one at
/// `i`.
fn earlier_same_zone_exec(passages: &[PassageFields], i: usize, namespace: &str) -> (r: bool)
    requires
        i < passages@.len(),
    ensures
        r == earlier_same_zone(passages@, i as int, passages@[i as int], namespace.spec_bytes()),
{
    let mut k: usize = 0;
    while k < i
        invariant
            i < passages@.len(),
            k <= i,
            forall|j: int|
                0 <= j < k ==> reference_parts_spec((#[trigger] passages@[j]).conflict_zone.spec_bytes(), namespace.spec_bytes())
                    != reference_parts_spec(passages@[i as int].conflict_zone.spec_bytes(), namespace.spec_bytes()),
        decreases i - k,
    {
        if references_equal(passages[k].conflict_zone, passages[i].conflict_zone, namespace) {
            return true;
        }
        k = k + 1;
    }
    false
}

/// Checks and charges the passages of a stream in order.
pub fn check_passages(
    usage: &mut RoadEditingPreflightCounts,
    passages: &[PassageFields],
    namespace: &str,
    imports: &[&str],
    limits: &CompileLimits,
    key: &str,
) -> (r: Result<(), DiagnosticBundle>)
    ensures
        match fold_steps(
            *old(usage),
            passages@,
            |c: RoadEditingPreflightCounts, i: int, p: PassageFields|
                passage_step(c, passages@, i, p, namespace.spec_bytes(), imports@, single_string_limit(*limits)),
        ) {
            Ok(c) => r is Ok && *final(usage) == c,
            Err(f) => r matches Err(b) && stage_reports(b, f, key@),
        },
{
    let ghost limit = single_string_limit(*limits);
    let ghost ns = namespace.spec_bytes();
    let ghost step = |c: RoadEditingPreflightCounts, i: int, p: PassageFields|
        passage_step(c, passages@, i, p, ns, imports@, limit);
    let ghost start = *usage;
    let mut i: usize = 0;
    while i < passages.len()
        invariant
            i <= passages@.len(),
            limit == single_string_limit(*limits),
            ns == namespace.spec_bytes(),
            start == *old(usage),
            step == (|c: RoadEditingPreflightCounts, i: int, p: PassageFields|
                passage_step(c, passages@, i, p, ns, imports@, limit)),
            fold_steps(start, passages@.take(i as int), step) == Ok::<RoadEditingPreflightCounts, StageFailure>(*usage),
        decreases passages@.len() - i,
    {
        proof {
            lemma_fold_extend(start, passages@, step, i as int);
        }
        let p = passages[i];
        let r1 = usage.charge_reference(
            p.conflict_zone,
            2,
            true,
            "participantStream.passages.conflictZone",
            namespace,
            imports,
            limits,
            key,
        );
        let r2 = match r1 {
            Ok(()) => if earlier_same_zone_exec(passages, i, namespace) {
                Err(semantic_error("participantStream.passages.conflictZone", RoadEditingInputViolation::DuplicateValue, key))
            } else {
                Ok(())
            },
            Err(e) => Err(e),
        };
        let r3 = match r2 {
            Ok(()) => check_path_anchor(usage, &p.entry, "participantStream.passages.entry", namespace, imports, limits, key),
            Err(e) => Err(e),
        };
        let r4 = match r3 {
            Ok(()) => check_path_anchor(usage, &p.exit, "participantStream.passages.exit", namespace, imports, limits, key),
            Err(e) => Err(e),
        };
        match r4 {
            Ok(()) => {},
            Err(e) => {
                proof {
                    lemma_fold_stops(start, passages@, step, i + 1);
                }
                return Err(e);
            },
        }
        i = i + 1;
    }
    proof {
        lemma_fold_all(start, passages@, step);
    }
    Ok(())
}

/// Checks and charges one participant stream; see
/// [`participant_stream_step`].
pub fn check_participant_stream(
    usage: &mut RoadEditingPreflightCounts,
    s: &ParticipantStreamFields,
    namespace: &str,
    imports: &[&str],
    limits: &CompileLimits,
    key: &str,
) -> (r: Result<(), DiagnosticBundle>)
    ensures
        match participant_stream_step(*old(usage), *s, namespace.spec_bytes(), imports@, *limits) {
            Ok(c) => r is Ok && *final(usage) == c,
            Err(f) => r matches Err(b) && stage_reports(b, f, key@),
        },
{
    usage.charge_declaration(EntityKind::ParticipantStream);
    usage.charge_token(s.participant_stream_key, "participantStream.participantStreamKey", limits, key)?;
    usage.charge_reference(s.junction, 1, false, "participantStream.junction", namespace, imports, limits, key)?;
    usage.charge_reference(s.maneuver_path, 3, true, "participantStream.maneuverPath", namespace, imports, limits, key)?;
    let passages = s.passages.as_slice();
    if passages.len() == 0 {
        return Err(semantic_error("participantStream.passages", RoadEditingInputViolation::EmptyCollection, key));
    }
    usage.require_relation_capacity(passages.len(), limits)?;
    usage.charge_relation(passages.len());
    let n = passages.len() as u64;
    let records = match n.checked_mul(3) {
        Some(v) => v,
        None => u64::MAX,
    };
    usage.typed_ast_record_count = usage.typed_ast_record_count.saturating_add(records);
    check_passages(usage, passages, namespace, imports, limits, key)?;
    usage.charge_canvas(s.canvas_selection, limits, key)
}

/// Whether a region before `i` names the same conflict zone as the one at
/// `i`.
fn earlier_same_region_exec(regions: &[ConflictZoneRegionFields], i: usize, namespace: &str) -> (r: bool)
    requires
        i < regions@.len(),
    ensures
        r == earlier_same_region(regions@, i as int, regions@[i as int], namespace.spec_bytes()),
{
    let mut k: usize = 0;
    while k < i
        invariant
            i < regions@.len(),
            k <= i,
            forall|j: int|
                0 <= j < k ==> reference_parts_spec((#[trigger] regions@[j]).conflict_zone.spec_bytes(), namespace.spec_bytes())
                    != reference_parts_spec(regions@[i as int].conflict_zone.spec_bytes(), namespace.spec_bytes()),
        decreases i - k,
    {
        if references_equal(regions[k].conflict_zone, regions[i].conflict_zone, namespace) {
            return true;
        }
        k = k + 1;
    }
    false
}

/// Checks and charges the region at `i`; see [`region_step`].
pub fn check_region(
    usage: &mut RoadEditingPreflightCounts,
    regions: &[ConflictZoneRegionFields],
    i: usize,
    namespace: &str,
    imports: &[&str],
    limits: &CompileLimits,
    key: &str,
) -> (r: Result<(), DiagnosticBundle>)
    requires
        i < regions@.len(),
    ensures
        match region_step(
            *old(usage),
            regions@,
            i as int,
            regions@[i as int],
            namespace.spec_bytes(),
            imports@,
            single_string_limit(*limits),
        ) {
            Ok(c) => r is Ok && *final(usage) == c,
            Err(f) => r matches Err(b) && stage_reports(b, f, key@),
        },
{
    let value = regions[i];
    usage.typed_ast_record_count = usage.typed_ast_record_count.saturating_add(1);
    if earlier_same_region_exec(regions, i, namespace) {
        return Err(semantic_error("conflictZoneRegions.conflictZone", RoadEditingInputViolation::DuplicateValue, key));
    }
    usage.charge_reference(value.conflict_zone, 2, true, "conflictZoneRegion.conflictZone", namespace, imports, limits, key)?;
    usage.charge_reference(
        value.canonical_frame,
        1,
        true,
        "conflictZoneRegion.canonicalFrame",
        namespace,
        imports,
        limits,
        key,
    )?;
    if let Some(v) = value.min_y_violation {
        return Err(semantic_error("conflictZoneRegion.minY", v, key));
    }
    if let Some(v) = value.max_y_violation {
        return Err(semantic_error("conflictZoneRegion.maxY", v, key));
    }
    if !value.heights_ordered || value.ring_point_count < 3 {
        return Err(invalid_combination("conflictZoneRegion", key));
    }
    if value.ring_point_count > MAX_CONFLICT_ZONE_REGION_RING_POINTS as u64 {
        return Err(
            semantic_error(
                "conflictZoneRegion.ringXZ",
                RoadEditingInputViolation::CollectionTooLarge {
                    maximum: MAX_CONFLICT_ZONE_REGION_RING_POINTS as u64,
                    actual: value.ring_point_count,
                },
                key,
            ),
        );
    }
    if let Some(v) = value.ring_violation {
        return Err(semantic_error("conflictZoneRegion.ringXZ", v, key));
    }
    usage.conflict_region_point_count = usage.conflict_region_point_count.saturating_add(value.ring_point_count);
    usage.charge_canvas(value.canvas_selection, limits, key)
}

/// Checks and charges the conflict zones; see [`zones_outcome`].
pub fn validate_conflict_zones(
    usage: &mut RoadEditingPreflightCounts,
    zones: &[ConflictZoneFields],
    namespace: &str,
    imports: &[&str],
    scratch: &mut PreflightScratch,
    key: &str,
) -> (r: Result<(), DiagnosticBundle>)
    ensures
        match zones_outcome(*old(usage), zones@, namespace.spec_bytes(), imports@, *old(scratch)) {
            Ok(c) => r is Ok && *final(usage) == c,
            Err(f) => r matches Err(b) && stage_reports(b, f, key@),
        },
        scratch_restored(*old(scratch), *final(scratch)),
        r is Ok ==> peak_lifted(*old(scratch), *final(scratch), unique_need::<(&str, &str)>(zones@.len())),
{
    let ghost s0 = *scratch;
    let limits = *scratch.limits();
    let ghost limit = single_string_limit(limits);
    let ghost ns = namespace.spec_bytes();
    let mut addresses: Vec<(&str, &str)> = Vec::new();
    let mut j: usize = 0;
    while j < zones.len()
        invariant
            j <= zones@.len(),
            addresses@ == zone_addresses(zones@.take(j as int)),
        decreases zones@.len() - j,
    {
        addresses.push((zones[j].junction, zones[j].conflict_zone_key));
        proof {
            assert(zone_addresses(zones@.take(j + 1)) =~= zone_addresses(zones@.take(j as int)).push(
                (zones@[j as int].junction, zones@[j as int].conflict_zone_key),
            ));
        }
        j = j + 1;
    }
    proof {
        assert(zones@.take(j as int) =~= zones@);
    }
    ensure_unique_by::<(&str, &str)>(addresses.as_slice(), "conflictZones.junction+conflictZoneKey", key, scratch)?;
    let ghost zstep = |c: RoadEditingPreflightCounts, i: int, z: ConflictZoneFields|
        conflict_zone_step(c, z, ns, imports@, limit);
    let ghost start = *usage;
    let mut i: usize = 0;
    while i < zones.len()
        invariant
            i <= zones@.len(),
            s0 == *old(scratch),
            start == *old(usage),
            limits == s0.spec_limits(),
            limit == single_string_limit(limits),
            ns == namespace.spec_bytes(),
            scratch_restored(s0, *scratch),
            zones_outcome(start, zones@, ns, imports@, s0) == fold_steps(start, zones@, zstep),
            zstep == (|c: RoadEditingPreflightCounts, i: int, z: ConflictZoneFields|
                conflict_zone_step(c, z, ns, imports@, limit)),
            fold_steps(start, zones@.take(i as int), zstep) == Ok::<RoadEditingPreflightCounts, StageFailure>(*usage),
        decreases zones@.len() - i,
    {
        proof {
            lemma_fold_extend(start, zones@, zstep, i as int);
        }
        match check_conflict_zone(usage, &zones[i], namespace, imports, &limits, key) {
            Ok(()) => {},
            Err(e) => {
                proof {
                    lemma_fold_stops(start, zones@, zstep, i + 1);
                }
                return Err(e);
            },
        }
        i = i + 1;
    }
    proof {
        lemma_fold_all(start, zones@, zstep);
    }
    Ok(())
}

/// Checks and charges the participant streams; see [`streams_outcome`].
pub fn validate_participant_streams(
    usage: &mut RoadEditingPreflightCounts,
    streams: &[ParticipantStreamFields],
    namespace: &str,
    imports: &[&str],
    scratch: &mut PreflightScratch,
    key: &str,
) -> (r: Result<(), DiagnosticBundle>)
    ensures
        match streams_outcome(*old(usage), streams@, namespace.spec_bytes(), imports@, *old(scratch)) {
            Ok(c) => r is Ok && *final(usage) == c,
            Err(f) => r matches Err(b) && stage_reports(b, f, key@),
        },
        scratch_restored(*old(scratch), *final(scratch)),
        r is Ok ==> peak_lifted(*old(scratch), *final(scratch), unique_need::<(&str, &str)>(streams@.len())),
{
    let ghost s0 = *scratch;
    let limits = *scratch.limits();
    let ghost ns = namespace.spec_bytes();
    let mut stream_keys: Vec<(&str, &str)> = Vec::new();
    let mut j: usize = 0;
    while j < streams.len()
        invariant
            j <= streams@.len(),
            stream_keys@ == stream_addresses(streams@.take(j as int)),
        decreases streams@.len() - j,
    {
        stream_keys.push((streams[j].junction, streams[j].participant_stream_key));
        proof {
            assert(stream_addresses(streams@.take(j + 1)) =~= stream_addresses(streams@.take(j as int)).push(
                (streams@[j as int].junction, streams@[j as int].participant_stream_key),
            ));
        }
        j = j + 1;
    }
    proof {
        assert(streams@.take(j as int) =~= streams@);
    }
    ensure_unique_by::<(&str, &str)>(
        stream_keys.as_slice(),
        "participantStreams.junction+participantStreamKey",
        key,
        scratch,
    )?;
    let ghost sstep = |c: RoadEditingPreflightCounts, i: int, s: ParticipantStreamFields|
        participant_stream_step(c, s, ns, imports@, limits);
    let ghost start = *usage;
    let mut i: usize = 0;
    while i < streams.len()
        invariant
            i <= streams@.len(),
            s0 == *old(scratch),
            start == *old(usage),
            limits == s0.spec_limits(),
            ns == namespace.spec_bytes(),
            scratch_restored(s0, *scratch),
            streams_outcome(start, streams@, ns, imports@, s0) == fold_steps(start, streams@, sstep),
            sstep == (|c: RoadEditingPreflightCounts, i: int, s: ParticipantStreamFields|
                participant_stream_step(c, s, ns, imports@, limits)),
            fold_steps(start, streams@.take(i as int), sstep) == Ok::<RoadEditingPreflightCounts, StageFailure>(*usage),
        decreases streams@.len() - i,
    {
        proof {
            lemma_fold_extend(start, streams@, sstep, i as int);
        }
        match check_participant_stream(usage, &streams[i], namespace, imports, &limits, key) {
            Ok(()) => {},
            Err(e) => {
                proof {
                    lemma_fold_stops(start, streams@, sstep, i + 1);
                }
                return Err(e);
            },
        }
        i = i + 1;
    }
    proof {
        lemma_fold_all(start, streams@, sstep);
    }
    Ok(())
}

/// Checks and charges the conflict zone regions; see [`regions_outcome`].
pub fn validate_regions(
    usage: &mut RoadEditingPreflightCounts,
    regions: &[ConflictZoneRegionFields],
    namespace: &str,
    imports: &[&str],
    limits: &CompileLimits,
    key: &str,
) -> (r: Result<(), DiagnosticBundle>)
    ensures
        match regions_outcome(*old(usage), regions@, namespace.spec_bytes(), imports@, *limits) {
            Ok(c) => r is Ok && *final(usage) == c,
            Err(f) => r matches Err(b) && stage_reports(b, f, key@),
        },
{
    let ghost limit = single_string_limit(*limits);
    let ghost ns = namespace.spec_bytes();
    usage.require_relation_capacity(regions.len(), limits)?;
    usage.charge_relation(regions.len());
    let ghost rstep = |c: RoadEditingPreflightCounts, i: int, r: ConflictZoneRegionFields|
        region_step(c, regions@, i, r, ns, imports@, single_string_limit(*limits));
    let ghost start = *usage;
    let mut i: usize = 0;
    while i < regions.len()
        invariant
            i <= regions@.len(),
            ns == namespace.spec_bytes(),
            regions_outcome(*old(usage), regions@, ns, imports@, *limits) == fold_steps(start, regions@, rstep),
            rstep == (|c: RoadEditingPreflightCounts, i: int, r: ConflictZoneRegionFields|
                region_step(c, regions@, i, r, ns, imports@, single_string_limit(*limits))),
            fold_steps(start, regions@.take(i as int), rstep) == Ok::<RoadEditingPreflightCounts, StageFailure>(*usage),
        decreases regions@.len() - i,
    {
        proof {
            lemma_fold_extend(start, regions@, rstep, i as int);
        }
        match check_region(usage, regions, i, namespace, imports, limits, key) {
            Ok(()) => {},
            Err(e) => {
                proof {
                    lemma_fold_stops(start, regions@, rstep, i + 1);
                }
                return Err(e);
            },
        }
        i = i + 1;
    }
    proof {
        lemma_fold_all(start, regions@, rstep);
    }
    Ok(())
}

/// Checks and charges the conflict zones, the participant streams and the
/// conflict zone regions; see [`conflicts_outcome`].
pub fn validate_conflicts_and_regions(
    usage: &mut RoadEditingPreflightCounts,
    zones: &[ConflictZoneFields],
    streams: &[ParticipantStreamFields],
    regions: &[ConflictZoneRegionFields],
    namespace: &str,
    imports: &[&str],
    scratch: &mut PreflightScratch,
    key: &str,
) -> (r: Result<(), DiagnosticBundle>)
    ensures
        match conflicts_outcome(*old(usage), zones@, streams@, regions@, namespace.spec_bytes(), imports@, *old(scratch)) {
            Ok(c) => r is Ok && *final(usage) == c,
            Err(f) => r matches Err(b) && stage_reports(b, f, key@),
        },
        scratch_restored(*old(scratch), *final(scratch)),
        r is Ok ==> peak_lifted(*old(scratch), *final(scratch), max_nat(unique_need::<(&str, &str)>(zones@.len()), unique_need::<(&str, &str)>(streams@.len()))),
{
    proof {
        reveal(conflicts_outcome);
    }
    let ghost s0 = *scratch;
    validate_conflict_zones(usage, zones, namespace, imports, scratch, key)?;
    let ghost s1 = *scratch;
    proof {
        lemma_streams_outcome_restored(*usage, streams@, namespace.spec_bytes(), imports@, s0, s1);
    }
    validate_participant_streams(usage, streams, namespace, imports, scratch, key)?;
    let limits = *scratch.limits();
    validate_regions(usage, regions, namespace, imports, &limits, key)
}

/// The stream part reads only the limits and the live bytes of the scratch
/// pass.
proof fn lemma_streams_outcome_restored(
    c: RoadEditingPreflightCounts,
    streams: Seq<ParticipantStreamFields>,
    namespace: Seq<u8>,
    imports: Seq<&str>,
    a: PreflightScratch,
    b: PreflightScratch,
)
    requires
        scratch_restored(a, b),
    ensures
        streams_outcome(c, streams, namespace, imports, a) == streams_outcome(c, streams, namespace, imports, b),
{
    assert((|c: RoadEditingPreflightCounts, i: int, s: ParticipantStreamFields|
        participant_stream_step(c, s, namespace, imports, a.spec_limits())) =~= (|c: RoadEditingPreflightCounts, i: int, s: ParticipantStreamFields|
        participant_stream_step(c, s, namespace, imports, b.spec_limits())));
}

/// The conflict outcome reads only the limits and the live bytes of the
/// scratch pass.
pub proof fn lemma_conflicts_outcome_restored(
    c: RoadEditingPreflightCounts,
    zones: Seq<ConflictZoneFields>,
    streams: Seq<ParticipantStreamFields>,
    regions: Seq<ConflictZoneRegionFields>,
    namespace: Seq<u8>,
    imports: Seq<&str>,
    a: PreflightScratch,
    b: PreflightScratch,
)
    requires
        scratch_restored(a, b),
    ensures
        conflicts_outcome(c, zones, streams, regions, namespace, imports, a) == conflicts_outcome(
            c,
            zones,
            streams,
            regions,
            namespace,
            imports,
            b,
        ),
{
    reveal(conflicts_outcome);
    if let Ok(c1) = zones_outcome(c, zones, namespace, imports, a) {
        lemma_streams_outcome_restored(c1, streams, namespace, imports, a, b);
    }
}

} // verus!
