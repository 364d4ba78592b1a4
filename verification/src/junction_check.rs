//! Field preflight of the junction tables of a verified source: junctions,
//! maneuver paths, maneuver gates and waiting zones are checked in order and
//! charged into the usage counts.

use vstd::prelude::*;
use vstd::string::StringSliceAdditionalSpecFns;

use crate::declaration::EntityKind;
use crate::diagnostic::{DiagnosticBundle, RoadEditingInputViolation};
use crate::preflight::{
    lemma_reference_vector_step_restored,
    canvas_step, ensure_unique_by, ensure_unique_strings, fold_steps, has_duplicate, invalid_combination,
    lemma_fold_all, lemma_fold_extend, lemma_fold_stops, reference_parts_spec, reference_step, reference_vector_step,
    references_equal, sat_add, scratch_restored, stage_reports, strs_repeat, token_step, unique_need, unique_step, reference_vector_need,
    validate_reference_vector, RoadEditingPreflightCounts, StageFailure,
};
use crate::limits::CompileLimits;
use crate::policy_check::{single_string_limit, with_records, with_relations};
use crate::scratch::{lemma_max_need_all, lemma_max_need_extend, max_nat, max_need, peak_lifted, PreflightScratch};
use crate::signal_check::string_limit;

verus! {

/// A junction: its key, its approach and internal edges, its canvas selection.
#[derive(Clone, Debug)]
pub struct JunctionLinks<'a> {
    pub junction_key: &'a str,
    pub approach_edges: Vec<&'a str>,
    pub internal_edges: Vec<&'a str>,
    pub canvas_selection: Option<&'a str>,
}

/// A maneuver path: its movement, its key, its entry, internal and exit
/// edges, its canvas selection.
#[derive(Clone, Debug)]
pub struct ManeuverPathLinks<'a> {
    pub movement: &'a str,
    pub maneuver_path_key: &'a str,
    pub entry_edge: &'a str,
    pub internal_edges: Vec<&'a str>,
    pub exit_edge: &'a str,
    pub canvas_selection: Option<&'a str>,
}

/// The signal control of a maneuver gate as the wire carries it.
#[derive(Clone, Copy, Debug, PartialEq, Eq, Structural)]
pub enum WireSignalControl {
    Uncontrolled,
    SignalGroup,
    Other(u8),
}

/// A maneuver gate: its path, its key, its stop line, its signal control and
/// group, its canvas selection.
#[derive(Clone, Copy, Debug)]
pub struct ManeuverGateLinks<'a> {
    pub maneuver_path: &'a str,
    pub maneuver_gate_key: &'a str,
    pub stop_line: &'a str,
    pub signal_control: WireSignalControl,
    pub signal_group: Option<&'a str>,
    pub canvas_selection: Option<&'a str>,
}

/// A waiting zone: its path, its key, its entry and release gates, its
/// capacity, its canvas selection.
#[derive(Clone, Copy, Debug)]
pub struct WaitingZoneLinks<'a> {
    pub maneuver_path: &'a str,
    pub waiting_zone_key: &'a str,
    pub entry_gate: &'a str,
    pub release_gate: &'a str,
    pub max_occupancy: u32,
    pub canvas_selection: Option<&'a str>,
}

/// Some approach edge names the same target as some internal edge.
pub open spec fn roles_overlap(approach: Seq<&str>, internal: Seq<&str>, namespace: Seq<u8>) -> bool {
    exists|i: int, j: int|
        0 <= i < approach.len() && 0 <= j < internal.len() && reference_parts_spec(
            approach[i].spec_bytes(),
            namespace,
        ) == reference_parts_spec(internal[j].spec_bytes(), namespace)
}

/// Checks and charges one junction.
pub open spec fn junction_step(
    c: RoadEditingPreflightCounts,
    x: JunctionLinks,
    namespace: Seq<u8>,
    imports: Seq<&str>,
    scratch: PreflightScratch,
) -> Result<RoadEditingPreflightCounts, StageFailure> {
    let limit = string_limit(scratch);
    let c1 = c.with_declaration(EntityKind::Junction);
    match token_step(c1, x.junction_key.spec_bytes(), limit, "junction.junctionKey"@) {
        Err(f) => Err(f),
        Ok(c2) => match reference_vector_step(
            c2,
            x.approach_edges@,
            1,
            "junction.approachEdges"@,
            true,
            true,
            true,
            namespace,
            imports,
            scratch,
        ) {
            Err(f) => Err(f),
            Ok(c3) => match reference_vector_step(
                c3,
                x.internal_edges@,
                1,
                "junction.internalEdges"@,
                false,
                true,
                true,
                namespace,
                imports,
                scratch,
            ) {
                Err(f) => Err(f),
                Ok(c4) => if roles_overlap(x.approach_edges@, x.internal_edges@, namespace) {
                    Err(Err(("junction.edgeRoles"@, RoadEditingInputViolation::InvalidCombination)))
                } else {
                    canvas_step(c4, x.canvas_selection, limit)
                },
            },
        },
    }
}

/// Whether some approach edge names the same target as some internal edge.
fn edge_roles_overlap(approach: &[&str], internal: &[&str], namespace: &str) -> (r: bool)
    ensures
        r == roles_overlap(approach@, internal@, namespace.spec_bytes()),
{
    let ghost ns = namespace.spec_bytes();
    let mut i: usize = 0;
    while i < approach.len()
        invariant
            i <= approach@.len(),
            ns == namespace.spec_bytes(),
            forall|a: int, b: int|
                0 <= a < i && 0 <= b < internal@.len() ==> reference_parts_spec(approach@[a].spec_bytes(), ns)
                    != reference_parts_spec(internal@[b].spec_bytes(), ns),
        decreases approach@.len() - i,
    {
        let mut j: usize = 0;
        while j < internal.len()
            invariant
                i < approach@.len(),
                j <= internal@.len(),
                ns == namespace.spec_bytes(),
                forall|a: int, b: int|
                    0 <= a < i && 0 <= b < internal@.len() ==> reference_parts_spec(approach@[a].spec_bytes(), ns)
                        != reference_parts_spec(internal@[b].spec_bytes(), ns),
                forall|b: int|
                    0 <= b < j ==> reference_parts_spec(approach@[i as int].spec_bytes(), ns) != reference_parts_spec(
                        internal@[b].spec_bytes(),
                        ns,
                    ),
            decreases internal@.len() - j,
        {
            if references_equal(approach[i], internal[j], namespace) {
                return true;
            }
            j = j + 1;
        }
        i = i + 1;
    }
    false
}

/// Checks and charges one junction; see [`junction_step`].
pub fn check_junction(
    usage: &mut RoadEditingPreflightCounts,
    junction: &JunctionLinks,
    namespace: &str,
    imports: &[&str],
    scratch: &mut PreflightScratch,
    expected_key: &str,
) -> (r: Result<(), DiagnosticBundle>)
    ensures
        match junction_step(*old(usage), *junction, namespace.spec_bytes(), imports@, *old(scratch)) {
            Ok(c) => r is Ok && *final(usage) == c,
            Err(f) => r matches Err(b) && stage_reports(b, f, expected_key@),
        },
        scratch_restored(*old(scratch), *final(scratch)),
        r is Ok ==> peak_lifted(*old(scratch), *final(scratch), junction_need()(*junction)),
{
    let limits = *scratch.limits();
    let ghost s0 = *scratch;
    usage.charge_declaration(EntityKind::Junction);
    usage.charge_token(junction.junction_key, "junction.junctionKey", &limits, expected_key)?;
    validate_reference_vector(
        usage,
        junction.approach_edges.as_slice(),
        1,
        "junction.approachEdges",
        true,
        true,
        true,
        namespace,
        imports,
        scratch,
        expected_key,
    )?;
    proof {
        lemma_reference_vector_step_restored(
            *usage,
            junction.internal_edges@,
            1,
            "junction.internalEdges"@,
            false,
            namespace.spec_bytes(),
            imports@,
            s0,
            *scratch,
        );
    }
    validate_reference_vector(
        usage,
        junction.internal_edges.as_slice(),
        1,
        "junction.internalEdges",
        false,
        true,
        true,
        namespace,
        imports,
        scratch,
        expected_key,
    )?;
    if edge_roles_overlap(junction.approach_edges.as_slice(), junction.internal_edges.as_slice(), namespace) {
        return Err(invalid_combination("junction.edgeRoles", expected_key));
    }
    usage.charge_canvas(junction.canvas_selection, &limits, expected_key)
}

/// Checks and charges one maneuver path.
pub open spec fn maneuver_path_step(
    c: RoadEditingPreflightCounts,
    x: ManeuverPathLinks,
    namespace: Seq<u8>,
    imports: Seq<&str>,
    scratch: PreflightScratch,
) -> Result<RoadEditingPreflightCounts, StageFailure> {
    let limit = string_limit(scratch);
    let c1 = c.with_declaration(EntityKind::ManeuverPath);
    match token_step(c1, x.maneuver_path_key.spec_bytes(), limit, "maneuverPath.maneuverPathKey"@) {
        Err(f) => Err(f),
        Ok(c2) => match reference_step(
            c2,
            x.movement.spec_bytes(),
            2,
            false,
            namespace,
            imports,
            limit,
            "maneuverPath.movement"@,
        ) {
            Err(f) => Err(f),
            Ok(c3) => match reference_step(
                c3,
                x.entry_edge.spec_bytes(),
                1,
                true,
                namespace,
                imports,
                limit,
                "maneuverPath.entryEdge"@,
            ) {
                Err(f) => Err(f),
                Ok(c4) => match reference_vector_step(
                    c4,
                    x.internal_edges@,
                    1,
                    "maneuverPath.internalEdges"@,
                    false,
                    true,
                    true,
                    namespace,
                    imports,
                    scratch,
                ) {
                    Err(f) => Err(f),
                    Ok(c5) => match reference_step(
                        c5,
                        x.exit_edge.spec_bytes(),
                        1,
                        true,
                        namespace,
                        imports,
                        limit,
                        "maneuverPath.exitEdge"@,
                    ) {
                        Err(f) => Err(f),
                        Ok(c6) => canvas_step(c6, x.canvas_selection, limit),
                    },
                },
            },
        },
    }
}

/// Checks and charges one maneuver path; see [`maneuver_path_step`].
pub fn check_maneuver_path(
    usage: &mut RoadEditingPreflightCounts,
    path: &ManeuverPathLinks,
    namespace: &str,
    imports: &[&str],
    scratch: &mut PreflightScratch,
    expected_key: &str,
) -> (r: Result<(), DiagnosticBundle>)
    ensures
        match maneuver_path_step(*old(usage), *path, namespace.spec_bytes(), imports@, *old(scratch)) {
            Ok(c) => r is Ok && *final(usage) == c,
            Err(f) => r matches Err(b) && stage_reports(b, f, expected_key@),
        },
        scratch_restored(*old(scratch), *final(scratch)),
        r is Ok ==> peak_lifted(*old(scratch), *final(scratch), maneuver_path_need()(*path)),
{
    let limits = *scratch.limits();
    usage.charge_declaration(EntityKind::ManeuverPath);
    usage.charge_token(path.maneuver_path_key, "maneuverPath.maneuverPathKey", &limits, expected_key)?;
    usage.charge_reference(path.movement, 2, false, "maneuverPath.movement", namespace, imports, &limits, expected_key)?;
    usage.charge_reference(path.entry_edge, 1, true, "maneuverPath.entryEdge", namespace, imports, &limits, expected_key)?;
    validate_reference_vector(
        usage,
        path.internal_edges.as_slice(),
        1,
        "maneuverPath.internalEdges",
        false,
        true,
        true,
        namespace,
        imports,
        scratch,
        expected_key,
    )?;
    usage.charge_reference(path.exit_edge, 1, true, "maneuverPath.exitEdge", namespace, imports, &limits, expected_key)?;
    usage.charge_canvas(path.canvas_selection, &limits, expected_key)
}

/// Checks and charges one maneuver gate.
pub open spec fn maneuver_gate_step(
    c: RoadEditingPreflightCounts,
    x: ManeuverGateLinks,
    namespace: Seq<u8>,
    imports: Seq<&str>,
    limit: u64,
) -> Result<RoadEditingPreflightCounts, StageFailure> {
    let c0 = c.with_declaration(EntityKind::ManeuverGate);
    let c1 = RoadEditingPreflightCounts { maneuver_gate_count: sat_add(c0.maneuver_gate_count, 1), ..c0 };
    match token_step(c1, x.maneuver_gate_key.spec_bytes(), limit, "maneuverGate.maneuverGateKey"@) {
        Err(f) => Err(f),
        Ok(c2) => match reference_step(
            c2,
            x.maneuver_path.spec_bytes(),
            3,
            false,
            namespace,
            imports,
            limit,
            "maneuverGate.maneuverPath"@,
        ) {
            Err(f) => Err(f),
            Ok(c3) => match reference_step(
                c3,
                x.stop_line.spec_bytes(),
                1,
                true,
                namespace,
                imports,
                limit,
                "maneuverGate.stopLine"@,
            ) {
                Err(f) => Err(f),
                Ok(c4) => {
                    let c5 = match (x.signal_control, x.signal_group) {
                        (WireSignalControl::Uncontrolled, None) => Ok(c4),
                        (WireSignalControl::SignalGroup, Some(group)) => reference_step(
                            c4,
                            group.spec_bytes(),
                            1,
                            true,
                            namespace,
                            imports,
                            limit,
                            "maneuverGate.signalGroup"@,
                        ),
                        _ => Err(Err(("maneuverGate.signalControl"@, RoadEditingInputViolation::InvalidCombination))),
                    };
                    match c5 {
                        Err(f) => Err(f),
                        Ok(c6) => canvas_step(c6, x.canvas_selection, limit),
                    }
                },
            },
        },
    }
}

/// Checks and charges one maneuver gate; see [`maneuver_gate_step`].
pub fn check_maneuver_gate(
    usage: &mut RoadEditingPreflightCounts,
    gate: &ManeuverGateLinks,
    namespace: &str,
    imports: &[&str],
    limits: &crate::limits::CompileLimits,
    expected_key: &str,
) -> (r: Result<(), DiagnosticBundle>)
    ensures
        match maneuver_gate_step(
            *old(usage),
            *gate,
            namespace.spec_bytes(),
            imports@,
            limits.spec_value(crate::limits::CompileLimitDimension::SingleStringBytes),
        ) {
            Ok(c) => r is Ok && *final(usage) == c,
            Err(f) => r matches Err(b) && stage_reports(b, f, expected_key@),
        },
{
    usage.charge_declaration(EntityKind::ManeuverGate);
    usage.maneuver_gate_count = usage.maneuver_gate_count.saturating_add(1);
    usage.charge_token(gate.maneuver_gate_key, "maneuverGate.maneuverGateKey", limits, expected_key)?;
    usage.charge_reference(gate.maneuver_path, 3, false, "maneuverGate.maneuverPath", namespace, imports, limits, expected_key)?;
    usage.charge_reference(gate.stop_line, 1, true, "maneuverGate.stopLine", namespace, imports, limits, expected_key)?;
    match (gate.signal_control, gate.signal_group) {
        (WireSignalControl::Uncontrolled, None) => {},
        (WireSignalControl::SignalGroup, Some(group)) => {
            usage.charge_reference(group, 1, true, "maneuverGate.signalGroup", namespace, imports, limits, expected_key)?;
        },
        _ => {
            return Err(invalid_combination("maneuverGate.signalControl", expected_key));
        },
    }
    usage.charge_canvas(gate.canvas_selection, limits, expected_key)
}

/// Checks and charges one waiting zone.
pub open spec fn waiting_zone_step(
    c: RoadEditingPreflightCounts,
    x: WaitingZoneLinks,
    namespace: Seq<u8>,
    imports: Seq<&str>,
    limit: u64,
) -> Result<RoadEditingPreflightCounts, StageFailure> {
    let c0 = c.with_declaration(EntityKind::WaitingZone);
    let c1 = RoadEditingPreflightCounts { waiting_zone_count: sat_add(c0.waiting_zone_count, 1), ..c0 };
    match token_step(c1, x.waiting_zone_key.spec_bytes(), limit, "waitingZone.waitingZoneKey"@) {
        Err(f) => Err(f),
        Ok(c2) => match reference_step(
            c2,
            x.maneuver_path.spec_bytes(),
            3,
            false,
            namespace,
            imports,
            limit,
            "waitingZone.maneuverPath"@,
        ) {
            Err(f) => Err(f),
            Ok(c3) => match reference_step(
                c3,
                x.entry_gate.spec_bytes(),
                4,
                true,
                namespace,
                imports,
                limit,
                "waitingZone.entryGate"@,
            ) {
                Err(f) => Err(f),
                Ok(c4) => match reference_step(
                    c4,
                    x.release_gate.spec_bytes(),
                    4,
                    true,
                    namespace,
                    imports,
                    limit,
                    "waitingZone.releaseGate"@,
                ) {
                    Err(f) => Err(f),
                    Ok(c5) => if x.max_occupancy == 0 {
                        Err(Err(("waitingZone.maxOccupancy"@, RoadEditingInputViolation::InvalidCombination)))
                    } else {
                        canvas_step(c5, x.canvas_selection, limit)
                    },
                },
            },
        },
    }
}

/// Checks and charges one waiting zone; see [`waiting_zone_step`].
pub fn check_waiting_zone(
    usage: &mut RoadEditingPreflightCounts,
    zone: &WaitingZoneLinks,
    namespace: &str,
    imports: &[&str],
    limits: &crate::limits::CompileLimits,
    expected_key: &str,
) -> (r: Result<(), DiagnosticBundle>)
    ensures
        match waiting_zone_step(
            *old(usage),
            *zone,
            namespace.spec_bytes(),
            imports@,
            limits.spec_value(crate::limits::CompileLimitDimension::SingleStringBytes),
        ) {
            Ok(c) => r is Ok && *final(usage) == c,
            Err(f) => r matches Err(b) && stage_reports(b, f, expected_key@),
        },
{
    usage.charge_declaration(EntityKind::WaitingZone);
    usage.waiting_zone_count = usage.waiting_zone_count.saturating_add(1);
    usage.charge_token(zone.waiting_zone_key, "waitingZone.waitingZoneKey", limits, expected_key)?;
    usage.charge_reference(zone.maneuver_path, 3, false, "waitingZone.maneuverPath", namespace, imports, limits, expected_key)?;
    usage.charge_reference(zone.entry_gate, 4, true, "waitingZone.entryGate", namespace, imports, limits, expected_key)?;
    usage.charge_reference(zone.release_gate, 4, true, "waitingZone.releaseGate", namespace, imports, limits, expected_key)?;
    if zone.max_occupancy == 0 {
        return Err(invalid_combination("waitingZone.maxOccupancy", expected_key));
    }
    usage.charge_canvas(zone.canvas_selection, limits, expected_key)
}

/// The keys of the junctions.
pub open spec fn junction_keys<'a>(js: Seq<JunctionLinks<'a>>) -> Seq<&'a str> {
    js.map_values(|x: JunctionLinks<'a>| x.junction_key)
}

/// The `(movement, key)` addresses of the maneuver paths.
pub open spec fn path_addresses<'a>(ps: Seq<ManeuverPathLinks<'a>>) -> Seq<(&'a str, &'a str)> {
    ps.map_values(|x: ManeuverPathLinks<'a>| (x.movement, x.maneuver_path_key))
}

/// The `(maneuver path, key)` addresses of the maneuver gates.
pub open spec fn gate_addresses<'a>(gs: Seq<ManeuverGateLinks<'a>>) -> Seq<(&'a str, &'a str)> {
    gs.map_values(|x: ManeuverGateLinks<'a>| (x.maneuver_path, x.maneuver_gate_key))
}

/// The `(maneuver path, key)` addresses of the waiting zones.
pub open spec fn zone_addresses<'a>(zs: Seq<WaitingZoneLinks<'a>>) -> Seq<(&'a str, &'a str)> {
    zs.map_values(|x: WaitingZoneLinks<'a>| (x.maneuver_path, x.waiting_zone_key))
}

/// The scratch need of one junction: the index of its approach edges or of
/// its internal edges.
pub open spec fn junction_need<'a>() -> spec_fn(JunctionLinks<'a>) -> nat {
    |x: JunctionLinks<'a>| max_nat(
        reference_vector_need(x.approach_edges@.len(), true),
        reference_vector_need(x.internal_edges@.len(), true),
    )
}

/// The scratch need of the junction stage: the index of its keys, or the
/// need of one junction.
pub open spec fn junctions_need(junctions: Seq<JunctionLinks>) -> nat {
    max_nat(unique_need::<&str>(junctions.len()), max_need(junctions, junction_need()))
}

/// The scratch need of one maneuver path: the index of its internal edges.
pub open spec fn maneuver_path_need<'a>() -> spec_fn(ManeuverPathLinks<'a>) -> nat {
    |x: ManeuverPathLinks<'a>| reference_vector_need(x.internal_edges@.len(), true)
}

/// The scratch need of the maneuver path stage: the index of its addresses,
/// or the need of one path.
pub open spec fn maneuver_paths_need(paths: Seq<ManeuverPathLinks>) -> nat {
    max_nat(unique_need::<(&str, &str)>(paths.len()), max_need(paths, maneuver_path_need()))
}

/// The outcome of the junction stage: distinct junction keys, then each
/// junction in order.
#[verifier::opaque]
pub open spec fn junctions_outcome(
    c: RoadEditingPreflightCounts,
    junctions: Seq<JunctionLinks>,
    namespace: Seq<u8>,
    imports: Seq<&str>,
    scratch: PreflightScratch,
) -> Result<RoadEditingPreflightCounts, StageFailure> {
    match unique_step::<&str>(junctions.len(), strs_repeat(junction_keys(junctions)), scratch, "junctions.junctionKey"@) {
        Some(f) => Err(f),
        None => fold_steps(
            c,
            junctions,
            |c: RoadEditingPreflightCounts, i: int, x: JunctionLinks| junction_step(c, x, namespace, imports, scratch),
        ),
    }
}

/// The outcome of the maneuver path stage: distinct addresses, then each
/// path in order.
#[verifier::opaque]
pub open spec fn maneuver_paths_outcome(
    c: RoadEditingPreflightCounts,
    paths: Seq<ManeuverPathLinks>,
    namespace: Seq<u8>,
    imports: Seq<&str>,
    scratch: PreflightScratch,
) -> Result<RoadEditingPreflightCounts, StageFailure> {
    match unique_step::<(&str, &str)>(paths.len(), has_duplicate(path_addresses(paths)), scratch, "maneuverPaths.address"@) {
        Some(f) => Err(f),
        None => fold_steps(
            c,
            paths,
            |c: RoadEditingPreflightCounts, i: int, x: ManeuverPathLinks| maneuver_path_step(c, x, namespace, imports, scratch),
        ),
    }
}

/// The outcome of the maneuver gate stage: distinct addresses, then each
/// gate in order.
#[verifier::opaque]
pub open spec fn maneuver_gates_outcome(
    c: RoadEditingPreflightCounts,
    gates: Seq<ManeuverGateLinks>,
    namespace: Seq<u8>,
    imports: Seq<&str>,
    scratch: PreflightScratch,
) -> Result<RoadEditingPreflightCounts, StageFailure> {
    let limit = string_limit(scratch);
    match unique_step::<(&str, &str)>(gates.len(), has_duplicate(gate_addresses(gates)), scratch, "maneuverGates.address"@) {
        Some(f) => Err(f),
        None => fold_steps(
            c,
            gates,
            |c: RoadEditingPreflightCounts, i: int, x: ManeuverGateLinks| maneuver_gate_step(c, x, namespace, imports, limit),
        ),
    }
}

/// The outcome of the waiting zone stage: distinct addresses, then each zone
/// in order.
#[verifier::opaque]
pub open spec fn waiting_zones_outcome(
    c: RoadEditingPreflightCounts,
    zones: Seq<WaitingZoneLinks>,
    namespace: Seq<u8>,
    imports: Seq<&str>,
    scratch: PreflightScratch,
) -> Result<RoadEditingPreflightCounts, StageFailure> {
    let limit = string_limit(scratch);
    match unique_step::<(&str, &str)>(zones.len(), has_duplicate(zone_addresses(zones)), scratch, "waitingZones.address"@) {
        Some(f) => Err(f),
        None => fold_steps(
            c,
            zones,
            |c: RoadEditingPreflightCounts, i: int, x: WaitingZoneLinks| waiting_zone_step(c, x, namespace, imports, limit),
        ),
    }
}

/// Junction and maneuver path checks read only the limits and the live
/// bytes of the scratch pass.
proof fn lemma_steps_restored(namespace: Seq<u8>, imports: Seq<&str>, a: PreflightScratch, b: PreflightScratch)
    requires
        scratch_restored(a, b),
    ensures
        forall|c: RoadEditingPreflightCounts, x: JunctionLinks|
            #[trigger] junction_step(c, x, namespace, imports, a) == junction_step(c, x, namespace, imports, b),
        forall|c: RoadEditingPreflightCounts, x: ManeuverPathLinks|
            #[trigger] maneuver_path_step(c, x, namespace, imports, a) == maneuver_path_step(c, x, namespace, imports, b),
{
    assert forall|c: RoadEditingPreflightCounts, x: JunctionLinks|
        #[trigger] junction_step(c, x, namespace, imports, a) == junction_step(c, x, namespace, imports, b) by {
        assert forall|c2: RoadEditingPreflightCounts|
            reference_vector_step(c2, x.approach_edges@, 1, "junction.approachEdges"@, true, true, true, namespace, imports, a)
                == #[trigger] reference_vector_step(c2, x.approach_edges@, 1, "junction.approachEdges"@, true, true, true, namespace, imports, b) by {
            lemma_reference_vector_step_restored(c2, x.approach_edges@, 1, "junction.approachEdges"@, true, namespace, imports, a, b);
        }
        assert forall|c3: RoadEditingPreflightCounts|
            reference_vector_step(c3, x.internal_edges@, 1, "junction.internalEdges"@, false, true, true, namespace, imports, a)
                == #[trigger] reference_vector_step(c3, x.internal_edges@, 1, "junction.internalEdges"@, false, true, true, namespace, imports, b) by {
            lemma_reference_vector_step_restored(c3, x.internal_edges@, 1, "junction.internalEdges"@, false, namespace, imports, a, b);
        }
    }
    assert forall|c: RoadEditingPreflightCounts, x: ManeuverPathLinks|
        #[trigger] maneuver_path_step(c, x, namespace, imports, a) == maneuver_path_step(c, x, namespace, imports, b) by {
        assert forall|c4: RoadEditingPreflightCounts|
            reference_vector_step(c4, x.internal_edges@, 1, "maneuverPath.internalEdges"@, false, true, true, namespace, imports, a)
                == #[trigger] reference_vector_step(c4, x.internal_edges@, 1, "maneuverPath.internalEdges"@, false, true, true, namespace, imports, b) by {
            lemma_reference_vector_step_restored(c4, x.internal_edges@, 1, "maneuverPath.internalEdges"@, false, namespace, imports, a, b);
        }
    }
}

/// Checks and charges the junctions; see [`junctions_outcome`].
pub fn validate_junctions(
    usage: &mut RoadEditingPreflightCounts,
    junctions: &[JunctionLinks],
    namespace: &str,
    imports: &[&str],
    scratch: &mut PreflightScratch,
    expected_key: &str,
) -> (r: Result<(), DiagnosticBundle>)
    ensures
        match junctions_outcome(*old(usage), junctions@, namespace.spec_bytes(), imports@, *old(scratch)) {
            Ok(c) => r is Ok && *final(usage) == c,
            Err(f) => r matches Err(b) && stage_reports(b, f, expected_key@),
        },
        scratch_restored(*old(scratch), *final(scratch)),
        r is Ok ==> peak_lifted(*old(scratch), *final(scratch), junctions_need(junctions@)),
{
    proof {
        reveal(junctions_outcome);
    }
    let ghost s0 = *scratch;
    let mut keys: Vec<&str> = Vec::new();
    let mut i: usize = 0;
    while i < junctions.len()
        invariant
            i <= junctions@.len(),
            keys@ == junction_keys(junctions@.take(i as int)),
        decreases junctions@.len() - i,
    {
        keys.push(junctions[i].junction_key);
        proof {
            assert(junction_keys(junctions@.take(i + 1)) =~= junction_keys(junctions@.take(i as int)).push(
                junctions@[i as int].junction_key,
            ));
        }
        i = i + 1;
    }
    proof {
        assert(junctions@.take(i as int) =~= junctions@);
    }
    ensure_unique_strings(keys.as_slice(), "junctions.junctionKey", expected_key, scratch)?;
    let ghost s1 = *scratch;
    let ghost step = |c: RoadEditingPreflightCounts, i: int, x: JunctionLinks|
        junction_step(c, x, namespace.spec_bytes(), imports@, s0);
    let ghost start = *usage;
    let mut i: usize = 0;
    while i < junctions.len()
        invariant
            i <= junctions@.len(),
            s0 == *old(scratch),
            start == *old(usage),
            scratch_restored(s0, *scratch),
            scratch_restored(s0, s1),
            peak_lifted(s1, *scratch, max_need(junctions@.take(i as int), junction_need())),
            junctions_outcome(start, junctions@, namespace.spec_bytes(), imports@, s0) == fold_steps(start, junctions@, step),
            step == (|c: RoadEditingPreflightCounts, i: int, x: JunctionLinks|
                junction_step(c, x, namespace.spec_bytes(), imports@, s0)),
            fold_steps(start, junctions@.take(i as int), step) == Ok::<RoadEditingPreflightCounts, StageFailure>(*usage),
        decreases junctions@.len() - i,
    {
        proof {
            lemma_fold_extend(start, junctions@, step, i as int);
            lemma_steps_restored(namespace.spec_bytes(), imports@, s0, *scratch);
            lemma_max_need_extend(junctions@, junction_need(), i as int);
        }
        match check_junction(usage, &junctions[i], namespace, imports, scratch, expected_key) {
            Ok(()) => {},
            Err(e) => {
                proof {
                    lemma_fold_stops(start, junctions@, step, i + 1);
                }
                return Err(e);
            },
        }
        i = i + 1;
    }
    proof {
        lemma_fold_all(start, junctions@, step);
        lemma_max_need_all(junctions@, junction_need());
    }
    Ok(())
}

/// Checks and charges the maneuver paths; see [`maneuver_paths_outcome`].
pub fn validate_maneuver_paths(
    usage: &mut RoadEditingPreflightCounts,
    paths: &[ManeuverPathLinks],
    namespace: &str,
    imports: &[&str],
    scratch: &mut PreflightScratch,
    expected_key: &str,
) -> (r: Result<(), DiagnosticBundle>)
    ensures
        match maneuver_paths_outcome(*old(usage), paths@, namespace.spec_bytes(), imports@, *old(scratch)) {
            Ok(c) => r is Ok && *final(usage) == c,
            Err(f) => r matches Err(b) && stage_reports(b, f, expected_key@),
        },
        scratch_restored(*old(scratch), *final(scratch)),
        r is Ok ==> peak_lifted(*old(scratch), *final(scratch), maneuver_paths_need(paths@)),
{
    proof {
        reveal(maneuver_paths_outcome);
    }
    let ghost s0 = *scratch;
    let mut addresses: Vec<(&str, &str)> = Vec::new();
    let mut j: usize = 0;
    while j < paths.len()
        invariant
            j <= paths@.len(),
            addresses@ == path_addresses(paths@.take(j as int)),
        decreases paths@.len() - j,
    {
        addresses.push((paths[j].movement, paths[j].maneuver_path_key));
        proof {
            assert(path_addresses(paths@.take(j + 1)) =~= path_addresses(paths@.take(j as int)).push(
                (paths@[j as int].movement, paths@[j as int].maneuver_path_key),
            ));
        }
        j = j + 1;
    }
    proof {
        assert(paths@.take(j as int) =~= paths@);
    }
    ensure_unique_by::<(&str, &str)>(addresses.as_slice(), "maneuverPaths.address", expected_key, scratch)?;
    let ghost s1 = *scratch;
    let ghost step = |c: RoadEditingPreflightCounts, i: int, x: ManeuverPathLinks|
        maneuver_path_step(c, x, namespace.spec_bytes(), imports@, s0);
    let ghost start = *usage;
    let mut i: usize = 0;
    while i < paths.len()
        invariant
            i <= paths@.len(),
            s0 == *old(scratch),
            start == *old(usage),
            scratch_restored(s0, *scratch),
            scratch_restored(s0, s1),
            peak_lifted(s1, *scratch, max_need(paths@.take(i as int), maneuver_path_need())),
            maneuver_paths_outcome(start, paths@, namespace.spec_bytes(), imports@, s0) == fold_steps(start, paths@, step),
            step == (|c: RoadEditingPreflightCounts, i: int, x: ManeuverPathLinks|
                maneuver_path_step(c, x, namespace.spec_bytes(), imports@, s0)),
            fold_steps(start, paths@.take(i as int), step) == Ok::<RoadEditingPreflightCounts, StageFailure>(*usage),
        decreases paths@.len() - i,
    {
        proof {
            lemma_fold_extend(start, paths@, step, i as int);
            lemma_steps_restored(namespace.spec_bytes(), imports@, s0, *scratch);
            lemma_max_need_extend(paths@, maneuver_path_need(), i as int);
        }
        match check_maneuver_path(usage, &paths[i], namespace, imports, scratch, expected_key) {
            Ok(()) => {},
            Err(e) => {
                proof {
                    lemma_fold_stops(start, paths@, step, i + 1);
                }
                return Err(e);
            },
        }
        i = i + 1;
    }
    proof {
        lemma_fold_all(start, paths@, step);
        lemma_max_need_all(paths@, maneuver_path_need());
    }
    Ok(())
}

/// Checks and charges the maneuver gates; see [`maneuver_gates_outcome`].
pub fn validate_maneuver_gates(
    usage: &mut RoadEditingPreflightCounts,
    gates: &[ManeuverGateLinks],
    namespace: &str,
    imports: &[&str],
    scratch: &mut PreflightScratch,
    expected_key: &str,
) -> (r: Result<(), DiagnosticBundle>)
    ensures
        match maneuver_gates_outcome(*old(usage), gates@, namespace.spec_bytes(), imports@, *old(scratch)) {
            Ok(c) => r is Ok && *final(usage) == c,
            Err(f) => r matches Err(b) && stage_reports(b, f, expected_key@),
        },
        scratch_restored(*old(scratch), *final(scratch)),
        r is Ok ==> peak_lifted(*old(scratch), *final(scratch), unique_need::<(&str, &str)>(gates@.len())),
{
    proof {
        reveal(maneuver_gates_outcome);
    }
    let ghost s0 = *scratch;
    let limits = *scratch.limits();
    let mut addresses: Vec<(&str, &str)> = Vec::new();
    let mut j: usize = 0;
    while j < gates.len()
        invariant
            j <= gates@.len(),
            addresses@ == gate_addresses(gates@.take(j as int)),
        decreases gates@.len() - j,
    {
        addresses.push((gates[j].maneuver_path, gates[j].maneuver_gate_key));
        proof {
            assert(gate_addresses(gates@.take(j + 1)) =~= gate_addresses(gates@.take(j as int)).push(
                (gates@[j as int].maneuver_path, gates@[j as int].maneuver_gate_key),
            ));
        }
        j = j + 1;
    }
    proof {
        assert(gates@.take(j as int) =~= gates@);
    }
    ensure_unique_by::<(&str, &str)>(addresses.as_slice(), "maneuverGates.address", expected_key, scratch)?;
    let ghost limit = string_limit(s0);
    let ghost step = |c: RoadEditingPreflightCounts, i: int, x: ManeuverGateLinks|
        maneuver_gate_step(c, x, namespace.spec_bytes(), imports@, limit);
    let ghost start = *usage;
    let mut i: usize = 0;
    while i < gates.len()
        invariant
            i <= gates@.len(),
            s0 == *old(scratch),
            start == *old(usage),
            limits == s0.spec_limits(),
            limit == string_limit(s0),
            scratch_restored(s0, *scratch),
            maneuver_gates_outcome(start, gates@, namespace.spec_bytes(), imports@, s0) == fold_steps(start, gates@, step),
            step == (|c: RoadEditingPreflightCounts, i: int, x: ManeuverGateLinks|
                maneuver_gate_step(c, x, namespace.spec_bytes(), imports@, limit)),
            fold_steps(start, gates@.take(i as int), step) == Ok::<RoadEditingPreflightCounts, StageFailure>(*usage),
        decreases gates@.len() - i,
    {
        proof {
            lemma_fold_extend(start, gates@, step, i as int);
        }
        match check_maneuver_gate(usage, &gates[i], namespace, imports, &limits, expected_key) {
            Ok(()) => {},
            Err(e) => {
                proof {
                    lemma_fold_stops(start, gates@, step, i + 1);
                }
                return Err(e);
            },
        }
        i = i + 1;
    }
    proof {
        lemma_fold_all(start, gates@, step);
    }
    Ok(())
}

/// Checks and charges the waiting zones; see [`waiting_zones_outcome`].
pub fn validate_waiting_zones(
    usage: &mut RoadEditingPreflightCounts,
    zones: &[WaitingZoneLinks],
    namespace: &str,
    imports: &[&str],
    scratch: &mut PreflightScratch,
    expected_key: &str,
) -> (r: Result<(), DiagnosticBundle>)
    ensures
        match waiting_zones_outcome(*old(usage), zones@, namespace.spec_bytes(), imports@, *old(scratch)) {
            Ok(c) => r is Ok && *final(usage) == c,
            Err(f) => r matches Err(b) && stage_reports(b, f, expected_key@),
        },
        scratch_restored(*old(scratch), *final(scratch)),
        r is Ok ==> peak_lifted(*old(scratch), *final(scratch), unique_need::<(&str, &str)>(zones@.len())),
{
    proof {
        reveal(waiting_zones_outcome);
    }
    let ghost s0 = *scratch;
    let limits = *scratch.limits();
    let mut addresses: Vec<(&str, &str)> = Vec::new();
    let mut j: usize = 0;
    while j < zones.len()
        invariant
            j <= zones@.len(),
            addresses@ == zone_addresses(zones@.take(j as int)),
        decreases zones@.len() - j,
    {
        addresses.push((zones[j].maneuver_path, zones[j].waiting_zone_key));
        proof {
            assert(zone_addresses(zones@.take(j + 1)) =~= zone_addresses(zones@.take(j as int)).push(
                (zones@[j as int].maneuver_path, zones@[j as int].waiting_zone_key),
            ));
        }
        j = j + 1;
    }
    proof {
        assert(zones@.take(j as int) =~= zones@);
    }
    ensure_unique_by::<(&str, &str)>(addresses.as_slice(), "waitingZones.address", expected_key, scratch)?;
    let ghost limit = string_limit(s0);
    let ghost step = |c: RoadEditingPreflightCounts, i: int, x: WaitingZoneLinks|
        waiting_zone_step(c, x, namespace.spec_bytes(), imports@, limit);
    let ghost start = *usage;
    let mut i: usize = 0;
    while i < zones.len()
        invariant
            i <= zones@.len(),
            s0 == *old(scratch),
            start == *old(usage),
            limits == s0.spec_limits(),
            limit == string_limit(s0),
            scratch_restored(s0, *scratch),
            waiting_zones_outcome(start, zones@, namespace.spec_bytes(), imports@, s0) == fold_steps(start, zones@, step),
            step == (|c: RoadEditingPreflightCounts, i: int, x: WaitingZoneLinks|
                waiting_zone_step(c, x, namespace.spec_bytes(), imports@, limit)),
            fold_steps(start, zones@.take(i as int), step) == Ok::<RoadEditingPreflightCounts, StageFailure>(*usage),
        decreases zones@.len() - i,
    {
        proof {
            lemma_fold_extend(start, zones@, step, i as int);
        }
        match check_waiting_zone(usage, &zones[i], namespace, imports, &limits, expected_key) {
            Ok(()) => {},
            Err(e) => {
                proof {
                    lemma_fold_stops(start, zones@, step, i + 1);
                }
                return Err(e);
            },
        }
        i = i + 1;
    }
    proof {
        lemma_fold_all(start, zones@, step);
    }
    Ok(())
}

/// Whether the turn direction code of a movement names a maneuver
/// direction.
#[derive(Clone, Copy, Debug, PartialEq, Eq, Structural)]
pub enum TurnDirectionCode {
    Known,
    Unknown,
}

/// A movement: its junction, key, optional turn direction, directed entry
/// and exit approach keys, canvas selection.
#[derive(Clone, Copy, Debug)]
pub struct MovementFields<'a> {
    pub junction: &'a str,
    pub movement_key: &'a str,
    pub turn_direction: Option<TurnDirectionCode>,
    pub directed_entry_approach_key: &'a str,
    pub directed_exit_approach_key: &'a str,
    pub canvas_selection: Option<&'a str>,
}

/// Checks and charges one movement: an unknown turn direction is refused
/// before anything is counted; a known one adds a record and a relation.
pub open spec fn movement_step(
    c: RoadEditingPreflightCounts,
    x: MovementFields,
    namespace: Seq<u8>,
    imports: Seq<&str>,
    limit: u64,
) -> Result<RoadEditingPreflightCounts, StageFailure> {
    if x.turn_direction == Some(TurnDirectionCode::Unknown) {
        Err(Err(("movement.turnDirection"@, RoadEditingInputViolation::InvalidCombination)))
    } else {
        let c0 = c.with_declaration(EntityKind::Movement);
        let c1 = if x.turn_direction is Some {
            with_relations(with_records(c0, 1), 1)
        } else {
            c0
        };
        match token_step(c1, x.movement_key.spec_bytes(), limit, "movement.movementKey"@) {
            Err(f) => Err(f),
            Ok(c2) => match reference_step(c2, x.junction.spec_bytes(), 1, false, namespace, imports, limit, "movement.junction"@) {
                Err(f) => Err(f),
                Ok(c3) => match token_step(
                    c3,
                    x.directed_entry_approach_key.spec_bytes(),
                    limit,
                    "movement.directedEntryApproachKey"@,
                ) {
                    Err(f) => Err(f),
                    Ok(c4) => match token_step(
                        c4,
                        x.directed_exit_approach_key.spec_bytes(),
                        limit,
                        "movement.directedExitApproachKey"@,
                    ) {
                        Err(f) => Err(f),
                        Ok(c5) => canvas_step(c5, x.canvas_selection, limit),
                    },
                },
            },
        }
    }
}

/// The `(junction, key)` addresses of the movements.
pub open spec fn movement_addresses<'a>(xs: Seq<MovementFields<'a>>) -> Seq<(&'a str, &'a str)> {
    xs.map_values(|x: MovementFields<'a>| (x.junction, x.movement_key))
}

/// Distinct movement addresses, then each movement in order.
#[verifier::opaque]
pub open spec fn movements_outcome(
    c: RoadEditingPreflightCounts,
    xs: Seq<MovementFields>,
    namespace: Seq<u8>,
    imports: Seq<&str>,
    scratch: PreflightScratch,
) -> Result<RoadEditingPreflightCounts, StageFailure> {
    let limit = single_string_limit(scratch.spec_limits());
    match unique_step::<(&str, &str)>(xs.len(), has_duplicate(movement_addresses(xs)), scratch, "movements.address"@) {
        Some(f) => Err(f),
        None => fold_steps(
            c,
            xs,
            |c: RoadEditingPreflightCounts, i: int, x: MovementFields| movement_step(c, x, namespace, imports, limit),
        ),
    }
}

/// Checks and charges one movement; see [`movement_step`].
pub fn check_movement(
    usage: &mut RoadEditingPreflightCounts,
    x: &MovementFields,
    namespace: &str,
    imports: &[&str],
    limits: &CompileLimits,
    key: &str,
) -> (r: Result<(), DiagnosticBundle>)
    ensures
        match movement_step(*old(usage), *x, namespace.spec_bytes(), imports@, single_string_limit(*limits)) {
            Ok(c) => r is Ok && *final(usage) == c,
            Err(f) => r matches Err(b) && stage_reports(b, f, key@),
        },
{
    if let Some(TurnDirectionCode::Unknown) = x.turn_direction {
        return Err(invalid_combination("movement.turnDirection", key));
    }
    usage.charge_declaration(EntityKind::Movement);
    if x.turn_direction.is_some() {
        usage.typed_ast_record_count = usage.typed_ast_record_count.saturating_add(1);
        usage.charge_relation(1);
    }
    usage.charge_token(x.movement_key, "movement.movementKey", limits, key)?;
    usage.charge_reference(x.junction, 1, false, "movement.junction", namespace, imports, limits, key)?;
    usage.charge_token(x.directed_entry_approach_key, "movement.directedEntryApproachKey", limits, key)?;
    usage.charge_token(x.directed_exit_approach_key, "movement.directedExitApproachKey", limits, key)?;
    usage.charge_canvas(x.canvas_selection, limits, key)
}

/// Checks and charges the movements; see [`movements_outcome`].
pub fn validate_movements(
    usage: &mut RoadEditingPreflightCounts,
    xs: &[MovementFields],
    namespace: &str,
    imports: &[&str],
    scratch: &mut PreflightScratch,
    key: &str,
) -> (r: Result<(), DiagnosticBundle>)
    ensures
        match movements_outcome(*old(usage), xs@, namespace.spec_bytes(), imports@, *old(scratch)) {
            Ok(c) => r is Ok && *final(usage) == c,
            Err(f) => r matches Err(b) && stage_reports(b, f, key@),
        },
        scratch_restored(*old(scratch), *final(scratch)),
        r is Ok ==> peak_lifted(*old(scratch), *final(scratch), unique_need::<(&str, &str)>(xs@.len())),
{
    proof {
        reveal(movements_outcome);
    }
    let ghost s0 = *scratch;
    let limits = *scratch.limits();
    let mut keys: Vec<(&str, &str)> = Vec::new();
    let mut j: usize = 0;
    while j < xs.len()
        invariant
            j <= xs@.len(),
            keys@ == movement_addresses(xs@.take(j as int)),
        decreases xs@.len() - j,
    {
        keys.push((xs[j].junction, xs[j].movement_key));
        proof {
            assert(movement_addresses(xs@.take(j + 1)) =~= movement_addresses(xs@.take(j as int)).push((xs@[j as int].junction, xs@[j as int].movement_key)));
        }
        j = j + 1;
    }
    proof {
        assert(xs@.take(j as int) =~= xs@);
    }
    ensure_unique_by::<(&str, &str)>(keys.as_slice(), "movements.address", key, scratch)?;
    let ghost limit = single_string_limit(limits);
    let ghost step = |c: RoadEditingPreflightCounts, i: int, x: MovementFields|
        movement_step(c, x, namespace.spec_bytes(), imports@, limit);
    let ghost start = *usage;
    let mut i: usize = 0;
    while i < xs.len()
        invariant
            i <= xs@.len(),
            s0 == *old(scratch),
            start == *old(usage),
            limits == s0.spec_limits(),
            limit == single_string_limit(limits),
            scratch_restored(s0, *scratch),
            movements_outcome(start, xs@, namespace.spec_bytes(), imports@, s0) == fold_steps(start, xs@, step),
            step == (|c: RoadEditingPreflightCounts, i: int, x: MovementFields|
                movement_step(c, x, namespace.spec_bytes(), imports@, limit)),
            fold_steps(start, xs@.take(i as int), step) == Ok::<RoadEditingPreflightCounts, StageFailure>(*usage),
        decreases xs@.len() - i,
    {
        proof {
            lemma_fold_extend(start, xs@, step, i as int);
        }
        match check_movement(usage, &xs[i], namespace, imports, &limits, key) {
            Ok(()) => {},
            Err(e) => {
                proof {
                    lemma_fold_stops(start, xs@, step, i + 1);
                }
                return Err(e);
            },
        }
        i = i + 1;
    }
    proof {
        lemma_fold_all(start, xs@, step);
    }
    Ok(())
}

/// The junction table outcomes read only the limits and the live bytes of
/// the scratch pass.
pub proof fn lemma_junction_outcomes_restored(
    c: RoadEditingPreflightCounts,
    junctions: Seq<JunctionLinks>,
    movements: Seq<MovementFields>,
    paths: Seq<ManeuverPathLinks>,
    gates: Seq<ManeuverGateLinks>,
    zones: Seq<WaitingZoneLinks>,
    namespace: Seq<u8>,
    imports: Seq<&str>,
    a: PreflightScratch,
    b: PreflightScratch,
)
    requires
        scratch_restored(a, b),
    ensures
        junctions_outcome(c, junctions, namespace, imports, a) == junctions_outcome(c, junctions, namespace, imports, b),
        movements_outcome(c, movements, namespace, imports, a) == movements_outcome(c, movements, namespace, imports, b),
        maneuver_paths_outcome(c, paths, namespace, imports, a) == maneuver_paths_outcome(c, paths, namespace, imports, b),
        maneuver_gates_outcome(c, gates, namespace, imports, a) == maneuver_gates_outcome(c, gates, namespace, imports, b),
        waiting_zones_outcome(c, zones, namespace, imports, a) == waiting_zones_outcome(c, zones, namespace, imports, b),
{
    reveal(junctions_outcome);
    reveal(movements_outcome);
    reveal(maneuver_paths_outcome);
    reveal(maneuver_gates_outcome);
    reveal(waiting_zones_outcome);
    lemma_steps_restored(namespace, imports, a, b);
    assert((|c: RoadEditingPreflightCounts, i: int, x: JunctionLinks| junction_step(c, x, namespace, imports, a))
        =~= (|c: RoadEditingPreflightCounts, i: int, x: JunctionLinks| junction_step(c, x, namespace, imports, b)));
    assert((|c: RoadEditingPreflightCounts, i: int, x: ManeuverPathLinks| maneuver_path_step(c, x, namespace, imports, a))
        =~= (|c: RoadEditingPreflightCounts, i: int, x: ManeuverPathLinks| maneuver_path_step(c, x, namespace, imports, b)));
}

} // verus!
