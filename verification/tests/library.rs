use lib::declaration::EntityKind;
use lib::diagnostic::{DiagnosticPayload, RoadEditingInputViolation, RoadEditingSourceViolation};
use lib::junction_check::MovementFields;
use lib::limits::{CompileLimitDimension, CompileLimits};
use lib::links::{validate, SignalControllerLinks, SignalPhaseLinks, SignalPhaseStateLinks, SourceLinks, WireSignalAspect};
use lib::policy::evidence_keys;
use lib::reader::{check_framing, probe_format_version, FORMAT_VERSION};
use lib::reference::RoadEditingReference;
use lib::rules::validate_wire_reference;
use lib::scratch::PreflightScratch;
use lib::source_map::SourceMapSizing;
use lib::writer::RoadEditingSourceWriter;

const KEY: &str = "roads/main";

fn no_links() -> SourceLinks<'static> {
    SourceLinks {
        junctions: vec![],
        movements: vec![],
        maneuver_paths: vec![],
        maneuver_gates: vec![],
        waiting_zones: vec![],
        road_sections: vec![],
        lane_groups: vec![],
        road_corridors: vec![],
        facility_bands: vec![],
        authoring_lanes: vec![],
        signal_groups: vec![],
        signal_phases: vec![],
        signal_controllers: vec![],
    }
}

fn field_of(payload: &DiagnosticPayload) -> Option<String> {
    match payload {
        DiagnosticPayload::InvalidRoadEditingSource { field, .. } => field.clone(),
        DiagnosticPayload::InvalidRoadEditingInput { field, .. } => Some(field.clone()),
        _ => None,
    }
}

#[test]
fn wire_spelling_reads_back_through_the_reference_rules() {
    let reference = RoadEditingReference::imported(
        EntityKind::AuthoringLane,
        "city",
        vec!["c1".to_string(), "s1".to_string()],
        "l1",
    )
    .expect("imported lane");
    let spelling = reference.wire_spelling();
    assert_eq!(spelling, "city::c1>s1>l1");
    assert_eq!(reference.wire_len(), spelling.len());
    let parsed = validate_wire_reference(&spelling, 3, true).expect("round trip");
    assert_eq!(parsed.namespace(), Some("city"));
    assert_eq!(parsed.key_components(), vec!["c1", "s1", "l1"]);
}

#[test]
fn local_spelling_has_no_namespace() {
    let reference = RoadEditingReference::local(EntityKind::Junction, "j1").expect("local junction");
    assert_eq!(reference.wire_spelling(), "j1");
    assert_eq!(reference.wire_len(), 2);
    let parsed = validate_wire_reference("j1", 1, false).expect("local");
    assert_eq!(parsed.namespace(), None);
}

#[test]
fn a_movement_must_name_a_junction_of_the_source() {
    let limits = CompileLimits::p100_initial_v1();
    let mut scratch = PreflightScratch::new(&limits, 0);
    let mut links = no_links();
    links.junctions = vec!["j1"];
    links.movements = vec![("j2", "m1")];
    let error = validate(&links, &mut scratch, KEY).unwrap_err();
    assert_eq!(field_of(&error.diagnostics[0].payload).as_deref(), Some("movement.junction"));
    assert_eq!(scratch.live_bytes(), 0);
}

#[test]
fn a_consistent_closure_passes_and_returns_its_scratch() {
    let limits = CompileLimits::p100_initial_v1();
    let mut scratch = PreflightScratch::new(&limits, 0);
    let mut links = no_links();
    links.junctions = vec!["j1"];
    links.movements = vec![("j1", "m1")];
    links.maneuver_paths = vec![("j1>m1", "p1")];
    validate(&links, &mut scratch, KEY).expect("closed");
    assert_eq!(scratch.live_bytes(), 0);
    assert!(scratch.peak_bytes() > 0);
}

#[test]
fn simultaneous_reservations_add_up_until_released() {
    let limits = CompileLimits::p100_initial_v1();
    let mut scratch = PreflightScratch::new(&limits, 0);
    let first = scratch.reserve_vec::<u64>(4).expect("first");
    let mut second = scratch.reserve_vec::<u32>(2).expect("second");
    assert_eq!(first.bytes(), 32);
    assert_eq!(second.bytes(), 8);
    assert_eq!(scratch.live_bytes(), 40);
    second.push(7);
    second.push(9);
    second.set(0, 5);
    assert_eq!(second.entries(), &[5, 9]);
    assert_eq!(second.len(), 2);
    assert_eq!(second.bytes(), 8);
    scratch.release_vec(second);
    scratch.release_vec(first);
    assert_eq!(scratch.live_bytes(), 0);
    assert_eq!(scratch.peak_bytes(), 40);
}

#[test]
fn admitted_bytes_count_against_the_live_budget() {
    let limits = CompileLimits::p100_initial_v1();
    let live_limit = limits.value(CompileLimitDimension::CompilerControlledLiveBytes);
    let mut scratch = PreflightScratch::new(&limits, live_limit);
    let error = scratch.reserve::<u8>(1).unwrap_err();
    assert_eq!(
        error.diagnostics[0].payload,
        DiagnosticPayload::CompileLimitExceeded {
            dimension: CompileLimitDimension::CompilerControlledLiveBytes,
            limit: live_limit,
            observed: live_limit + 1,
        }
    );
    assert_eq!(scratch.live_bytes(), 0);
    assert_eq!(scratch.peak_bytes(), 0);
}

fn framed(version: u32) -> Vec<u8> {
    // size prefix, root offset, identifier, vtable (6 bytes + pad), root table
    let mut bytes = vec![0u8; 4];
    bytes.extend_from_slice(&16u32.to_le_bytes()); // root table at 4 + 16 = 20
    bytes.extend_from_slice(b"LFRE");
    bytes.extend_from_slice(&6u16.to_le_bytes()); // vtable length at 12
    bytes.extend_from_slice(&8u16.to_le_bytes()); // table length
    bytes.extend_from_slice(&4u16.to_le_bytes()); // field 0 at offset 4
    bytes.extend_from_slice(&[0, 0]);
    bytes.extend_from_slice(&8i32.to_le_bytes()); // table 20 -> vtable 12
    bytes.extend_from_slice(&version.to_le_bytes());
    let len = (bytes.len() - 4) as u32;
    bytes[..4].copy_from_slice(&len.to_le_bytes());
    bytes
}

#[test]
fn the_format_version_is_probed_through_the_root_vtable() {
    assert_eq!(probe_format_version(&framed(FORMAT_VERSION)), Some(FORMAT_VERSION));
    assert_eq!(probe_format_version(&framed(3)), Some(3));
    assert_eq!(probe_format_version(&[0u8; 8]), None);
}

#[test]
fn framing_accepts_the_current_version_and_rejects_another() {
    let limits = CompileLimits::p100_initial_v1();
    check_framing(&framed(FORMAT_VERSION), &limits, 0, KEY).expect("framed");
    let error = check_framing(&framed(3), &limits, 0, KEY).unwrap_err();
    match &error.diagnostics[0].payload {
        DiagnosticPayload::InvalidRoadEditingSource { violation, .. } => assert_eq!(
            *violation,
            RoadEditingSourceViolation::UnsupportedFormatVersion { expected: FORMAT_VERSION, actual: 3 }
        ),
        other => panic!("unexpected payload {:?}", other),
    }
}

#[test]
fn framing_rejects_a_wrong_size_prefix() {
    let limits = CompileLimits::p100_initial_v1();
    let mut bytes = framed(FORMAT_VERSION);
    bytes[0] = bytes[0].wrapping_add(1);
    let declared = u64::from(u32::from_le_bytes([bytes[0], bytes[1], bytes[2], bytes[3]]));
    let error = check_framing(&bytes, &limits, 0, KEY).unwrap_err();
    match &error.diagnostics[0].payload {
        DiagnosticPayload::InvalidRoadEditingSource { violation, .. } => assert_eq!(
            *violation,
            RoadEditingSourceViolation::SizePrefixMismatch { declared, actual: (bytes.len() - 4) as u64 }
        ),
        other => panic!("unexpected payload {:?}", other),
    }
}

#[test]
fn sealing_keeps_the_buffer_from_its_start() {
    let limits = CompileLimits::p100_initial_v1();
    let writer = RoadEditingSourceWriter::new(&limits);
    let mut storage = vec![9u8, 9u8];
    storage.extend_from_slice(&framed(FORMAT_VERSION));
    let buffer = writer.seal(storage, 2, 1024).expect("sealed");
    assert_eq!(buffer.as_bytes(), framed(FORMAT_VERSION).as_slice());
    assert!(buffer.retained_capacity_bytes() >= buffer.as_bytes().len() + 2);
}

#[test]
fn sealing_rejects_a_buffer_over_its_bound() {
    let limits = CompileLimits::p100_initial_v1();
    let writer = RoadEditingSourceWriter::new(&limits);
    let bytes = framed(FORMAT_VERSION);
    let observed = bytes.len() as u64;
    let error = match writer.seal(bytes, 0, 8) {
        Ok(_) => panic!("a buffer over its bound was sealed"),
        Err(error) => error,
    };
    assert_eq!(
        error.diagnostics[0].payload,
        DiagnosticPayload::CompileLimitExceeded {
            dimension: CompileLimitDimension::SourceBytesPerModule,
            limit: 8,
            observed,
        }
    );
}

#[test]
fn evidence_keys_come_back_sorted() {
    let keys = evidence_keys(vec!["zeta".to_string(), "alpha".to_string(), "mid".to_string()]).expect("keys");
    assert_eq!(keys, vec!["alpha".to_string(), "mid".to_string(), "zeta".to_string()]);
}

#[test]
fn evidence_keys_must_be_distinct() {
    let error = evidence_keys(vec!["a".to_string(), "b".to_string(), "a".to_string()]).unwrap_err();
    assert_eq!(
        error.diagnostics[0].payload,
        DiagnosticPayload::InvalidRoadEditingInput {
            field: "policyRule.evidenceKeys".to_string(),
            violation: RoadEditingInputViolation::DuplicateValue,
        }
    );
}

#[test]
fn source_map_sizing_saturates_its_sums() {
    let sizing = SourceMapSizing::from_components(1, 2, u64::MAX, 3, 4, 5, 6, 7);
    let observed = sizing.limit_observations();
    assert_eq!(observed[0], (CompileLimitDimension::OutputBytes, u64::MAX));
    assert_eq!(observed[1], (CompileLimitDimension::StageScratchBytes, 7));
    assert_eq!(observed[2], (CompileLimitDimension::CompilerControlledLiveBytes, 23));
}

#[test]
fn movement_fields_are_plain_values() {
    let m = MovementFields {
        junction: "j1",
        movement_key: "m1",
        turn_direction: None,
        directed_entry_approach_key: "a",
        directed_exit_approach_key: "b",
        canvas_selection: Some("c"),
    };
    assert_eq!(m.canvas_selection, Some("c"));
}

fn signal_links(phase_owner: &'static str, group_ref: &'static str) -> SourceLinks<'static> {
    let mut links = no_links();
    links.signal_groups = vec!["signal-group"];
    links.signal_controllers = vec![SignalControllerLinks {
        signal_controller_key: "controller",
        offset_milliseconds: 0,
        signal_groups: vec![group_ref],
        signal_phases: vec!["controller>phase"],
        canvas_selection: None,
    }];
    links.signal_phases = vec![SignalPhaseLinks {
        signal_controller: phase_owner,
        signal_phase_key: "phase",
        duration_milliseconds: 1_000,
        states: vec![SignalPhaseStateLinks { signal_group: "signal-group", aspect: WireSignalAspect::Green }],
        canvas_selection: None,
    }];
    links
}

fn closure_field(links: &SourceLinks) -> Option<String> {
    let limits = CompileLimits::p100_initial_v1();
    let mut scratch = PreflightScratch::new(&limits, 0);
    match validate(links, &mut scratch, KEY) {
        Ok(()) => None,
        Err(b) => field_of(&b.diagnostics[0].payload),
    }
}

#[test]
fn a_reciprocal_signal_controller_closes() {
    assert_eq!(closure_field(&signal_links("controller", "signal-group")), None);
}

#[test]
fn a_phase_listed_by_another_controller_is_rejected() {
    assert_eq!(
        closure_field(&signal_links("controllez", "signal-group")),
        Some("signalController.signalPhases".to_string())
    );
}

#[test]
fn an_imported_signal_group_owner_is_rejected() {
    assert_eq!(
        closure_field(&signal_links("controller", "signal::group")),
        Some("signalController.signalGroups".to_string())
    );
}
