use lib::access_check::{AccessRuleFields, WireAccessEffect, WireAccessTargetKind};
use lib::conflict_check::{ConflictZoneFields, ConflictZoneRegionFields};
use lib::corridor_check::{CorridorElementFields, RoadCorridorFields, WireCorridorElementKind, WireStationEndKind};
use lib::declaration::MAX_CONFLICT_ZONE_REGION_RING_POINTS;
use lib::diagnostic::{DiagnosticBundle, DiagnosticPayload, RoadEditingInputViolation, RoadEditingSourceViolation};
use lib::header_check::{
    ModuleHeaderLinks, ProvenanceLinks, WireAccuracyProfile, WireDirectionProfile, WireProvenanceKind,
};
use lib::junction_check::{
    JunctionLinks, ManeuverGateLinks, MovementFields, TurnDirectionCode, WaitingZoneLinks, WireSignalControl,
};
use lib::limits::{CompileLimitDimension, CompileLimits};
use lib::links::SourceLinks;
use lib::model::{direct_frontend_options_digest, direct_inputs_digest, DIRECT_GENERATOR_BUILD_ID};
use lib::parking_check::ParkingFacilityFields;
use lib::policy_check::{validate_policies, RightOfWayPolicyFields};
use lib::reader::FORMAT_VERSION;
use lib::geometry_check::LaneEdgeFields;
use lib::section_check::RoadSectionFields;
use lib::source_preflight::{preflight_source, source_links, RoadEditingSourceFields};
use lib::source_verify::{check_verified_source, count_directions, table_count};

const KEY: &str = "roads/main";

fn empty_source() -> RoadEditingSourceFields<'static> {
    RoadEditingSourceFields {
        header: ModuleHeaderLinks {
            authoring_namespace_id: "roads",
            source_document_key: KEY,
            imports: vec![],
            provenance: ProvenanceLinks {
                kind: WireProvenanceKind::Direct,
                generator_build_id: DIRECT_GENERATOR_BUILD_ID,
                description: "hand authored",
                parameters_and_inputs_digest: direct_inputs_digest(),
                frontend_options_digest: direct_frontend_options_digest(),
                random_seed: None,
            },
            geometry_accuracy_profile: WireAccuracyProfile::Fine2Cm,
            geometry_direction_profile: WireDirectionProfile::Smooth1Deg,
        },
        root_slots: vec![],
        movement_slots: vec![],
        road_alignments: vec![],
        road_corridors: vec![],
        road_sections: vec![],
        authoring_lanes: vec![],
        lane_edges: vec![],
        junctions: vec![],
        movements: vec![],
        maneuver_paths: vec![],
        maneuver_gates: vec![],
        waiting_zones: vec![],
        stop_lines: vec![],
        signal_groups: vec![],
        signal_controllers: vec![],
        signal_phases: vec![],
        parking_facilities: vec![],
        parking_spaces: vec![],
        lane_groups: vec![],
        facility_bands: vec![],
        participant_classes: vec![],
        access_rules: vec![],
        vehicle_profiles: vec![],
        canonical_frames: vec![],
        conflict_zones: vec![],
        participant_streams: vec![],
        conflict_zone_regions: vec![],
        policies: vec![],
        links: SourceLinks {
            junctions: vec![],
            movements: vec![],
            maneuver_paths: vec![],
            maneuver_gates: vec![],
            waiting_zones: vec![],
            road_sections: vec![],
            lane_groups: vec![],
            road_corridors: vec![],
            facility_bands: vec![],
            authoring_lanes: vec![],
            signal_groups: vec![],
            signal_phases: vec![],
            signal_controllers: vec![],
        },
    }
}

/// `source` with the closure links of its own tables.
fn linked(source: &RoadEditingSourceFields<'static>) -> RoadEditingSourceFields<'static> {
    let mut s = source.clone();
    s.links = source_links(&s);
    s
}

fn semantic(bundle: &DiagnosticBundle) -> (String, RoadEditingInputViolation) {
    assert_eq!(bundle.diagnostics.len(), 1);
    match &bundle.diagnostics[0].payload {
        DiagnosticPayload::InvalidRoadEditingSource {
            violation: RoadEditingSourceViolation::InvalidSemanticValue(v),
            field: Some(field),
            expected_key,
            ..
        } => {
            assert_eq!(expected_key, KEY);
            (field.clone(), *v)
        }
        other => panic!("unexpected payload {:?}", other),
    }
}

fn junction(key: &'static str, approach: Vec<&'static str>, internal: Vec<&'static str>) -> JunctionLinks<'static> {
    JunctionLinks { junction_key: key, approach_edges: approach, internal_edges: internal, canvas_selection: None }
}

#[test]
fn empty_source_passes_with_only_the_header_record() {
    let limits = CompileLimits::p100_initial_v1();
    let counts = preflight_source(&empty_source(), &limits, KEY, 0).expect("empty source");
    assert_eq!(counts.typed_ast_record_count, 1);
    assert_eq!(counts.declaration_count, 0);
    assert_eq!(counts.string_item_count, 4);
    assert_eq!(counts.preflight_peak_scratch_bytes, 0);
}

#[test]
fn empty_source_accounting_matches_its_three_tables() {
    let limits = CompileLimits::p100_initial_v1();
    let source = empty_source();
    assert_eq!(table_count(&source), 3);
    let counts = check_verified_source(&linked(&source), FORMAT_VERSION, &limits, KEY, 0, 0).expect("verified");
    assert_eq!(counts.typed_ast_record_count, 1);
}

#[test]
fn junctions_are_counted_and_checked() {
    let limits = CompileLimits::p100_initial_v1();
    let mut source = empty_source();
    source.junctions = vec![junction("j1", vec!["e1"], vec!["e2"])];
    let counts = preflight_source(&linked(&source), &limits, KEY, 0).expect("one junction");
    assert_eq!(counts.declaration_count, 1);
    assert_eq!(counts.symbol_count, 1);
    assert_eq!(counts.typed_ast_record_count, 2);
    assert_eq!(counts.relation_occurrence_count, 2);
    assert_eq!(counts.reference_count, 2);
    assert_eq!(table_count(&source), 4);
}

#[test]
fn duplicate_junction_keys_are_rejected() {
    let limits = CompileLimits::p100_initial_v1();
    let mut source = empty_source();
    source.junctions = vec![junction("j1", vec!["e1"], vec![]), junction("j1", vec!["e3"], vec![])];
    let error = preflight_source(&linked(&source), &limits, KEY, 0).unwrap_err();
    assert_eq!(semantic(&error), ("junctions.junctionKey".to_string(), RoadEditingInputViolation::DuplicateValue));
}

#[test]
fn an_edge_cannot_both_approach_and_cross_a_junction() {
    let limits = CompileLimits::p100_initial_v1();
    let mut source = empty_source();
    source.header.imports = vec!["city"];
    source.junctions = vec![junction("j1", vec!["city::e1"], vec!["city::e1"])];
    let error = preflight_source(&linked(&source), &limits, KEY, 0).unwrap_err();
    assert_eq!(semantic(&error), ("junction.edgeRoles".to_string(), RoadEditingInputViolation::InvalidCombination));
}

#[test]
fn a_junction_needs_an_approach_edge() {
    let limits = CompileLimits::p100_initial_v1();
    let mut source = empty_source();
    source.junctions = vec![junction("j1", vec![], vec!["e2"])];
    let error = preflight_source(&linked(&source), &limits, KEY, 0).unwrap_err();
    assert_eq!(semantic(&error), ("junction.approachEdges".to_string(), RoadEditingInputViolation::EmptyCollection));
}

#[test]
fn waiting_zones_need_capacity() {
    let limits = CompileLimits::p100_initial_v1();
    let mut source = empty_source();
    source.waiting_zones = vec![WaitingZoneLinks {
        maneuver_path: "j1>m1>p1",
        waiting_zone_key: "w1",
        entry_gate: "j1>m1>p1>g1",
        release_gate: "j1>m1>p1>g2",
        max_occupancy: 0,
        canvas_selection: None,
    }];
    let error = preflight_source(&linked(&source), &limits, KEY, 0).unwrap_err();
    assert_eq!(semantic(&error), ("waitingZone.maxOccupancy".to_string(), RoadEditingInputViolation::InvalidCombination));
}

#[test]
fn a_gate_group_must_match_its_signal_control() {
    let limits = CompileLimits::p100_initial_v1();
    let mut source = empty_source();
    source.maneuver_gates = vec![ManeuverGateLinks {
        maneuver_path: "j1>m1>p1",
        maneuver_gate_key: "g1",
        stop_line: "s1",
        signal_control: WireSignalControl::Uncontrolled,
        signal_group: Some("sg1"),
        canvas_selection: None,
    }];
    let error = preflight_source(&linked(&source), &limits, KEY, 0).unwrap_err();
    assert_eq!(semantic(&error), ("maneuverGate.signalControl".to_string(), RoadEditingInputViolation::InvalidCombination));
}

#[test]
fn an_unknown_turn_direction_is_rejected() {
    let limits = CompileLimits::p100_initial_v1();
    let mut source = empty_source();
    source.movements = vec![MovementFields {
        junction: "j1",
        movement_key: "m1",
        turn_direction: Some(TurnDirectionCode::Unknown),
        directed_entry_approach_key: "north",
        directed_exit_approach_key: "south",
        canvas_selection: None,
    }];
    let error = preflight_source(&linked(&source), &limits, KEY, 0).unwrap_err();
    assert_eq!(semantic(&error), ("movement.turnDirection".to_string(), RoadEditingInputViolation::InvalidCombination));
}

#[test]
fn turn_directions_add_a_typed_record() {
    let mut source = empty_source();
    source.movements = vec![
        MovementFields {
            junction: "j1",
            movement_key: "m1",
            turn_direction: Some(TurnDirectionCode::Known),
            directed_entry_approach_key: "north",
            directed_exit_approach_key: "south",
            canvas_selection: None,
        },
        MovementFields {
            junction: "j1",
            movement_key: "m2",
            turn_direction: None,
            directed_entry_approach_key: "north",
            directed_exit_approach_key: "east",
            canvas_selection: None,
        },
    ];
    assert_eq!(count_directions(&source.movements), 1);
    assert_eq!(table_count(&source), 5);
}

#[test]
fn a_section_must_name_a_declared_corridor() {
    let limits = CompileLimits::p100_initial_v1();
    let mut source = empty_source();
    source.road_sections = vec![RoadSectionFields {
        road_corridor: "c9",
        road_section_key: "s1",
        kind_id: "motorLane",
        authoring_lanes: vec!["c9>s1>l1"],
        canvas_selection: None,
    }];
    let error = preflight_source(&linked(&source), &limits, KEY, 0).unwrap_err();
    assert_eq!(semantic(&error), ("roadSection.roadCorridor".to_string(), RoadEditingInputViolation::InvalidCombination));
}

#[test]
fn a_section_kind_must_bear_lanes() {
    let limits = CompileLimits::p100_initial_v1();
    let mut source = empty_source();
    source.road_sections = vec![RoadSectionFields {
        road_corridor: "c1",
        road_section_key: "s1",
        kind_id: "sidewalk",
        authoring_lanes: vec!["c1>s1>l1"],
        canvas_selection: None,
    }];
    let error = preflight_source(&linked(&source), &limits, KEY, 0).unwrap_err();
    assert_eq!(semantic(&error), ("roadSection.kindId".to_string(), RoadEditingInputViolation::InvalidCombination));
}

fn corridor(elements: Vec<CorridorElementFields<'static>>) -> RoadCorridorFields<'static> {
    RoadCorridorFields {
        road_corridor_key: "c1",
        road_alignment_key: "a1",
        start_station_violation: None,
        end_station_kind: WireStationEndKind::AlignmentEnd,
        end_station_violation: None,
        reference_section: "c1>s1",
        reference_lane: "c1>s1>l1",
        elements,
        canvas_selection: None,
    }
}

#[test]
fn repeated_corridor_elements_are_rejected_at_the_first_repeat() {
    let limits = CompileLimits::p100_initial_v1();
    let mut source = empty_source();
    let element = CorridorElementFields { kind: WireCorridorElementKind::RoadSection, entity_reference: "c1>s1" };
    source.road_corridors = vec![corridor(vec![element, element])];
    let error = preflight_source(&linked(&source), &limits, KEY, 0).unwrap_err();
    assert_eq!(semantic(&error), ("roadCorridor.elements".to_string(), RoadEditingInputViolation::DuplicateValue));
}

#[test]
fn corridor_elements_must_be_owned_by_the_corridor() {
    let limits = CompileLimits::p100_initial_v1();
    let mut source = empty_source();
    source.road_corridors = vec![corridor(vec![CorridorElementFields {
        kind: WireCorridorElementKind::FacilityBand,
        entity_reference: "c2>b1",
    }])];
    let error = preflight_source(&linked(&source), &limits, KEY, 0).unwrap_err();
    assert_eq!(
        semantic(&error),
        ("roadCorridor.elements.entityReference".to_string(), RoadEditingInputViolation::InvalidCombination)
    );
}

#[test]
fn an_unknown_end_station_kind_is_rejected() {
    let limits = CompileLimits::p100_initial_v1();
    let mut source = empty_source();
    let mut c = corridor(vec![]);
    c.end_station_kind = WireStationEndKind::Other(7);
    source.road_corridors = vec![c];
    let error = preflight_source(&linked(&source), &limits, KEY, 0).unwrap_err();
    assert_eq!(semantic(&error), ("roadCorridor.endStationKind".to_string(), RoadEditingInputViolation::InvalidCombination));
}

#[test]
fn parking_capacity_needs_both_entries_and_exits() {
    let limits = CompileLimits::p100_initial_v1();
    let mut source = empty_source();
    source.parking_facilities = vec![ParkingFacilityFields {
        parking_facility_key: "p1",
        virtual_capacity: 4,
        virtual_entries: vec![],
        virtual_exits: vec![],
        canvas_selection: None,
    }];
    let error = preflight_source(&linked(&source), &limits, KEY, 0).unwrap_err();
    assert_eq!(
        semantic(&error),
        ("parkingFacility.virtualCapacity".to_string(), RoadEditingInputViolation::InvalidCombination)
    );
}

#[test]
fn an_access_rule_needs_a_known_target_kind() {
    let limits = CompileLimits::p100_initial_v1();
    let mut source = empty_source();
    source.access_rules = vec![AccessRuleFields {
        access_rule_key: "r1",
        target_kind: WireAccessTargetKind::Other(9),
        target_reference: "e1",
        effect: WireAccessEffect::Allow,
        participant_classes: vec!["car"],
        regulation: None,
        canvas_selection: None,
    }];
    let error = preflight_source(&linked(&source), &limits, KEY, 0).unwrap_err();
    assert_eq!(semantic(&error), ("accessRule.targetKind".to_string(), RoadEditingInputViolation::InvalidCombination));
}

#[test]
fn region_rings_are_bounded() {
    let limits = CompileLimits::p100_initial_v1();
    let mut source = empty_source();
    let actual = u64::from(MAX_CONFLICT_ZONE_REGION_RING_POINTS) + 1;
    source.conflict_zone_regions = vec![ConflictZoneRegionFields {
        conflict_zone: "j1>z1",
        canonical_frame: "f1",
        min_y_violation: None,
        max_y_violation: None,
        heights_ordered: true,
        ring_point_count: actual,
        ring_violation: None,
        canvas_selection: None,
    }];
    let error = preflight_source(&linked(&source), &limits, KEY, 0).unwrap_err();
    assert_eq!(
        semantic(&error),
        (
            "conflictZoneRegion.ringXZ".to_string(),
            RoadEditingInputViolation::CollectionTooLarge {
                maximum: u64::from(MAX_CONFLICT_ZONE_REGION_RING_POINTS),
                actual
            }
        )
    );
}

#[test]
fn regions_of_one_zone_are_rejected() {
    let limits = CompileLimits::p100_initial_v1();
    let mut source = empty_source();
    let region = ConflictZoneRegionFields {
        conflict_zone: "j1>z1",
        canonical_frame: "f1",
        min_y_violation: None,
        max_y_violation: None,
        heights_ordered: true,
        ring_point_count: 3,
        ring_violation: None,
        canvas_selection: None,
    };
    source.conflict_zones = vec![ConflictZoneFields { junction: "j1", conflict_zone_key: "z1", canvas_selection: None }];
    source.conflict_zone_regions = vec![region, ConflictZoneRegionFields { canonical_frame: "f2", ..region }];
    let error = preflight_source(&linked(&source), &limits, KEY, 0).unwrap_err();
    assert_eq!(
        semantic(&error),
        ("conflictZoneRegions.conflictZone".to_string(), RoadEditingInputViolation::DuplicateValue)
    );
}

fn policy(slots: Vec<u16>) -> RightOfWayPolicyFields<'static> {
    RightOfWayPolicyFields {
        slots,
        policy_set_key: "default",
        regulation_slots: vec![],
        jurisdiction: "中国",
        version: "2024",
        source: None,
        canvas_selection: None,
        evidence: vec![],
        gap_profiles: vec![],
        stream_rules: vec![],
        gate_rules: vec![],
    }
}

#[test]
fn policy_tables_must_be_closed() {
    let limits = CompileLimits::p100_initial_v1();
    let mut source = empty_source();
    source.policies = vec![policy(vec![4, 0, 0, 0, 0, 0, 0, 8])];
    let error = preflight_source(&linked(&source), &limits, KEY, 0).unwrap_err();
    assert_eq!(semantic(&error), ("unknownField".to_string(), RoadEditingInputViolation::InvalidCombination));
}

#[test]
fn a_closed_policy_is_counted() {
    let limits = CompileLimits::p100_initial_v1();
    let mut source = empty_source();
    source.policies = vec![policy(vec![4, 0, 0, 0, 0, 0, 0, 0])];
    let counts = preflight_source(&linked(&source), &limits, KEY, 0).expect("policy");
    assert_eq!(counts.declaration_count, 1);
    assert_eq!(counts.typed_ast_record_count, 3);
    assert_eq!(counts.relation_occurrence_count, 3);
    assert_eq!(table_count(&source), 5);
}

#[test]
fn duplicate_policy_keys_are_rejected() {
    let limits = CompileLimits::p100_initial_v1();
    let mut source = empty_source();
    source.policies = vec![policy(vec![]), policy(vec![])];
    let error = preflight_source(&linked(&source), &limits, KEY, 0).unwrap_err();
    assert_eq!(
        semantic(&error),
        ("rightOfWayPolicySets.policySetKey".to_string(), RoadEditingInputViolation::DuplicateValue)
    );
}

#[test]
fn the_verified_version_must_be_current() {
    let limits = CompileLimits::p100_initial_v1();
    let error = check_verified_source(&empty_source(), FORMAT_VERSION + 1, &limits, KEY, 0, 0).unwrap_err();
    match &error.diagnostics[0].payload {
        DiagnosticPayload::InvalidRoadEditingSource { violation, actual_key, .. } => {
            assert_eq!(
                *violation,
                RoadEditingSourceViolation::UnsupportedFormatVersion { expected: FORMAT_VERSION, actual: FORMAT_VERSION + 1 }
            );
            assert_eq!(*actual_key, None);
        }
        other => panic!("unexpected payload {:?}", other),
    }
}

#[test]
fn a_mismatched_document_key_is_reported_when_bounded() {
    let limits = CompileLimits::p100_initial_v1();
    let error = check_verified_source(&empty_source(), FORMAT_VERSION, &limits, "roads/other", 0, 0).unwrap_err();
    match &error.diagnostics[0].payload {
        DiagnosticPayload::InvalidRoadEditingSource { violation, actual_key, expected_key, .. } => {
            assert_eq!(*violation, RoadEditingSourceViolation::SourceDocumentKeyMismatch);
            assert_eq!(expected_key, "roads/other");
            assert_eq!(actual_key.as_deref(), Some(KEY));
        }
        other => panic!("unexpected payload {:?}", other),
    }
}

#[test]
fn typed_records_of_earlier_modules_count_against_the_limit() {
    let limits = CompileLimits::p100_initial_v1();
    let limit = limits.value(CompileLimitDimension::TypedAstRecordCount);
    let error = check_verified_source(&empty_source(), FORMAT_VERSION, &limits, KEY, limit, 0).unwrap_err();
    assert_eq!(
        error.diagnostics[0].payload,
        DiagnosticPayload::CompileLimitExceeded {
            dimension: CompileLimitDimension::TypedAstRecordCount,
            limit,
            observed: limit + 1,
        }
    );
}

#[test]
fn duplicate_lane_edge_successors_are_rejected() {
    let limits = CompileLimits::p100_initial_v1();
    let edge = |key: &'static str, successors: Vec<&'static str>| LaneEdgeFields {
        lane_edge_key: key,
        speed_violation: None,
        successors,
        explicit_geometry: None,
        canvas_selection: None,
    };
    let mut source = empty_source();
    source.lane_edges = vec![edge("edge-a", vec!["edge-b", "edge-c"]), edge("edge-b", vec![]), edge("edge-c", vec![])];
    let counts = preflight_source(&linked(&source), &limits, KEY, 0).expect("distinct successors");
    assert_eq!(counts.typed_ast_record_count, 4);
    // Three edge keys, or two successors held as (namespace, key) pairs.
    let keys = 3 * std::mem::size_of::<&str>();
    let successors = 2 * std::mem::size_of::<(&str, &str)>();
    assert_eq!(counts.preflight_peak_scratch_bytes, keys.max(successors) as u64);
    source.lane_edges[0].successors = vec!["edge-b", "edge-b"];
    let error = preflight_source(&linked(&source), &limits, KEY, 0).unwrap_err();
    assert_eq!(semantic(&error), ("laneEdge.successors".to_string(), RoadEditingInputViolation::DuplicateValue));
}

#[test]
fn policy_comparisons_over_the_relation_limit_leave_the_counts_alone() {
    let limits = CompileLimits::p100_initial_v1().with_test_admission_limit(CompileLimitDimension::RelationOccurrenceCount, 2);
    let mut a = policy(vec![]);
    a.policy_set_key = "a";
    let mut b = policy(vec![]);
    b.policy_set_key = "b";
    let mut c = policy(vec![]);
    c.policy_set_key = "c";
    let mut usage = lib::preflight::RoadEditingPreflightCounts { relation_occurrence_count: 1, ..Default::default() };
    let before = usage;
    let error = validate_policies(&mut usage, &[], &[], &[a, b, c], "roads", &[], &limits, KEY).unwrap_err();
    assert_eq!(
        error.diagnostics[0].payload,
        DiagnosticPayload::CompileLimitExceeded {
            dimension: CompileLimitDimension::RelationOccurrenceCount,
            limit: 2,
            observed: 3,
        }
    );
    assert_eq!(usage, before);
}

#[test]
fn closure_links_are_read_from_the_tables() {
    let mut source = empty_source();
    source.junctions = vec![junction("j1", vec!["e1"], vec![])];
    source.movements = vec![MovementFields {
        junction: "j1",
        movement_key: "m1",
        turn_direction: None,
        directed_entry_approach_key: "north",
        directed_exit_approach_key: "south",
        canvas_selection: None,
    }];
    source.road_sections = vec![RoadSectionFields {
        road_corridor: "c1",
        road_section_key: "s1",
        kind_id: "motorLane",
        authoring_lanes: vec!["c1>s1>l1", "c1>s1>l2"],
        canvas_selection: None,
    }];
    source.road_corridors = vec![corridor(vec![
        CorridorElementFields { kind: WireCorridorElementKind::RoadSection, entity_reference: "c1>s1" },
        CorridorElementFields { kind: WireCorridorElementKind::Other(9), entity_reference: "c1>x" },
    ])];
    let links = source_links(&source);
    assert_eq!(links.junctions, vec!["j1"]);
    assert_eq!(links.movements, vec![("j1", "m1")]);
    assert_eq!(links.road_sections.len(), 1);
    assert_eq!(links.road_sections[0].road_corridor, "c1");
    assert_eq!(links.road_sections[0].road_section_key, "s1");
    assert_eq!(links.road_sections[0].authoring_lanes, vec!["c1>s1>l1", "c1>s1>l2"]);
    assert_eq!(links.road_corridors.len(), 1);
    assert_eq!(links.road_corridors[0].elements.len(), 2);
    assert_eq!(links.road_corridors[0].elements[1].kind, WireCorridorElementKind::Other(9));
    assert!(links.maneuver_paths.is_empty());
    assert!(links.signal_phases.is_empty());
}

#[test]
fn the_peak_is_the_largest_index_of_the_pass() {
    let limits = CompileLimits::p100_initial_v1();
    let mut source = empty_source();
    source.junctions = vec![
        junction("j1", vec!["e1", "e2", "e3"], vec![]),
        junction("j2", vec!["e4"], vec![]),
    ];
    let counts = preflight_source(&linked(&source), &limits, KEY, 0).expect("two junctions");
    // The approach edges of j1 as (namespace, key) pairs are the largest
    // index: more than the junction keys, and than the closure's key list.
    let approach = 3 * std::mem::size_of::<(&str, &str)>();
    assert_eq!(counts.preflight_peak_scratch_bytes, approach as u64);
    let verified = check_verified_source(&linked(&source), FORMAT_VERSION, &limits, KEY, 0, 0).expect("verified");
    assert_eq!(verified.preflight_peak_scratch_bytes, approach as u64);
}
