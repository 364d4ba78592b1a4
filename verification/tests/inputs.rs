use std::cmp::Ordering;
use lib::reference_sort::{canonical_reference_order, sorted_reference_spellings};
use lib::declaration::{EntityKind, MAX_PORTABLE_SIGNAL_TIME_MS};
use lib::diagnostic::{DiagnosticBundle, DiagnosticPayload, RoadEditingInputViolation};
use lib::inputs::{
    AccessEffect, AccessRuleInput, ConflictZoneInput, JunctionInput, LaneGroupInput, ManeuverGateInput, ManeuverPathInput,
    MovementInput, ParticipantClassInput, RoadEditingAccessTarget, RoadEditingSignalControl, RoadEditingSignalPhaseState,
    RoadSectionInput, SignalAspect, SignalControllerInput, SignalPhaseInput, StopLineInput, WaitingZoneInput,
};
use lib::model::CanonicalFrameInput;
use lib::reference::RoadEditingReference;

fn local(kind: EntityKind, key: &str) -> RoadEditingReference {
    RoadEditingReference::local(kind, key).expect("local reference")
}

fn owned(kind: EntityKind, owners: &[&str], key: &str) -> RoadEditingReference {
    RoadEditingReference::owner_scoped(kind, owners.iter().map(|o| o.to_string()).collect(), key).expect("owned reference")
}

fn input_error(b: &DiagnosticBundle) -> (String, RoadEditingInputViolation) {
    assert_eq!(b.diagnostics().len(), 1);
    match b.diagnostics()[0].payload() {
        DiagnosticPayload::InvalidRoadEditingInput { field, violation } => (field.clone(), *violation),
        other => panic!("unexpected payload {other:?}"),
    }
}

#[test]
fn owner_scoped_reference_requires_exact_identity_depth() {
    assert!(RoadEditingReference::local(EntityKind::RoadSection, "section-a").is_err());
    assert!(RoadEditingReference::owner_scoped(EntityKind::RoadSection, vec!["corridor-a".into()], "section-a").is_ok());
    assert!(RoadEditingReference::local(EntityKind::ConflictZone, "zone-a").is_err());
    assert!(RoadEditingReference::owner_scoped(EntityKind::ConflictZone, vec!["junction-a".into()], "zone-a").is_ok());
    assert!(RoadEditingReference::local(EntityKind::ParticipantStream, "stream-a").is_err());
    assert!(
        RoadEditingReference::owner_scoped(EntityKind::ParticipantStream, vec!["junction-a".into()], "stream-a",).is_ok()
    );
    assert!(
        RoadEditingReference::owner_scoped(
            EntityKind::AuthoringLane,
            vec!["corridor-a".into(), "section-a".into()],
            "lane-a",
        )
        .is_ok()
    );
    assert!(
        RoadEditingReference::owner_scoped(
            EntityKind::ManeuverGate,
            vec!["junction-a".into(), "movement-a".into(), "path-a".into()],
            "gate-a",
        )
        .is_ok()
    );
}

#[test]
fn sibling_local_key_can_repeat_under_different_owners() {
    let first = RoadEditingReference::owner_scoped(EntityKind::SignalPhase, vec!["controller-a".into()], "green")
        .expect("first phase reference");
    let second = RoadEditingReference::owner_scoped(EntityKind::SignalPhase, vec!["controller-b".into()], "green")
        .expect("second phase reference");

    assert_eq!(first.local_key(), second.local_key());
    assert_ne!(first, second);
    assert!(!first.same_target(&second));
    assert!(first.same_target(&first.clone()));
}

#[test]
fn collection_and_canvas_rules_fail_closed() {
    let group = RoadEditingReference::local(EntityKind::SignalGroup, "group-a").expect("group reference");
    assert!(
        SignalControllerInput::try_new(
            "controller-a",
            0,
            vec![group.clone(), group],
            vec![RoadEditingReference::owner_scoped(EntityKind::SignalPhase, vec!["controller-a".into()], "phase-a",)
                .expect("phase reference")],
        )
        .is_err()
    );
    assert!(CanonicalFrameInput::try_new("frame-a").expect("frame").with_canvas_selection("canvas::reserved").is_err());
}

#[test]
fn signal_time_fields_use_the_portable_integer_range() {
    let group = || RoadEditingReference::local(EntityKind::SignalGroup, "group-a").expect("group reference");
    let phase = || {
        RoadEditingReference::owner_scoped(EntityKind::SignalPhase, vec!["controller-a".into()], "phase-a")
            .expect("phase reference")
    };
    let state = || RoadEditingSignalPhaseState::try_new(group(), SignalAspect::Green).expect("phase state");
    let controller = |offset| SignalControllerInput::try_new("controller-a", offset, vec![group()], vec![phase()]);
    let signal_phase = |duration| {
        SignalPhaseInput::try_new(
            "phase-a",
            duration,
            vec![state()],
            RoadEditingReference::local(EntityKind::SignalController, "controller-a").expect("controller reference"),
        )
    };

    assert!(controller(MAX_PORTABLE_SIGNAL_TIME_MS).is_ok());
    assert!(controller(MAX_PORTABLE_SIGNAL_TIME_MS + 1).is_err());
    assert!(signal_phase(MAX_PORTABLE_SIGNAL_TIME_MS).is_ok());
    assert!(signal_phase(MAX_PORTABLE_SIGNAL_TIME_MS + 1).is_err());
}

#[test]
fn junction_allows_a_direct_path_without_internal_edges() {
    let approaches = vec![
        RoadEditingReference::local(EntityKind::LaneEdge, "entry").expect("entry"),
        RoadEditingReference::local(EntityKind::LaneEdge, "exit").expect("exit"),
    ];

    let junction = JunctionInput::try_new("junction", approaches, Vec::new()).expect("direct path junction");

    assert!(junction.internal_edges().is_empty());
}

#[test]
fn junction_checks_run_in_order() {
    let edge = |k: &str| local(EntityKind::LaneEdge, k);
    let e = JunctionInput::try_new("bad key!", vec![], vec![]).unwrap_err();
    assert_eq!(input_error(&e).0, "junction.junctionKey");
    let e = JunctionInput::try_new("j", vec![], vec![]).unwrap_err();
    assert_eq!(input_error(&e), ("junction.approachEdges".to_string(), RoadEditingInputViolation::EmptyCollection));
    let e = JunctionInput::try_new("j", vec![edge("a"), edge("a")], vec![]).unwrap_err();
    assert_eq!(input_error(&e), ("junction.approachEdges".to_string(), RoadEditingInputViolation::DuplicateValue));
    let e = JunctionInput::try_new("j", vec![edge("a")], vec![edge("b"), edge("b")]).unwrap_err();
    assert_eq!(input_error(&e), ("junction.internalEdges".to_string(), RoadEditingInputViolation::DuplicateValue));
    let e = JunctionInput::try_new("j", vec![edge("a"), edge("b")], vec![edge("c"), edge("b")]).unwrap_err();
    assert_eq!(input_error(&e), ("junction.edgeRoles".to_string(), RoadEditingInputViolation::InvalidCombination));
    let j = JunctionInput::try_new("j", vec![edge("a")], vec![edge("b")])
        .unwrap()
        .with_canvas_selection("canvas-1")
        .unwrap();
    assert_eq!(j.junction_key(), "j");
    assert_eq!(j.approach_edges(), &[edge("a")]);
    assert_eq!(j.canvas_selection(), Some("canvas-1"));
}

#[test]
fn movement_and_path_keys_are_tokens() {
    let junction = local(EntityKind::Junction, "j");
    let m = MovementInput::try_new("m", junction.clone(), "north", "south").unwrap();
    assert_eq!(m.directed_entry_approach_key(), "north");
    assert_eq!(m.directed_exit_approach_key(), "south");
    assert_eq!(m.junction(), &junction);
    let e = MovementInput::try_new("m", junction.clone(), "north", "so::uth").unwrap_err();
    assert_eq!(input_error(&e).0, "movement.directedExitApproachKey");

    let movement = owned(EntityKind::Movement, &["j"], "m");
    let edge = |k: &str| local(EntityKind::LaneEdge, k);
    let p = ManeuverPathInput::try_new("p", movement.clone(), edge("in"), vec![edge("x")], edge("out")).unwrap();
    assert_eq!(p.internal_edges().len(), 1);
    let e = ManeuverPathInput::try_new("p", movement, edge("in"), vec![edge("x"), edge("x")], edge("out")).unwrap_err();
    assert_eq!(input_error(&e), ("maneuverPath.internalEdges".to_string(), RoadEditingInputViolation::DuplicateValue));
}

#[test]
fn gates_zones_and_stop_lines_keep_their_bindings() {
    let path = owned(EntityKind::ManeuverPath, &["j", "m"], "p");
    let stop = local(EntityKind::StopLine, "s");
    let group = local(EntityKind::SignalGroup, "g");
    let gate = ManeuverGateInput::try_new("g1", path.clone(), 2, stop.clone(), RoadEditingSignalControl::SignalGroup(group.clone()))
        .unwrap();
    assert_eq!(gate.transition_index(), 2);
    assert_eq!(gate.signal_control(), &RoadEditingSignalControl::SignalGroup(group));
    assert!(ManeuverGateInput::try_new("", path.clone(), 0, stop.clone(), RoadEditingSignalControl::Uncontrolled).is_err());

    let g = |k: &str| owned(EntityKind::ManeuverGate, &["j", "m", "p"], k);
    let zone = WaitingZoneInput::try_new("z", path.clone(), g("in"), g("out"), 3).unwrap();
    assert_eq!(zone.max_occupancy(), 3);
    let e = WaitingZoneInput::try_new("z", path, g("in"), g("out"), 0).unwrap_err();
    assert_eq!(input_error(&e), ("waitingZone.maxOccupancy".to_string(), RoadEditingInputViolation::InvalidCombination));

    let line = StopLineInput::try_new("line", local(EntityKind::LaneEdge, "e")).unwrap();
    assert_eq!(line.stop_line_key(), "line");
    assert!(StopLineInput::try_new("a::b", local(EntityKind::LaneEdge, "e")).is_err());
}

#[test]
fn phase_states_allow_only_red_yellow_and_green() {
    let group = || local(EntityKind::SignalGroup, "g");
    for aspect in [SignalAspect::Red, SignalAspect::Yellow, SignalAspect::Green] {
        let s = RoadEditingSignalPhaseState::try_new(group(), aspect).unwrap();
        assert_eq!(s.aspect(), aspect);
    }
    let e = RoadEditingSignalPhaseState::try_new(group(), SignalAspect::Other(7)).unwrap_err();
    assert_eq!(input_error(&e), ("signalPhaseState.aspect".to_string(), RoadEditingInputViolation::InvalidCombination));

    let controller = local(EntityKind::SignalController, "c");
    let state = |k: &str| RoadEditingSignalPhaseState::try_new(local(EntityKind::SignalGroup, k), SignalAspect::Red).unwrap();
    let e = SignalPhaseInput::try_new("p", 0, vec![state("a")], controller.clone()).unwrap_err();
    assert_eq!(input_error(&e).0, "signalPhase.durationMilliseconds");
    let e = SignalPhaseInput::try_new("p", 10, vec![], controller.clone()).unwrap_err();
    assert_eq!(input_error(&e), ("signalPhase.states".to_string(), RoadEditingInputViolation::EmptyCollection));
    let e = SignalPhaseInput::try_new("p", 10, vec![state("a"), state("b"), state("a")], controller.clone()).unwrap_err();
    assert_eq!(input_error(&e), ("signalPhase.states.signalGroup".to_string(), RoadEditingInputViolation::DuplicateValue));
    let p = SignalPhaseInput::try_new("p", 10, vec![state("a"), state("b")], controller).unwrap();
    assert_eq!(p.states().len(), 2);
    assert_eq!(p.duration_milliseconds(), 10);
}

#[test]
fn road_sections_need_a_lane_bearing_kind_and_lanes() {
    let corridor = local(EntityKind::RoadCorridor, "c");
    let lane = |k: &str| owned(EntityKind::AuthoringLane, &["c", "s"], k);
    let s = RoadSectionInput::try_new("s", "motorLane", vec![lane("l")], corridor.clone()).unwrap();
    assert_eq!(s.kind_id(), "motorLane");
    assert!(RoadSectionInput::try_new("s", "x-lane-tram", vec![lane("l")], corridor.clone()).is_ok());
    let e = RoadSectionInput::try_new("s", "sidewalk", vec![lane("l")], corridor.clone()).unwrap_err();
    assert_eq!(input_error(&e), ("roadSection.kindId".to_string(), RoadEditingInputViolation::InvalidCombination));
    let e = RoadSectionInput::try_new("s", "motorLane", vec![], corridor.clone()).unwrap_err();
    assert_eq!(input_error(&e), ("roadSection.authoringLanes".to_string(), RoadEditingInputViolation::EmptyCollection));
    let e = RoadSectionInput::try_new("s", "motorLane", vec![lane("l"), lane("l")], corridor).unwrap_err();
    assert_eq!(input_error(&e), ("roadSection.authoringLanes".to_string(), RoadEditingInputViolation::DuplicateValue));
}

#[test]
fn access_rules_allow_or_deny_distinct_classes() {
    let class = |k: &str| local(EntityKind::ParticipantClass, k);
    let target = || RoadEditingAccessTarget::LaneEdge(local(EntityKind::LaneEdge, "e"));
    let r = AccessRuleInput::try_new("r", target(), AccessEffect::Deny, vec![class("car"), class("bus")], -4).unwrap();
    assert_eq!(r.effect(), AccessEffect::Deny);
    assert_eq!(r.priority(), -4);
    assert!(r.regulation().is_none());
    let e = AccessRuleInput::try_new("r", target(), AccessEffect::Other(3), vec![class("car")], 0).unwrap_err();
    assert_eq!(input_error(&e), ("accessRule.effect".to_string(), RoadEditingInputViolation::InvalidCombination));
    let e = AccessRuleInput::try_new("r", target(), AccessEffect::Allow, vec![class("car"), class("car")], 0).unwrap_err();
    assert_eq!(input_error(&e), ("accessRule.participantClasses".to_string(), RoadEditingInputViolation::DuplicateValue));

    let regulation = lib::declaration::RegulationIdentity::try_new("CN", "2026").unwrap();
    let r = r.with_regulation(regulation.clone());
    assert_eq!(r.regulation(), Some(&regulation));

    let class_input = ParticipantClassInput::try_new("bus").unwrap().with_extends(class("car"));
    assert_eq!(class_input.extends(), Some(&class("car")));
    assert!(ParticipantClassInput::try_new("").is_err());
}

#[test]
fn lane_groups_and_conflict_zones_bind_their_owner() {
    let section = owned(EntityKind::RoadSection, &["c"], "s");
    let g = LaneGroupInput::try_new("g", section.clone()).unwrap();
    assert_eq!(g.road_section(), &section);
    assert_eq!(input_error(&LaneGroupInput::try_new("", section).unwrap_err()).0, "laneGroup.laneGroupKey");
    let junction = local(EntityKind::Junction, "j");
    let z = ConflictZoneInput::try_new("z", junction.clone()).unwrap();
    assert_eq!(z.junction(), &junction);
    assert_eq!(input_error(&ConflictZoneInput::try_new("z z", junction).unwrap_err()).0, "conflictZone.conflictZoneKey");
}

#[test]
fn targets_sort_by_resolved_namespace_then_keys() {
    let local = local(EntityKind::LaneEdge, "edge-a");
    let qualified = RoadEditingReference::imported(EntityKind::LaneEdge, "city", vec![], "edge-a").unwrap();
    let base = RoadEditingReference::imported(EntityKind::LaneEdge, "base", vec![], "edge-z").unwrap();
    assert_eq!(local.canonical_target_cmp(&qualified, "city"), Ordering::Equal);
    assert_eq!(local.canonical_target_cmp(&qualified, "other"), Ordering::Greater);
    assert_eq!(base.canonical_target_cmp(&local, "city"), Ordering::Less);
    let b = local_ref_b();
    assert_eq!(local.canonical_target_cmp(&b, "city"), Ordering::Less);
    assert_eq!(b.canonical_target_cmp(&local, "city"), Ordering::Greater);
    let g1 = owned(EntityKind::ManeuverPath, &["j", "m1"], "p");
    let g2 = owned(EntityKind::ManeuverPath, &["j", "m2"], "a");
    assert_eq!(g1.canonical_target_cmp(&g2, "city"), Ordering::Less);
}

fn local_ref_b() -> RoadEditingReference {
    local(EntityKind::LaneEdge, "edge-b")
}

#[test]
fn reference_spellings_ignore_input_order() {

    let a = local(EntityKind::LaneEdge, "edge-a");
    let b = local(EntityKind::LaneEdge, "edge-b");
    let c = RoadEditingReference::imported(EntityKind::LaneEdge, "base", vec![], "edge-z").unwrap();
    let first = sorted_reference_spellings(&[b.clone(), a.clone(), c.clone()], "city");
    let second = sorted_reference_spellings(&[c.clone(), a.clone(), b.clone()], "city");
    assert_eq!(first, vec!["base::edge-z".to_string(), "edge-a".to_string(), "edge-b".to_string()]);
    assert_eq!(first, second);
    let qualified = RoadEditingReference::imported(EntityKind::LaneEdge, "city", vec![], "edge-a").unwrap();
    assert_eq!(canonical_reference_order(&[qualified.clone(), b.clone(), a.clone()], "city"), vec![0, 2, 1]);
    assert_eq!(canonical_reference_order(&[a, b, qualified], "city"), vec![0, 2, 1]);
}
