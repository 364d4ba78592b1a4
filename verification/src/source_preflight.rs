//! The semantic preflight of a verified road-editing source: the module
//! header, every table in a fixed order, the accounted totals against the
//! compile limits, and the local ownership closure, all within one scratch
//! pass.

use vstd::prelude::*;
use vstd::string::StringSliceAdditionalSpecFns;

use crate::access_check::{
    access_outcome, lemma_access_outcome_restored, validate_access_and_profiles, AccessRuleFields, ParticipantClassFields, VehicleProfileFields,
};
use crate::conflict_check::{
    conflicts_outcome, lemma_conflicts_outcome_restored, validate_conflicts_and_regions, ConflictZoneFields, ConflictZoneRegionFields,
    ParticipantStreamFields,
};
use crate::corridor_check::{corridor_keys, corridors_outcome, lemma_corridors_outcome_restored, validate_corridors, RoadCorridorFields};
use crate::diagnostic::{DiagnosticBundle, RoadEditingInputViolation};
use crate::geometry_check::{
    alignments_outcome, lemma_geometry_outcomes_restored, lane_edges_outcome, validate_alignments, validate_lane_edges, LaneEdgeFields,
    RoadAlignmentFields,
};
use crate::header_check::{header_outcome, preflight_header, ModuleHeaderLinks};
use crate::junction_check::{
    junctions_outcome, lemma_junction_outcomes_restored, maneuver_gates_outcome, maneuver_paths_outcome, movements_outcome, validate_junctions,
    validate_maneuver_gates, validate_maneuver_paths, validate_movements, validate_waiting_zones,
    waiting_zones_outcome, JunctionLinks, ManeuverGateLinks, ManeuverPathLinks, MovementFields, WaitingZoneLinks,
};
use crate::lane_check::{
    authoring_lanes_outcome, lemma_lane_outcomes_restored, canonical_frames_outcome, groups_and_bands_outcome, validate_authoring_lanes,
    validate_lane_groups_and_facility_bands, validate_routes_and_frames, AuthoringLaneFields, CanonicalFrameFields,
    FacilityBandFields, LaneGroupFields,
};
use crate::limits::{CompileLimitDimension, CompileLimits};
use crate::links::{
    finish_preflight, lemma_links_failure_restored, links_failure, LinkFailure, RoadCorridorLinks, RoadSectionLinks, SignalControllerLinks,
    SignalPhaseLinks, SourceLinks,
};
use crate::parking_check::{lemma_parking_outcome_restored, parking_outcome, validate_parking, ParkingFacilityFields, ParkingSpaceFields};
use crate::policy_check::{policies_outcome, validate_policies, RightOfWayPolicyFields};
use crate::preflight::{counts_violation, scratch_restored, stage_reports, unique_need, RoadEditingPreflightCounts, StageFailure};
use crate::scratch::{max_nat, peak_lifted, peak_within_limits, PreflightScratch};
use crate::section_check::{lemma_sections_outcome_restored, sections_outcome, validate_sections, RoadSectionFields};
use crate::signal_check::{
    controllers_and_phases_outcome, lemma_signal_outcomes_restored, stop_lines_and_groups_outcome, validate_signal_controllers_and_phases,
    validate_stop_lines_and_signal_groups, SignalGroupLinks, StopLineLinks,
};

verus! {

/// A verified road-editing source as the preflight reads it: the module
/// header, the field slots of the root and movement tables, every table in
/// wire order, and the keys and references of the ownership closure.
#[derive(Clone, Debug)]
pub struct RoadEditingSourceFields<'a> {
    pub header: ModuleHeaderLinks<'a>,
    pub root_slots: Vec<u16>,
    pub movement_slots: Vec<Vec<u16>>,
    pub road_alignments: Vec<RoadAlignmentFields<'a>>,
    pub road_corridors: Vec<RoadCorridorFields<'a>>,
    pub road_sections: Vec<RoadSectionFields<'a>>,
    pub authoring_lanes: Vec<AuthoringLaneFields<'a>>,
    pub lane_edges: Vec<LaneEdgeFields<'a>>,
    pub junctions: Vec<JunctionLinks<'a>>,
    pub movements: Vec<MovementFields<'a>>,
    pub maneuver_paths: Vec<ManeuverPathLinks<'a>>,
    pub maneuver_gates: Vec<ManeuverGateLinks<'a>>,
    pub waiting_zones: Vec<WaitingZoneLinks<'a>>,
    pub stop_lines: Vec<StopLineLinks<'a>>,
    pub signal_groups: Vec<SignalGroupLinks<'a>>,
    pub signal_controllers: Vec<SignalControllerLinks<'a>>,
    pub signal_phases: Vec<SignalPhaseLinks<'a>>,
    pub parking_facilities: Vec<ParkingFacilityFields<'a>>,
    pub parking_spaces: Vec<ParkingSpaceFields<'a>>,
    pub lane_groups: Vec<LaneGroupFields<'a>>,
    pub facility_bands: Vec<FacilityBandFields<'a>>,
    pub participant_classes: Vec<ParticipantClassFields<'a>>,
    pub access_rules: Vec<AccessRuleFields<'a>>,
    pub vehicle_profiles: Vec<VehicleProfileFields<'a>>,
    pub canonical_frames: Vec<CanonicalFrameFields<'a>>,
    pub conflict_zones: Vec<ConflictZoneFields<'a>>,
    pub participant_streams: Vec<ParticipantStreamFields<'a>>,
    pub conflict_zone_regions: Vec<ConflictZoneRegionFields<'a>>,
    pub policies: Vec<RightOfWayPolicyFields<'a>>,
    pub links: SourceLinks<'a>,
}

/// The section links `l` carry the corridor, key and lane references of `f`.
pub open spec fn section_links_agree(l: RoadSectionLinks, f: RoadSectionFields) -> bool {
    &&& l.road_corridor == f.road_corridor
    &&& l.road_section_key == f.road_section_key
    &&& l.authoring_lanes@ == f.authoring_lanes@
}

/// The phase links `l` carry the fields of `f`.
pub open spec fn phase_links_agree(l: SignalPhaseLinks, f: SignalPhaseLinks) -> bool {
    &&& l.signal_controller == f.signal_controller
    &&& l.signal_phase_key == f.signal_phase_key
    &&& l.duration_milliseconds == f.duration_milliseconds
    &&& l.states@ == f.states@
    &&& l.canvas_selection == f.canvas_selection
}

/// The controller links `l` carry the fields of `f`.
pub open spec fn controller_links_agree(l: SignalControllerLinks, f: SignalControllerLinks) -> bool {
    &&& l.signal_controller_key == f.signal_controller_key
    &&& l.offset_milliseconds == f.offset_milliseconds
    &&& l.signal_groups@ == f.signal_groups@
    &&& l.signal_phases@ == f.signal_phases@
    &&& l.canvas_selection == f.canvas_selection
}

/// The closure links `l` read the tables of `s`: each key and owner
/// reference of the closure is the one its table carries, in table order.
pub open spec fn links_agree<'a>(s: RoadEditingSourceFields<'a>, l: SourceLinks<'a>) -> bool {
    &&& l.junctions@ == s.junctions@.map_values(|x: JunctionLinks<'a>| x.junction_key)
    &&& l.movements@ == s.movements@.map_values(|x: MovementFields<'a>| (x.junction, x.movement_key))
    &&& l.maneuver_paths@ == s.maneuver_paths@.map_values(|x: ManeuverPathLinks<'a>| (x.movement, x.maneuver_path_key))
    &&& l.maneuver_gates@ == s.maneuver_gates@.map_values(|x: ManeuverGateLinks<'a>| x.maneuver_path)
    &&& l.waiting_zones@ == s.waiting_zones@.map_values(|x: WaitingZoneLinks<'a>| x.maneuver_path)
    &&& l.road_sections@.len() == s.road_sections@.len()
    &&& forall|i: int| 0 <= i < s.road_sections@.len() ==> section_links_agree(#[trigger] l.road_sections@[i], s.road_sections@[i])
    &&& l.lane_groups@ == s.lane_groups@.map_values(|x: LaneGroupFields<'a>| x.road_section)
    &&& l.road_corridors@.len() == s.road_corridors@.len()
    &&& forall|i: int| 0 <= i < s.road_corridors@.len() ==> (#[trigger] l.road_corridors@[i]).elements@ == s.road_corridors@[i].elements@
    &&& l.facility_bands@ == s.facility_bands@.map_values(|x: FacilityBandFields<'a>| (x.road_corridor, x.facility_band_key))
    &&& l.authoring_lanes@ == s.authoring_lanes@.map_values(|x: AuthoringLaneFields<'a>| (x.road_section, x.authoring_lane_key))
    &&& l.signal_groups@ == s.signal_groups@.map_values(|x: SignalGroupLinks<'a>| x.signal_group_key)
    &&& l.signal_phases@.len() == s.signal_phases@.len()
    &&& forall|i: int| 0 <= i < s.signal_phases@.len() ==> phase_links_agree(#[trigger] l.signal_phases@[i], s.signal_phases@[i])
    &&& l.signal_controllers@.len() == s.signal_controllers@.len()
    &&& forall|i: int|
        0 <= i < s.signal_controllers@.len() ==> controller_links_agree(#[trigger] l.signal_controllers@[i], s.signal_controllers@[i])
}

/// The closure links of `s` are those of its own tables.
pub open spec fn links_match(s: RoadEditingSourceFields) -> bool {
    links_agree(s, s.links)
}

/// A copy of `v`.
fn copy_all<T: Copy>(v: &[T]) -> (r: Vec<T>)
    ensures
        r@ == v@,
{
    let mut r: Vec<T> = Vec::new();
    let mut i: usize = 0;
    while i < v.len()
        invariant
            i <= v@.len(),
            r@ == v@.take(i as int),
        decreases v@.len() - i,
    {
        let x = v[i];
        r.push(x);
        proof {
            assert(v@.take(i + 1) =~= v@.take(i as int).push(v@[i as int]));
        }
        i = i + 1;
    }
    proof {
        assert(v@.take(v@.len() as int) =~= v@);
    }
    r
}

/// The closure links of the tables of `s`, read in table order; the links
/// that `s` already carries are not read.
pub fn source_links<'a>(s: &RoadEditingSourceFields<'a>) -> (r: SourceLinks<'a>)
    ensures
        links_agree(*s, r),
{
    let mut junctions: Vec<&'a str> = Vec::new();
    let mut i: usize = 0;
    while i < s.junctions.len()
        invariant
            i <= s.junctions@.len(),
            junctions@ == s.junctions@.take(i as int).map_values(|x: JunctionLinks<'a>| x.junction_key),
        decreases s.junctions@.len() - i,
    {
        junctions.push(s.junctions[i].junction_key);
        proof {
            assert(s.junctions@.take(i + 1) =~= s.junctions@.take(i as int).push(s.junctions@[i as int]));
        }
        i = i + 1;
    }
    let mut movements: Vec<(&'a str, &'a str)> = Vec::new();
    let mut i: usize = 0;
    while i < s.movements.len()
        invariant
            i <= s.movements@.len(),
            movements@ == s.movements@.take(i as int).map_values(|x: MovementFields<'a>| (x.junction, x.movement_key)),
        decreases s.movements@.len() - i,
    {
        movements.push((s.movements[i].junction, s.movements[i].movement_key));
        proof {
            assert(s.movements@.take(i + 1) =~= s.movements@.take(i as int).push(s.movements@[i as int]));
        }
        i = i + 1;
    }
    let mut maneuver_paths: Vec<(&'a str, &'a str)> = Vec::new();
    let mut i: usize = 0;
    while i < s.maneuver_paths.len()
        invariant
            i <= s.maneuver_paths@.len(),
            maneuver_paths@ == s.maneuver_paths@.take(i as int).map_values(
                |x: ManeuverPathLinks<'a>| (x.movement, x.maneuver_path_key),
            ),
        decreases s.maneuver_paths@.len() - i,
    {
        maneuver_paths.push((s.maneuver_paths[i].movement, s.maneuver_paths[i].maneuver_path_key));
        proof {
            assert(s.maneuver_paths@.take(i + 1) =~= s.maneuver_paths@.take(i as int).push(s.maneuver_paths@[i as int]));
        }
        i = i + 1;
    }
    let mut maneuver_gates: Vec<&'a str> = Vec::new();
    let mut i: usize = 0;
    while i < s.maneuver_gates.len()
        invariant
            i <= s.maneuver_gates@.len(),
            maneuver_gates@ == s.maneuver_gates@.take(i as int).map_values(|x: ManeuverGateLinks<'a>| x.maneuver_path),
        decreases s.maneuver_gates@.len() - i,
    {
        maneuver_gates.push(s.maneuver_gates[i].maneuver_path);
        proof {
            assert(s.maneuver_gates@.take(i + 1) =~= s.maneuver_gates@.take(i as int).push(s.maneuver_gates@[i as int]));
        }
        i = i + 1;
    }
    let mut waiting_zones: Vec<&'a str> = Vec::new();
    let mut i: usize = 0;
    while i < s.waiting_zones.len()
        invariant
            i <= s.waiting_zones@.len(),
            waiting_zones@ == s.waiting_zones@.take(i as int).map_values(|x: WaitingZoneLinks<'a>| x.maneuver_path),
        decreases s.waiting_zones@.len() - i,
    {
        waiting_zones.push(s.waiting_zones[i].maneuver_path);
        proof {
            assert(s.waiting_zones@.take(i + 1) =~= s.waiting_zones@.take(i as int).push(s.waiting_zones@[i as int]));
        }
        i = i + 1;
    }
    let mut road_sections: Vec<RoadSectionLinks<'a>> = Vec::new();
    let mut i: usize = 0;
    while i < s.road_sections.len()
        invariant
            i <= s.road_sections@.len(),
            road_sections@.len() == i,
            forall|j: int| 0 <= j < i ==> section_links_agree(#[trigger] road_sections@[j], s.road_sections@[j]),
        decreases s.road_sections@.len() - i,
    {
        let x = &s.road_sections[i];
        road_sections.push(
            RoadSectionLinks {
                road_corridor: x.road_corridor,
                road_section_key: x.road_section_key,
                authoring_lanes: copy_all(x.authoring_lanes.as_slice()),
            },
        );
        i = i + 1;
    }
    let mut lane_groups: Vec<&'a str> = Vec::new();
    let mut i: usize = 0;
    while i < s.lane_groups.len()
        invariant
            i <= s.lane_groups@.len(),
            lane_groups@ == s.lane_groups@.take(i as int).map_values(|x: LaneGroupFields<'a>| x.road_section),
        decreases s.lane_groups@.len() - i,
    {
        lane_groups.push(s.lane_groups[i].road_section);
        proof {
            assert(s.lane_groups@.take(i + 1) =~= s.lane_groups@.take(i as int).push(s.lane_groups@[i as int]));
        }
        i = i + 1;
    }
    let mut road_corridors: Vec<RoadCorridorLinks<'a>> = Vec::new();
    let mut i: usize = 0;
    while i < s.road_corridors.len()
        invariant
            i <= s.road_corridors@.len(),
            road_corridors@.len() == i,
            forall|j: int| 0 <= j < i ==> (#[trigger] road_corridors@[j]).elements@ == s.road_corridors@[j].elements@,
        decreases s.road_corridors@.len() - i,
    {
        road_corridors.push(RoadCorridorLinks { elements: copy_all(s.road_corridors[i].elements.as_slice()) });
        i = i + 1;
    }
    let mut facility_bands: Vec<(&'a str, &'a str)> = Vec::new();
    let mut i: usize = 0;
    while i < s.facility_bands.len()
        invariant
            i <= s.facility_bands@.len(),
            facility_bands@ == s.facility_bands@.take(i as int).map_values(
                |x: FacilityBandFields<'a>| (x.road_corridor, x.facility_band_key),
            ),
        decreases s.facility_bands@.len() - i,
    {
        facility_bands.push((s.facility_bands[i].road_corridor, s.facility_bands[i].facility_band_key));
        proof {
            assert(s.facility_bands@.take(i + 1) =~= s.facility_bands@.take(i as int).push(s.facility_bands@[i as int]));
        }
        i = i + 1;
    }
    let mut authoring_lanes: Vec<(&'a str, &'a str)> = Vec::new();
    let mut i: usize = 0;
    while i < s.authoring_lanes.len()
        invariant
            i <= s.authoring_lanes@.len(),
            authoring_lanes@ == s.authoring_lanes@.take(i as int).map_values(
                |x: AuthoringLaneFields<'a>| (x.road_section, x.authoring_lane_key),
            ),
        decreases s.authoring_lanes@.len() - i,
    {
        authoring_lanes.push((s.authoring_lanes[i].road_section, s.authoring_lanes[i].authoring_lane_key));
        proof {
            assert(s.authoring_lanes@.take(i + 1) =~= s.authoring_lanes@.take(i as int).push(s.authoring_lanes@[i as int]));
        }
        i = i + 1;
    }
    let mut signal_groups: Vec<&'a str> = Vec::new();
    let mut i: usize = 0;
    while i < s.signal_groups.len()
        invariant
            i <= s.signal_groups@.len(),
            signal_groups@ == s.signal_groups@.take(i as int).map_values(|x: SignalGroupLinks<'a>| x.signal_group_key),
        decreases s.signal_groups@.len() - i,
    {
        signal_groups.push(s.signal_groups[i].signal_group_key);
        proof {
            assert(s.signal_groups@.take(i + 1) =~= s.signal_groups@.take(i as int).push(s.signal_groups@[i as int]));
        }
        i = i + 1;
    }
    let mut signal_phases: Vec<SignalPhaseLinks<'a>> = Vec::new();
    let mut i: usize = 0;
    while i < s.signal_phases.len()
        invariant
            i <= s.signal_phases@.len(),
            signal_phases@.len() == i,
            forall|j: int| 0 <= j < i ==> phase_links_agree(#[trigger] signal_phases@[j], s.signal_phases@[j]),
        decreases s.signal_phases@.len() - i,
    {
        let x = &s.signal_phases[i];
        signal_phases.push(
            SignalPhaseLinks {
                signal_controller: x.signal_controller,
                signal_phase_key: x.signal_phase_key,
                duration_milliseconds: x.duration_milliseconds,
                states: copy_all(x.states.as_slice()),
                canvas_selection: x.canvas_selection,
            },
        );
        i = i + 1;
    }
    let mut signal_controllers: Vec<SignalControllerLinks<'a>> = Vec::new();
    let mut i: usize = 0;
    while i < s.signal_controllers.len()
        invariant
            i <= s.signal_controllers@.len(),
            signal_controllers@.len() == i,
            forall|j: int| 0 <= j < i ==> controller_links_agree(#[trigger] signal_controllers@[j], s.signal_controllers@[j]),
        decreases s.signal_controllers@.len() - i,
    {
        let x = &s.signal_controllers[i];
        signal_controllers.push(
            SignalControllerLinks {
                signal_controller_key: x.signal_controller_key,
                offset_milliseconds: x.offset_milliseconds,
                signal_groups: copy_all(x.signal_groups.as_slice()),
                signal_phases: copy_all(x.signal_phases.as_slice()),
                canvas_selection: x.canvas_selection,
            },
        );
        i = i + 1;
    }
    proof {
        assert(s.junctions@.take(s.junctions@.len() as int) =~= s.junctions@);
        assert(s.movements@.take(s.movements@.len() as int) =~= s.movements@);
        assert(s.maneuver_paths@.take(s.maneuver_paths@.len() as int) =~= s.maneuver_paths@);
        assert(s.maneuver_gates@.take(s.maneuver_gates@.len() as int) =~= s.maneuver_gates@);
        assert(s.waiting_zones@.take(s.waiting_zones@.len() as int) =~= s.waiting_zones@);
        assert(s.lane_groups@.take(s.lane_groups@.len() as int) =~= s.lane_groups@);
        assert(s.facility_bands@.take(s.facility_bands@.len() as int) =~= s.facility_bands@);
        assert(s.authoring_lanes@.take(s.authoring_lanes@.len() as int) =~= s.authoring_lanes@);
        assert(s.signal_groups@.take(s.signal_groups@.len() as int) =~= s.signal_groups@);
    }
    SourceLinks {
        junctions,
        movements,
        maneuver_paths,
        maneuver_gates,
        waiting_zones,
        road_sections,
        lane_groups,
        road_corridors,
        facility_bands,
        authoring_lanes,
        signal_groups,
        signal_phases,
        signal_controllers,
    }
}

/// The road tables: alignments, corridors, sections (against the corridor
/// keys), authoring lanes, lane edges.
pub open spec fn road_tables_outcome(
    c: RoadEditingPreflightCounts,
    s: RoadEditingSourceFields,
    scratch: PreflightScratch,
) -> Result<RoadEditingPreflightCounts, StageFailure> {
    let ns = s.header.authoring_namespace_id.spec_bytes();
    let imports = s.header.imports@;
    match alignments_outcome(c, s.road_alignments@, ns, imports, scratch) {
        Err(f) => Err(f),
        Ok(c1) => match corridors_outcome(c1, s.road_corridors@, ns, imports, scratch) {
            Err(f) => Err(f),
            Ok(c2) => match sections_outcome(
                c2,
                s.road_sections@,
                corridor_keys(s.road_corridors@),
                ns,
                imports,
                scratch,
            ) {
                Err(f) => Err(f),
                Ok(c3) => match authoring_lanes_outcome(c3, s.authoring_lanes@, ns, imports, scratch) {
                    Err(f) => Err(f),
                    Ok(c4) => lane_edges_outcome(c4, s.lane_edges@, ns, imports, scratch),
                },
            },
        },
    }
}

/// The junction tables: junctions, movements, maneuver paths, maneuver
/// gates, waiting zones.
pub open spec fn junction_tables_outcome(
    c: RoadEditingPreflightCounts,
    s: RoadEditingSourceFields,
    scratch: PreflightScratch,
) -> Result<RoadEditingPreflightCounts, StageFailure> {
    let ns = s.header.authoring_namespace_id.spec_bytes();
    let imports = s.header.imports@;
    match junctions_outcome(c, s.junctions@, ns, imports, scratch) {
        Err(f) => Err(f),
        Ok(c1) => match movements_outcome(c1, s.movements@, ns, imports, scratch) {
            Err(f) => Err(f),
            Ok(c2) => match maneuver_paths_outcome(c2, s.maneuver_paths@, ns, imports, scratch) {
                Err(f) => Err(f),
                Ok(c3) => match maneuver_gates_outcome(c3, s.maneuver_gates@, ns, imports, scratch) {
                    Err(f) => Err(f),
                    Ok(c4) => waiting_zones_outcome(c4, s.waiting_zones@, ns, imports, scratch),
                },
            },
        },
    }
}

/// The signal tables, parking, lane groups and facility bands, access,
/// canonical frames and conflicts.
pub open spec fn area_tables_outcome(
    c: RoadEditingPreflightCounts,
    s: RoadEditingSourceFields,
    scratch: PreflightScratch,
) -> Result<RoadEditingPreflightCounts, StageFailure> {
    let ns = s.header.authoring_namespace_id.spec_bytes();
    let imports = s.header.imports@;
    match stop_lines_and_groups_outcome(c, s.stop_lines@, s.signal_groups@, ns, imports, scratch) {
        Err(f) => Err(f),
        Ok(c1) => match controllers_and_phases_outcome(c1, s.signal_controllers@, s.signal_phases@, ns, imports, scratch) {
            Err(f) => Err(f),
            Ok(c2) => match parking_outcome(c2, s.parking_facilities@, s.parking_spaces@, ns, imports, scratch) {
                Err(f) => Err(f),
                Ok(c3) => match groups_and_bands_outcome(c3, s.lane_groups@, s.facility_bands@, ns, imports, scratch) {
                    Err(f) => Err(f),
                    Ok(c4) => match access_outcome(
                        c4,
                        s.participant_classes@,
                        s.access_rules@,
                        s.vehicle_profiles@,
                        ns,
                        imports,
                        scratch,
                    ) {
                        Err(f) => Err(f),
                        Ok(c5) => match canonical_frames_outcome(c5, s.canonical_frames@, ns, imports, scratch) {
                            Err(f) => Err(f),
                            Ok(c6) => conflicts_outcome(
                                c6,
                                s.conflict_zones@,
                                s.participant_streams@,
                                s.conflict_zone_regions@,
                                ns,
                                imports,
                                scratch,
                            ),
                        },
                    },
                },
            },
        },
    }
}

/// The scratch need of the road tables: the largest need of their stages,
/// which run one after another.
pub open spec fn road_tables_need(s: RoadEditingSourceFields) -> nat {
    max_nat(
        max_nat(
            crate::geometry_check::alignments_need(s.road_alignments@),
            crate::corridor_check::corridors_need(s.road_corridors@),
        ),
        max_nat(
            crate::section_check::sections_need(s.road_sections@, corridor_keys(s.road_corridors@)),
            max_nat(
                unique_need::<(&str, &str)>(s.authoring_lanes@.len()),
                crate::geometry_check::lane_edges_need(s.lane_edges@),
            ),
        ),
    )
}

/// The scratch need of the junction tables.
pub open spec fn junction_tables_need(s: RoadEditingSourceFields) -> nat {
    max_nat(
        max_nat(crate::junction_check::junctions_need(s.junctions@), unique_need::<(&str, &str)>(s.movements@.len())),
        max_nat(
            crate::junction_check::maneuver_paths_need(s.maneuver_paths@),
            max_nat(
                unique_need::<(&str, &str)>(s.maneuver_gates@.len()),
                unique_need::<(&str, &str)>(s.waiting_zones@.len()),
            ),
        ),
    )
}

/// The scratch need of the signal, parking, lane group and band, access,
/// canonical frame and conflict tables.
pub open spec fn area_tables_need(s: RoadEditingSourceFields) -> nat {
    max_nat(
        max_nat(
            max_nat(
                max_nat(unique_need::<&str>(s.stop_lines@.len()), unique_need::<&str>(s.signal_groups@.len())),
                crate::signal_check::controllers_and_phases_need(s.signal_controllers@, s.signal_phases@),
            ),
            max_nat(
                max_nat(unique_need::<&str>(s.parking_facilities@.len()), unique_need::<&str>(s.parking_spaces@.len())),
                crate::lane_check::groups_and_bands_need(s.lane_groups@, s.facility_bands@),
            ),
        ),
        max_nat(
            max_nat(
                crate::access_check::access_need(s.participant_classes@, s.access_rules@, s.vehicle_profiles@),
                unique_need::<&str>(s.canonical_frames@.len()),
            ),
            max_nat(
                unique_need::<(&str, &str)>(s.conflict_zones@.len()),
                unique_need::<(&str, &str)>(s.participant_streams@.len()),
            ),
        ),
    )
}

/// The peak scratch bytes of a preflight that succeeds: the largest need of
/// its stages, which each return what they reserve before the next begins.
pub open spec fn source_peak_scratch_bytes(s: RoadEditingSourceFields) -> nat {
    max_nat(
        max_nat(crate::header_check::header_need(s.header), road_tables_need(s)),
        max_nat(max_nat(junction_tables_need(s), area_tables_need(s)), crate::links::links_need(s.links)),
    )
}

/// A closure failure as a stage failure: a missing or repeated owner is an
/// invalid combination at its field.
pub open spec fn link_stage_failure(f: LinkFailure) -> StageFailure {
    match f {
        Ok(l) => Ok(l),
        Err(field) => Err((field, RoadEditingInputViolation::InvalidCombination)),
    }
}

/// The counts of a source whose preflight succeeds, before the peak scratch
/// bytes are recorded, or the failure that stops it: the header, the road,
/// junction and area tables, the policies, the totals against the compile
/// limits, then the ownership closure, all in one fresh scratch pass.
pub open spec fn source_outcome(s: RoadEditingSourceFields, limits: CompileLimits, admitted_live_bytes: u64) -> Result<
    RoadEditingPreflightCounts,
    StageFailure,
> {
    let s0 = PreflightScratch::fresh(limits, admitted_live_bytes);
    match header_outcome(s.header, limits, s0) {
        Err(f) => Err(f),
        Ok(c0) => match road_tables_outcome(c0, s, s0) {
            Err(f) => Err(f),
            Ok(c1) => match junction_tables_outcome(c1, s, s0) {
                Err(f) => Err(f),
                Ok(c2) => match area_tables_outcome(c2, s, s0) {
                    Err(f) => Err(f),
                    Ok(c3) => match policies_outcome(
                        c3,
                        s.root_slots@,
                        s.movement_slots@,
                        s.policies@,
                        s.header.authoring_namespace_id.spec_bytes(),
                        s.header.imports@,
                        limits,
                    ) {
                        Err(f) => Err(f),
                        Ok(c4) => match counts_violation(c4, limits) {
                            Some(l) => Err(Ok(l)),
                            None => match links_failure(s.links, s0) {
                                Some(f) => Err(link_stage_failure(f)),
                                None => Ok(c4),
                            },
                        },
                    },
                },
            },
        },
    }
}

/// Checks and charges the road tables; see [`road_tables_outcome`].
pub fn preflight_road_tables(
    usage: &mut RoadEditingPreflightCounts,
    s: &RoadEditingSourceFields,
    scratch: &mut PreflightScratch,
    key: &str,
) -> (r: Result<(), DiagnosticBundle>)
    ensures
        match road_tables_outcome(*old(usage), *s, *old(scratch)) {
            Ok(c) => r is Ok && *final(usage) == c,
            Err(f) => r matches Err(b) && stage_reports(b, f, key@),
        },
        scratch_restored(*old(scratch), *final(scratch)),
        r is Ok ==> peak_lifted(*old(scratch), *final(scratch), road_tables_need(*s)),
{
    let namespace = s.header.authoring_namespace_id;
    let imports = s.header.imports.as_slice();
    let ghost s0 = *scratch;
    let ghost ns = namespace.spec_bytes();
    validate_alignments(usage, s.road_alignments.as_slice(), namespace, imports, scratch, key)?;
    proof {
        lemma_corridors_outcome_restored(*usage, s.road_corridors@, ns, imports@, s0, *scratch);
    }
    validate_corridors(usage, s.road_corridors.as_slice(), namespace, imports, scratch, key)?;
    let mut keys: Vec<&str> = Vec::new();
    let mut j: usize = 0;
    while j < s.road_corridors.len()
        invariant
            j <= s.road_corridors@.len(),
            keys@ == corridor_keys(s.road_corridors@.take(j as int)),
        decreases s.road_corridors@.len() - j,
    {
        keys.push(s.road_corridors[j].road_corridor_key);
        proof {
            assert(corridor_keys(s.road_corridors@.take(j + 1)) =~= corridor_keys(s.road_corridors@.take(j as int)).push(
                s.road_corridors@[j as int].road_corridor_key,
            ));
        }
        j = j + 1;
    }
    proof {
        assert(s.road_corridors@.take(j as int) =~= s.road_corridors@);
        lemma_sections_outcome_restored(*usage, s.road_sections@, keys@, ns, imports@, s0, *scratch);
    }
    validate_sections(usage, s.road_sections.as_slice(), keys.as_slice(), namespace, imports, scratch, key)?;
    proof {
        lemma_lane_outcomes_restored(
            *usage,
            s.authoring_lanes@,
            s.lane_groups@,
            s.facility_bands@,
            s.canonical_frames@,
            ns,
            imports@,
            s0,
            *scratch,
        );
    }
    validate_authoring_lanes(usage, s.authoring_lanes.as_slice(), namespace, imports, scratch, key)?;
    proof {
        lemma_geometry_outcomes_restored(*usage, s.road_alignments@, s.lane_edges@, ns, imports@, s0, *scratch);
    }
    validate_lane_edges(usage, s.lane_edges.as_slice(), namespace, imports, scratch, key)
}

/// Checks and charges the junction tables; see [`junction_tables_outcome`].
pub fn preflight_junction_tables(
    usage: &mut RoadEditingPreflightCounts,
    s: &RoadEditingSourceFields,
    scratch: &mut PreflightScratch,
    key: &str,
) -> (r: Result<(), DiagnosticBundle>)
    ensures
        match junction_tables_outcome(*old(usage), *s, *old(scratch)) {
            Ok(c) => r is Ok && *final(usage) == c,
            Err(f) => r matches Err(b) && stage_reports(b, f, key@),
        },
        scratch_restored(*old(scratch), *final(scratch)),
        r is Ok ==> peak_lifted(*old(scratch), *final(scratch), junction_tables_need(*s)),
{
    let namespace = s.header.authoring_namespace_id;
    let imports = s.header.imports.as_slice();
    let ghost s0 = *scratch;
    let ghost ns = namespace.spec_bytes();
    validate_junctions(usage, s.junctions.as_slice(), namespace, imports, scratch, key)?;
    proof {
        lemma_junction_outcomes_restored(
            *usage,
            s.junctions@,
            s.movements@,
            s.maneuver_paths@,
            s.maneuver_gates@,
            s.waiting_zones@,
            ns,
            imports@,
            s0,
            *scratch,
        );
    }
    validate_movements(usage, s.movements.as_slice(), namespace, imports, scratch, key)?;
    proof {
        lemma_junction_outcomes_restored(
            *usage,
            s.junctions@,
            s.movements@,
            s.maneuver_paths@,
            s.maneuver_gates@,
            s.waiting_zones@,
            ns,
            imports@,
            s0,
            *scratch,
        );
    }
    validate_maneuver_paths(usage, s.maneuver_paths.as_slice(), namespace, imports, scratch, key)?;
    proof {
        lemma_junction_outcomes_restored(
            *usage,
            s.junctions@,
            s.movements@,
            s.maneuver_paths@,
            s.maneuver_gates@,
            s.waiting_zones@,
            ns,
            imports@,
            s0,
            *scratch,
        );
    }
    validate_maneuver_gates(usage, s.maneuver_gates.as_slice(), namespace, imports, scratch, key)?;
    proof {
        lemma_junction_outcomes_restored(
            *usage,
            s.junctions@,
            s.movements@,
            s.maneuver_paths@,
            s.maneuver_gates@,
            s.waiting_zones@,
            ns,
            imports@,
            s0,
            *scratch,
        );
    }
    validate_waiting_zones(usage, s.waiting_zones.as_slice(), namespace, imports, scratch, key)
}

/// Checks and charges the signal, parking, lane group, access, frame and
/// conflict tables; see [`area_tables_outcome`].
pub fn preflight_area_tables(
    usage: &mut RoadEditingPreflightCounts,
    s: &RoadEditingSourceFields,
    scratch: &mut PreflightScratch,
    key: &str,
) -> (r: Result<(), DiagnosticBundle>)
    ensures
        match area_tables_outcome(*old(usage), *s, *old(scratch)) {
            Ok(c) => r is Ok && *final(usage) == c,
            Err(f) => r matches Err(b) && stage_reports(b, f, key@),
        },
        scratch_restored(*old(scratch), *final(scratch)),
        r is Ok ==> peak_lifted(*old(scratch), *final(scratch), area_tables_need(*s)),
{
    let namespace = s.header.authoring_namespace_id;
    let imports = s.header.imports.as_slice();
    let ghost s0 = *scratch;
    let ghost ns = namespace.spec_bytes();
    validate_stop_lines_and_signal_groups(
        usage,
        s.stop_lines.as_slice(),
        s.signal_groups.as_slice(),
        namespace,
        imports,
        scratch,
        key,
    )?;
    proof {
        lemma_signal_outcomes_restored(
            *usage,
            s.stop_lines@,
            s.signal_groups@,
            s.signal_controllers@,
            s.signal_phases@,
            ns,
            imports@,
            s0,
            *scratch,
        );
    }
    validate_signal_controllers_and_phases(
        usage,
        s.signal_controllers.as_slice(),
        s.signal_phases.as_slice(),
        namespace,
        imports,
        scratch,
        key,
    )?;
    proof {
        lemma_parking_outcome_restored(*usage, s.parking_facilities@, s.parking_spaces@, ns, imports@, s0, *scratch);
    }
    validate_parking(usage, s.parking_facilities.as_slice(), s.parking_spaces.as_slice(), namespace, imports, scratch, key)?;
    proof {
        lemma_lane_outcomes_restored(
            *usage,
            s.authoring_lanes@,
            s.lane_groups@,
            s.facility_bands@,
            s.canonical_frames@,
            ns,
            imports@,
            s0,
            *scratch,
        );
    }
    validate_lane_groups_and_facility_bands(
        usage,
        s.lane_groups.as_slice(),
        s.facility_bands.as_slice(),
        namespace,
        imports,
        scratch,
        key,
    )?;
    proof {
        lemma_access_outcome_restored(
            *usage,
            s.participant_classes@,
            s.access_rules@,
            s.vehicle_profiles@,
            ns,
            imports@,
            s0,
            *scratch,
        );
    }
    validate_access_and_profiles(
        usage,
        s.participant_classes.as_slice(),
        s.access_rules.as_slice(),
        s.vehicle_profiles.as_slice(),
        namespace,
        imports,
        scratch,
        key,
    )?;
    proof {
        lemma_lane_outcomes_restored(
            *usage,
            s.authoring_lanes@,
            s.lane_groups@,
            s.facility_bands@,
            s.canonical_frames@,
            ns,
            imports@,
            s0,
            *scratch,
        );
    }
    validate_routes_and_frames(usage, s.canonical_frames.as_slice(), namespace, imports, scratch, key)?;
    proof {
        lemma_conflicts_outcome_restored(
            *usage,
            s.conflict_zones@,
            s.participant_streams@,
            s.conflict_zone_regions@,
            ns,
            imports@,
            s0,
            *scratch,
        );
    }
    validate_conflicts_and_regions(
        usage,
        s.conflict_zones.as_slice(),
        s.participant_streams.as_slice(),
        s.conflict_zone_regions.as_slice(),
        namespace,
        imports,
        scratch,
        key,
    )
}

/// The road tables read only the limits and the live bytes of the scratch
/// pass.
proof fn lemma_road_tables_restored(c: RoadEditingPreflightCounts, s: RoadEditingSourceFields, a: PreflightScratch, b: PreflightScratch)
    requires
        scratch_restored(a, b),
    ensures
        road_tables_outcome(c, s, a) == road_tables_outcome(c, s, b),
{
    let ns = s.header.authoring_namespace_id.spec_bytes();
    let imports = s.header.imports@;
    lemma_geometry_outcomes_restored(c, s.road_alignments@, s.lane_edges@, ns, imports, a, b);
    if let Ok(c1) = alignments_outcome(c, s.road_alignments@, ns, imports, a) {
        lemma_corridors_outcome_restored(c1, s.road_corridors@, ns, imports, a, b);
        if let Ok(c2) = corridors_outcome(c1, s.road_corridors@, ns, imports, a) {
            lemma_sections_outcome_restored(c2, s.road_sections@, corridor_keys(s.road_corridors@), ns, imports, a, b);
            if let Ok(c3) = sections_outcome(c2, s.road_sections@, corridor_keys(s.road_corridors@), ns, imports, a) {
                lemma_lane_outcomes_restored(
                    c3,
                    s.authoring_lanes@,
                    s.lane_groups@,
                    s.facility_bands@,
                    s.canonical_frames@,
                    ns,
                    imports,
                    a,
                    b,
                );
                if let Ok(c4) = authoring_lanes_outcome(c3, s.authoring_lanes@, ns, imports, a) {
                    lemma_geometry_outcomes_restored(c4, s.road_alignments@, s.lane_edges@, ns, imports, a, b);
                }
            }
        }
    }
}

/// The junction tables read only the limits and the live bytes of the
/// scratch pass.
proof fn lemma_junction_tables_restored(
    c: RoadEditingPreflightCounts,
    s: RoadEditingSourceFields,
    a: PreflightScratch,
    b: PreflightScratch,
)
    requires
        scratch_restored(a, b),
    ensures
        junction_tables_outcome(c, s, a) == junction_tables_outcome(c, s, b),
{
    let ns = s.header.authoring_namespace_id.spec_bytes();
    let imports = s.header.imports@;
    lemma_junction_outcomes_restored(c, s.junctions@, s.movements@, s.maneuver_paths@, s.maneuver_gates@, s.waiting_zones@, ns, imports, a, b);
    if let Ok(c1) = junctions_outcome(c, s.junctions@, ns, imports, a) {
        lemma_junction_outcomes_restored(c1, s.junctions@, s.movements@, s.maneuver_paths@, s.maneuver_gates@, s.waiting_zones@, ns, imports, a, b);
        if let Ok(c2) = movements_outcome(c1, s.movements@, ns, imports, a) {
            lemma_junction_outcomes_restored(c2, s.junctions@, s.movements@, s.maneuver_paths@, s.maneuver_gates@, s.waiting_zones@, ns, imports, a, b);
            if let Ok(c3) = maneuver_paths_outcome(c2, s.maneuver_paths@, ns, imports, a) {
                lemma_junction_outcomes_restored(c3, s.junctions@, s.movements@, s.maneuver_paths@, s.maneuver_gates@, s.waiting_zones@, ns, imports, a, b);
                if let Ok(c4) = maneuver_gates_outcome(c3, s.maneuver_gates@, ns, imports, a) {
                    lemma_junction_outcomes_restored(c4, s.junctions@, s.movements@, s.maneuver_paths@, s.maneuver_gates@, s.waiting_zones@, ns, imports, a, b);
                }
            }
        }
    }
}

/// The area tables read only the limits and the live bytes of the scratch
/// pass.
proof fn lemma_area_tables_restored(c: RoadEditingPreflightCounts, s: RoadEditingSourceFields, a: PreflightScratch, b: PreflightScratch)
    requires
        scratch_restored(a, b),
    ensures
        area_tables_outcome(c, s, a) == area_tables_outcome(c, s, b),
{
    let ns = s.header.authoring_namespace_id.spec_bytes();
    let imports = s.header.imports@;
    lemma_signal_outcomes_restored(c, s.stop_lines@, s.signal_groups@, s.signal_controllers@, s.signal_phases@, ns, imports, a, b);
    if let Ok(c1) = stop_lines_and_groups_outcome(c, s.stop_lines@, s.signal_groups@, ns, imports, a) {
        lemma_signal_outcomes_restored(c1, s.stop_lines@, s.signal_groups@, s.signal_controllers@, s.signal_phases@, ns, imports, a, b);
        if let Ok(c2) = controllers_and_phases_outcome(c1, s.signal_controllers@, s.signal_phases@, ns, imports, a) {
            lemma_parking_outcome_restored(c2, s.parking_facilities@, s.parking_spaces@, ns, imports, a, b);
            if let Ok(c3) = parking_outcome(c2, s.parking_facilities@, s.parking_spaces@, ns, imports, a) {
                lemma_lane_outcomes_restored(c3, s.authoring_lanes@, s.lane_groups@, s.facility_bands@, s.canonical_frames@, ns, imports, a, b);
                if let Ok(c4) = groups_and_bands_outcome(c3, s.lane_groups@, s.facility_bands@, ns, imports, a) {
                    lemma_access_outcome_restored(c4, s.participant_classes@, s.access_rules@, s.vehicle_profiles@, ns, imports, a, b);
                    if let Ok(c5) = access_outcome(c4, s.participant_classes@, s.access_rules@, s.vehicle_profiles@, ns, imports, a) {
                        lemma_lane_outcomes_restored(c5, s.authoring_lanes@, s.lane_groups@, s.facility_bands@, s.canonical_frames@, ns, imports, a, b);
                        if let Ok(c6) = canonical_frames_outcome(c5, s.canonical_frames@, ns, imports, a) {
                            lemma_conflicts_outcome_restored(c6, s.conflict_zones@, s.participant_streams@, s.conflict_zone_regions@, ns, imports, a, b);
                        }
                    }
                }
            }
        }
    }
}

/// Runs the whole semantic preflight of a verified source, whose closure
/// links are those of its own tables (see [`source_links`]), in one fresh
/// scratch pass; see [`source_outcome`]. On success the counts carry the
/// peak scratch bytes of the pass, [`source_peak_scratch_bytes`], which lie
/// within the scratch limits.
pub fn preflight_source(
    s: &RoadEditingSourceFields,
    limits: &CompileLimits,
    expected_key: &str,
    admitted_live_bytes: u64,
) -> (r: Result<RoadEditingPreflightCounts, DiagnosticBundle>)
    requires
        links_match(*s),
    ensures
        match source_outcome(*s, *limits, admitted_live_bytes) {
            Ok(c) => r matches Ok(u) && u == (RoadEditingPreflightCounts {
                preflight_peak_scratch_bytes: u.preflight_peak_scratch_bytes,
                ..c
            }),
            Err(f) => r matches Err(b) && stage_reports(b, f, expected_key@),
        },
        r matches Ok(u) ==> peak_within_limits(*limits, admitted_live_bytes, u.preflight_peak_scratch_bytes),
        r matches Ok(u) ==> u.preflight_peak_scratch_bytes == source_peak_scratch_bytes(*s),
        r is Ok ==> crate::links::owners_declared(s.links),
        r is Ok ==> crate::links::signal_references_declared(s.links),
{
    let mut scratch = PreflightScratch::new(limits, admitted_live_bytes);
    let ghost s0 = scratch;
    let mut usage = preflight_header(&s.header, limits, &mut scratch, expected_key)?;
    proof {
        lemma_road_tables_restored(usage, *s, s0, scratch);
    }
    preflight_road_tables(&mut usage, s, &mut scratch, expected_key)?;
    proof {
        lemma_junction_tables_restored(usage, *s, s0, scratch);
    }
    preflight_junction_tables(&mut usage, s, &mut scratch, expected_key)?;
    proof {
        lemma_area_tables_restored(usage, *s, s0, scratch);
    }
    preflight_area_tables(&mut usage, s, &mut scratch, expected_key)?;
    validate_policies(
        &mut usage,
        s.root_slots.as_slice(),
        s.movement_slots.as_slice(),
        s.policies.as_slice(),
        s.header.authoring_namespace_id,
        s.header.imports.as_slice(),
        limits,
        expected_key,
    )?;
    proof {
        lemma_links_failure_restored(s.links, s0, scratch);
    }
    finish_preflight(usage, &s.links, &mut scratch, expected_key)
}

} // verus!
