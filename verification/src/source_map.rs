//! Read-only views of the source map: the roles of owner-local source records,
//! registered documents, resolved locations, and the sizing that the source
//! map stage holds to its limits.

use vstd::prelude::*;

use crate::limits::CompileLimitDimension;
use crate::preflight::sat_add;

verus! {

/// The typed semantic role of an owner-local source record.
#[derive(Clone, Copy, Debug, PartialEq, Eq, Structural, PartialOrd, Ord, Hash)]
#[non_exhaustive]
pub enum SourceRelationRole {
    /// Records one successor connection of a lane edge.
    LaneEdgeSuccessor,
    /// Records one member of the ordered cross-section of a road corridor.
    RoadCorridorElement,
    /// Records one member of the ordered lanes of a road section.
    RoadSectionLane,
    /// Records one lane-graph edge of the ordered cover of an authoring lane.
    AuthoringLaneEdge,
    /// Records one authoring-lane member of a lane group.
    LaneGroupMember,
    /// Records one movement owned by a junction.
    JunctionMovement,
    /// Records one maneuver path owned by a movement.
    MovementManeuverPath,
    /// Records one edge of the full entry, internal and exit sequence of a maneuver path.
    ManeuverPathEdge,
    /// Records the exclusive ownership of one internal junction edge.
    JunctionInternalEdge,
    /// Records one maneuver gate of a path, in transition order.
    ManeuverPathGate,
    /// Records one waiting zone of a path, in entry order.
    ManeuverPathWaitingZone,
    /// Records a maneuver gate that refers to a stop line.
    StopLineManeuverGate,
    /// Records one edge occurrence of a static route.
    StaticRouteEdge,
    /// Records one full maneuver-path match of a static route.
    StaticRouteManeuverOccurrence,
    /// Records one maneuver-gate match of a static route.
    StaticRouteGateOccurrence,
    /// Records one waiting-zone match of a static route.
    StaticRouteWaitingZoneOccurrence,
    /// Records one signal group owned by a controller.
    SignalControllerGroup,
    /// Records one ordered phase of a fixed-time controller.
    SignalControllerPhase,
    /// Records the aspect that a phase assigns to a signal group.
    SignalPhaseState,
    /// Records the binding of a maneuver gate to a fixed-time signal group.
    ManeuverGateSignalGroup,
    /// Records the optional parking area of a parking space.
    ParkingSpaceArea,
    /// Records the anchor of a parking space entry strictly inside a lane edge.
    ParkingSpaceEntry,
    /// Records the anchor of a parking space exit strictly inside a lane edge.
    ParkingSpaceExit,
    /// Records the optional single parent of a participant class.
    ParticipantClassExtends,
    /// Records the static target of an access rule.
    AccessRuleTarget,
    /// Records one participant class selector of an access rule.
    AccessRuleParticipantClass,
    /// Records the participant class of a vehicle profile.
    VehicleProfileParticipantClass,
    /// Records one lane-edge centreline owned by a canonical frame.
    CanonicalFrameLaneEdgeGeometry,
}

/// The role numbers, which tell record kinds apart within one compilation
/// result; they are no wire format code.
pub open spec fn role_code(role: SourceRelationRole) -> u16 {
    match role {
        SourceRelationRole::LaneEdgeSuccessor => 1,
        SourceRelationRole::RoadCorridorElement => 2,
        SourceRelationRole::RoadSectionLane => 3,
        SourceRelationRole::AuthoringLaneEdge => 4,
        SourceRelationRole::LaneGroupMember => 5,
        SourceRelationRole::JunctionMovement => 6,
        SourceRelationRole::MovementManeuverPath => 7,
        SourceRelationRole::ManeuverPathEdge => 8,
        SourceRelationRole::JunctionInternalEdge => 9,
        SourceRelationRole::ManeuverPathGate => 10,
        SourceRelationRole::ManeuverPathWaitingZone => 11,
        SourceRelationRole::StopLineManeuverGate => 12,
        SourceRelationRole::StaticRouteEdge => 13,
        SourceRelationRole::StaticRouteManeuverOccurrence => 14,
        SourceRelationRole::StaticRouteGateOccurrence => 15,
        SourceRelationRole::StaticRouteWaitingZoneOccurrence => 16,
        SourceRelationRole::SignalControllerGroup => 17,
        SourceRelationRole::SignalControllerPhase => 18,
        SourceRelationRole::SignalPhaseState => 19,
        SourceRelationRole::ManeuverGateSignalGroup => 20,
        SourceRelationRole::ParkingSpaceArea => 21,
        SourceRelationRole::ParkingSpaceEntry => 22,
        SourceRelationRole::ParkingSpaceExit => 23,
        SourceRelationRole::ParticipantClassExtends => 24,
        SourceRelationRole::AccessRuleTarget => 25,
        SourceRelationRole::AccessRuleParticipantClass => 26,
        SourceRelationRole::VehicleProfileParticipantClass => 27,
        SourceRelationRole::CanonicalFrameLaneEdgeGeometry => 28,
    }
}

impl SourceRelationRole {
    /// Returns the role number.
    pub fn code(self) -> (r: u16)
        ensures
            r == role_code(self),
    {
        match self {
            SourceRelationRole::LaneEdgeSuccessor => 1,
            SourceRelationRole::RoadCorridorElement => 2,
            SourceRelationRole::RoadSectionLane => 3,
            SourceRelationRole::AuthoringLaneEdge => 4,
            SourceRelationRole::LaneGroupMember => 5,
            SourceRelationRole::JunctionMovement => 6,
            SourceRelationRole::MovementManeuverPath => 7,
            SourceRelationRole::ManeuverPathEdge => 8,
            SourceRelationRole::JunctionInternalEdge => 9,
            SourceRelationRole::ManeuverPathGate => 10,
            SourceRelationRole::ManeuverPathWaitingZone => 11,
            SourceRelationRole::StopLineManeuverGate => 12,
            SourceRelationRole::StaticRouteEdge => 13,
            SourceRelationRole::StaticRouteManeuverOccurrence => 14,
            SourceRelationRole::StaticRouteGateOccurrence => 15,
            SourceRelationRole::StaticRouteWaitingZoneOccurrence => 16,
            SourceRelationRole::SignalControllerGroup => 17,
            SourceRelationRole::SignalControllerPhase => 18,
            SourceRelationRole::SignalPhaseState => 19,
            SourceRelationRole::ManeuverGateSignalGroup => 20,
            SourceRelationRole::ParkingSpaceArea => 21,
            SourceRelationRole::ParkingSpaceEntry => 22,
            SourceRelationRole::ParkingSpaceExit => 23,
            SourceRelationRole::ParticipantClassExtends => 24,
            SourceRelationRole::AccessRuleTarget => 25,
            SourceRelationRole::AccessRuleParticipantClass => 26,
            SourceRelationRole::VehicleProfileParticipantClass => 27,
            SourceRelationRole::CanonicalFrameLaneEdgeGeometry => 28,
        }
    }
}

/// The three limited resources of the source map stage.
#[derive(Clone, Copy, Debug, PartialEq, Eq, Structural)]
pub struct SourceMapSizing {
    pub output_bytes: u64,
    pub scratch_bytes: u64,
    pub controlled_live_bytes: u64,
}

impl SourceMapSizing {
    /// The sizing from its parts: the output is the frozen lowering's output
    /// plus the source map's logical bytes; the live bytes add up the
    /// compilation unit, the mid-level unit, the frozen lowering, its mapping,
    /// the source map's new owned bytes and the scratch; all sums saturate.
    pub fn from_components(
        unit_controlled_live_bytes: u64,
        mir_controlled_live_bytes: u64,
        lir_output_bytes: u64,
        lir_controlled_live_bytes: u64,
        lir_mapping_bytes: u64,
        source_map_logical_bytes: u64,
        source_map_new_owned_bytes: u64,
        scratch_bytes: u64,
    ) -> (r: Self)
        ensures
            r.output_bytes == sat_add(lir_output_bytes, source_map_logical_bytes as int),
            r.scratch_bytes == scratch_bytes,
            r.controlled_live_bytes == sat_add(
                sat_add(
                    sat_add(
                        sat_add(
                            sat_add(unit_controlled_live_bytes, mir_controlled_live_bytes as int),
                            lir_controlled_live_bytes as int,
                        ),
                        lir_mapping_bytes as int,
                    ),
                    source_map_new_owned_bytes as int,
                ),
                scratch_bytes as int,
            ),
    {
        SourceMapSizing {
            output_bytes: lir_output_bytes.saturating_add(source_map_logical_bytes),
            scratch_bytes,
            controlled_live_bytes: unit_controlled_live_bytes.saturating_add(mir_controlled_live_bytes).saturating_add(
                lir_controlled_live_bytes,
            ).saturating_add(lir_mapping_bytes).saturating_add(source_map_new_owned_bytes).saturating_add(
                scratch_bytes,
            ),
        }
    }

    /// The observations in the order their limits are checked: output bytes,
    /// stage scratch bytes, compiler-controlled live bytes.
    pub fn limit_observations(self) -> (r: [(CompileLimitDimension, u64); 3])
        ensures
            r@ == seq![
                (CompileLimitDimension::OutputBytes, self.output_bytes),
                (CompileLimitDimension::StageScratchBytes, self.scratch_bytes),
                (CompileLimitDimension::CompilerControlledLiveBytes, self.controlled_live_bytes),
            ],
    {
        let r = [
            (CompileLimitDimension::OutputBytes, self.output_bytes),
            (CompileLimitDimension::StageScratchBytes, self.scratch_bytes),
            (CompileLimitDimension::CompilerControlledLiveBytes, self.controlled_live_bytes),
        ];
        proof {
            assert(r@ =~= seq![
                (CompileLimitDimension::OutputBytes, self.output_bytes),
                (CompileLimitDimension::StageScratchBytes, self.scratch_bytes),
                (CompileLimitDimension::CompilerControlledLiveBytes, self.controlled_live_bytes),
            ]);
        }
        r
    }
}

/// A one-based line and column in a text source.
#[derive(Clone, Copy, Debug, PartialEq, Eq, Structural, PartialOrd, Ord, Hash)]
pub struct SourcePosition {
    pub line: u32,
    pub column: u32,
}

/// A read-only view of one registered source document.
#[derive(Clone, Copy, Debug)]
pub struct SourceDocumentView<'a> {
    source_document_key: &'a str,
    authoring_namespace_id: &'a str,
    source_document_digest: &'a [u8; 32],
    source_record_byte_len: u32,
}

impl<'a> SourceDocumentView<'a> {
    pub closed spec fn key_view(&self) -> Seq<char> {
        self.source_document_key@
    }

    pub closed spec fn namespace_view(&self) -> Seq<char> {
        self.authoring_namespace_id@
    }

    pub closed spec fn digest_view(&self) -> [u8; 32] {
        *self.source_document_digest
    }

    pub closed spec fn record_len(&self) -> u32 {
        self.source_record_byte_len
    }

    /// A view of a registered document's descriptor.
    pub fn new(
        source_document_key: &'a str,
        authoring_namespace_id: &'a str,
        source_document_digest: &'a [u8; 32],
        source_record_byte_len: u32,
    ) -> (r: Self)
        ensures
            r.key_view() == source_document_key@,
            r.namespace_view() == authoring_namespace_id@,
            r.digest_view() == *source_document_digest,
            r.record_len() == source_record_byte_len,
    {
        SourceDocumentView { source_document_key, authoring_namespace_id, source_document_digest, source_record_byte_len }
    }

    /// The document key, unique in the compilation unit and independent of
    /// host paths.
    pub fn source_document_key(&self) -> (r: &'a str)
        ensures
            r@ == self.key_view(),
    {
        self.source_document_key
    }

    /// The authoring namespace of the module that owns the document.
    pub fn authoring_namespace_id(&self) -> (r: &'a str)
        ensures
            r@ == self.namespace_view(),
    {
        self.authoring_namespace_id
    }

    /// The SHA-256 digest of the document's canonical source record.
    pub fn source_document_digest(&self) -> (r: &'a [u8; 32])
        ensures
            *r == self.digest_view(),
    {
        self.source_document_digest
    }

    /// The exact byte length of the document's canonical source record.
    pub fn source_record_byte_len(&self) -> (r: u32)
        ensures
            r == self.record_len(),
    {
        self.source_record_byte_len
    }
}

/// A read-only source location resolved against the registered documents.
#[derive(Clone, Copy, Debug)]
pub struct SourceLocationView<'a> {
    source_document_key: &'a str,
    start: SourcePosition,
    end: SourcePosition,
}

impl<'a> SourceLocationView<'a> {
    pub closed spec fn key_view(&self) -> Seq<char> {
        self.source_document_key@
    }

    pub closed spec fn spec_start(&self) -> SourcePosition {
        self.start
    }

    pub closed spec fn spec_end(&self) -> SourcePosition {
        self.end
    }

    /// A location in the document `source_document_key`.
    pub fn new(source_document_key: &'a str, start: SourcePosition, end: SourcePosition) -> (r: Self)
        ensures
            r.key_view() == source_document_key@,
            r.spec_start() == start,
            r.spec_end() == end,
    {
        SourceLocationView { source_document_key, start, end }
    }

    /// The stable document key, not a host path.
    pub fn source_document_key(&self) -> (r: &'a str)
        ensures
            r@ == self.key_view(),
    {
        self.source_document_key
    }

    /// The one-based start.
    pub fn start(&self) -> (r: SourcePosition)
        ensures
            r == self.spec_start(),
    {
        self.start
    }

    /// The one-based end.
    pub fn end(&self) -> (r: SourcePosition)
        ensures
            r == self.spec_end(),
    {
        self.end
    }
}

} // verus!
