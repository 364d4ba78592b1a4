//! Closed road-editing source locations: document identities, schema kinds,
//! closed property paths, checked byte ranges and the shared location context
//! whose ordinals resolve strings, property paths and canvas selections within
//! one compilation.

use vstd::prelude::*;
use vstd::string::StringSliceAdditionalSpecFns;

use crate::declaration::EntityKind;
use crate::preflight::sat_add;
use crate::split::str_equal;
use crate::text::string_bytes;

verus! {

/// The document identity available before the wire is verified: the expected
/// document key that the caller supplied and checked.
#[derive(Clone, Debug, PartialEq, Eq, PartialOrd, Ord, Hash)]
pub struct RoadEditingInputDocumentIdentity {
    expected_source_document_key: String,
}

/// The document identity after the wire is verified: the module namespace and
/// the document key, which equals the expected key byte for byte.
#[derive(Clone, Debug, PartialEq, Eq, PartialOrd, Ord, Hash)]
pub struct RoadEditingVerifiedDocumentIdentity {
    module_namespace: String,
    source_document_key: String,
}

/// A road-editing document identity, before or after verification.
#[derive(Clone, Debug, PartialEq, Eq, PartialOrd, Ord, Hash)]
pub enum RoadEditingDocumentIdentity {
    Input(RoadEditingInputDocumentIdentity),
    Verified(RoadEditingVerifiedDocumentIdentity),
}

impl RoadEditingDocumentIdentity {
    /// The stable source document key.
    pub closed spec fn key_view(&self) -> Seq<char> {
        match self {
            RoadEditingDocumentIdentity::Input(i) => i.expected_source_document_key@,
            RoadEditingDocumentIdentity::Verified(v) => v.source_document_key@,
        }
    }

    /// The verified module namespace; an input identity has none.
    pub closed spec fn namespace_view(&self) -> Option<Seq<char>> {
        match self {
            RoadEditingDocumentIdentity::Input(_) => None,
            RoadEditingDocumentIdentity::Verified(v) => Some(v.module_namespace@),
        }
    }

    /// Returns the stable source document key.
    pub fn source_document_key(&self) -> (r: &str)
        ensures
            r@ == self.key_view(),
    {
        match self {
            RoadEditingDocumentIdentity::Input(i) => i.expected_source_document_key.as_str(),
            RoadEditingDocumentIdentity::Verified(v) => v.source_document_key.as_str(),
        }
    }

    /// Returns the verified module namespace; an input identity has none.
    pub fn module_namespace(&self) -> (r: Option<&str>)
        ensures
            match self.namespace_view() {
                None => r is None,
                Some(ns) => r matches Some(s) && s@ == ns,
            },
    {
        match self {
            RoadEditingDocumentIdentity::Input(_) => None,
            RoadEditingDocumentIdentity::Verified(v) => Some(v.module_namespace.as_str()),
        }
    }

    /// The identity of an input that is not verified yet.
    pub fn input(expected_source_document_key: &str) -> (r: Self)
        ensures
            r is Input,
            r.key_view() == expected_source_document_key@,
            r.namespace_view() is None,
    {
        RoadEditingDocumentIdentity::Input(
            RoadEditingInputDocumentIdentity {
                expected_source_document_key: String::from_str(expected_source_document_key),
            },
        )
    }

    /// The identity of a verified module.
    pub fn verified(module_namespace: &str, source_document_key: &str) -> (r: Self)
        ensures
            r is Verified,
            r.key_view() == source_document_key@,
            r.namespace_view() == Some(module_namespace@),
    {
        RoadEditingDocumentIdentity::Verified(
            RoadEditingVerifiedDocumentIdentity {
                module_namespace: String::from_str(module_namespace),
                source_document_key: String::from_str(source_document_key),
            },
        )
    }
}

/// The root vectors of the road-editing schema.
#[derive(Clone, Copy, Debug, PartialEq, Eq, Structural, PartialOrd, Ord, Hash)]
#[non_exhaustive]
pub enum RoadEditingRootVectorKind {
    /// The root vector `road_alignments`.
    RoadAlignment,
    /// The root vector `road_corridors`.
    RoadCorridor,
    /// The root vector `road_sections`.
    RoadSection,
    /// The root vector `authoring_lanes`.
    AuthoringLane,
    /// The root vector `lane_edges`.
    LaneEdge,
    /// The root vector `junctions`.
    Junction,
    /// The root vector `movements`.
    Movement,
    /// The root vector `maneuver_paths`.
    ManeuverPath,
    /// The root vector `maneuver_gates`.
    ManeuverGate,
    /// The root vector `waiting_zones`.
    WaitingZone,
    /// The root vector `stop_lines`.
    StopLine,
    /// The root vector `signal_groups`.
    SignalGroup,
    /// The root vector `signal_controllers`.
    SignalController,
    /// The root vector `signal_phases`.
    SignalPhase,
    /// The root vector `parking_facilities`.
    ParkingFacility,
    /// The root vector `parking_spaces`.
    ParkingSpace,
    /// The root vector `lane_groups`.
    LaneGroup,
    /// The root vector `facility_bands`.
    FacilityBand,
    /// The root vector `participant_classes`.
    ParticipantClass,
    /// The root vector `access_rules`.
    AccessRule,
    /// The root vector `vehicle_profiles`.
    VehicleProfile,
    /// The root vector `canonical_frames`.
    CanonicalFrame,
    /// The root vector `conflict_zones`.
    ConflictZone,
    /// The root vector `participant_streams`.
    ParticipantStream,
    /// The root vector `conflict_zone_regions`.
    ConflictZoneRegion,
    /// The root vector `right_of_way_policy_sets`.
    RightOfWayPolicySet,
}

/// The tables of the road-editing schema that a property path or a wire
/// fallback can name.
#[derive(Clone, Copy, Debug, PartialEq, Eq, Structural, PartialOrd, Ord, Hash)]
#[non_exhaustive]
pub enum RoadEditingTableKind {
    /// The table `RoadEditingSource`.
    RoadEditingSource,
    /// The table `ModuleHeader`.
    ModuleHeader,
    /// The table `Provenance`.
    Provenance,
    /// The table `LineSegment`.
    LineSegment,
    /// The table `CubicBezierSegment`.
    CubicBezierSegment,
    /// The table `CurveSegment`.
    CurveSegment,
    /// The table `CurveProgram`.
    CurveProgram,
    /// The table `RoadAlignment`.
    RoadAlignment,
    /// The table `CorridorElement`.
    CorridorElement,
    /// The table `RoadCorridor`.
    RoadCorridor,
    /// The table `RoadSection`.
    RoadSection,
    /// The table `AuthoringLane`.
    AuthoringLane,
    /// The table `LaneEdge`.
    LaneEdge,
    /// The table `Junction`.
    Junction,
    /// The table `Movement`.
    Movement,
    /// The table `ManeuverPath`.
    ManeuverPath,
    /// The table `ManeuverGate`.
    ManeuverGate,
    /// The table `WaitingZone`.
    WaitingZone,
    /// The table `StopLine`.
    StopLine,
    /// The table `SignalGroup`.
    SignalGroup,
    /// The table `SignalController`.
    SignalController,
    /// The table `SignalPhaseState`.
    SignalPhaseState,
    /// The table `SignalPhase`.
    SignalPhase,
    /// The table `ParkingFacility`.
    ParkingFacility,
    /// The table `ParkingLaneAnchor`.
    ParkingLaneAnchor,
    /// The table `ParkingSpaceGeometry`.
    ParkingSpaceGeometry,
    /// The table `ParkingSpace`.
    ParkingSpace,
    /// The table `LaneGroup`.
    LaneGroup,
    /// The table `FacilityBand`.
    FacilityBand,
    /// The table `ParticipantClass`.
    ParticipantClass,
    /// The table `AccessRegulation`.
    AccessRegulation,
    /// The table `AccessRule`.
    AccessRule,
    /// The table `IidmVehicleProfile`.
    IidmVehicleProfile,
    /// The table `VehicleProfile`.
    VehicleProfile,
    /// The table `ConflictZoneRegion`.
    ConflictZoneRegion,
    /// The table `CanonicalFrame`.
    CanonicalFrame,
    /// The table `ConflictZone`.
    ConflictZone,
    /// The table `PathAnchor`.
    PathAnchor,
    /// The table `ConflictPassage`.
    ConflictPassage,
    /// The table `ParticipantStream`.
    ParticipantStream,
    /// The table `RightOfWayPolicySet`.
    RightOfWayPolicySet,
    /// The table `PolicyEvidence`.
    PolicyEvidence,
    /// The table `PolicyGapProfile`.
    PolicyGapProfile,
    /// The table `PolicyStreamRule`.
    PolicyStreamRule,
    /// The table `PolicyGateRule`.
    PolicyGateRule,
}

/// The inline structs of the road-editing schema that a property path can name.
#[derive(Clone, Copy, Debug, PartialEq, Eq, Structural, PartialOrd, Ord, Hash)]
#[non_exhaustive]
pub enum RoadEditingStructKind {
    /// Inline struct of a 32-byte SHA-256 digest.
    Digest256,
    /// Inline struct of an optional unsigned 64-bit value; absence means none.
    OptionalU64,
    /// Inline struct of a three-dimensional authoring point.
    Vec3F64,
    /// Inline struct of the linear width at both ends of a station interval.
    LinearWidthProfile,
    /// Inline struct of a two-dimensional point in the XZ plane.
    Vec2F64,
}

/// The unions of the road-editing schema that a property path can name.
#[derive(Clone, Copy, Debug, PartialEq, Eq, Structural, PartialOrd, Ord, Hash)]
#[non_exhaustive]
pub enum RoadEditingUnionKind {
    /// The geometry of a curve segment: a line or a cubic Bezier segment.
    CurveSegmentGeometry,
}

/// The closed set of owner-local relations.
#[derive(Clone, Copy, Debug, PartialEq, Eq, Structural, PartialOrd, Ord, Hash)]
#[non_exhaustive]
pub enum RoadEditingRelationKind {
    /// Between a module and the modules it imports.
    Import,
    /// Between a road alignment and its curve segments.
    CurveSegment,
    /// Between a road corridor and its cross-section elements.
    CorridorElement,
    /// Between a road section and its authoring lanes.
    RoadSectionAuthoringLane,
    /// Between a lane edge and its successor edges.
    LaneEdgeSuccessor,
    /// Between a junction and its approach edges.
    JunctionApproachEdge,
    /// Between a junction and its internal edges.
    JunctionInternalEdge,
    /// Between a maneuver path and its internal edges.
    ManeuverPathInternalEdge,
    /// Between a signal controller and its signal groups.
    SignalControllerGroup,
    /// Between a signal controller and its phases.
    SignalControllerPhase,
    /// Between a signal phase and its states.
    SignalPhaseState,
    /// Between an access rule and its participant classes.
    AccessRuleParticipantClass,
    /// Between a parking facility and its virtual entries.
    ParkingFacilityVirtualEntry,
    /// Between a parking facility and its virtual exits.
    ParkingFacilityVirtualExit,
    /// Between a participant stream and its conflict passages.
    ParticipantStreamPassage,
    /// Between a module and its conflict-zone region records.
    ConflictZoneRegion,
    /// Between a right-of-way policy set and its evidence.
    PolicyEvidence,
    /// Between a right-of-way policy set and its gap profiles.
    PolicyGapProfile,
    /// Between a right-of-way policy set and its stream rules.
    PolicyStreamRule,
    /// Between a right-of-way policy set and its gate rules.
    PolicyGateRule,
}

/// What a road-editing source address names: a road alignment, which has a
/// stable authoring key but no stable identity, or a declaration of a kind.
#[derive(Clone, Copy, Debug, PartialEq, Eq, Structural, PartialOrd, Ord, Hash)]
pub enum RoadEditingAddressKind {
    RoadAlignment,
    Declaration(EntityKind),
}

/// A stable occurrence in an ordered product relation or a canonical set.
#[derive(Clone, Copy, Debug, PartialEq, Eq, Structural, PartialOrd, Ord, Hash)]
pub enum RoadEditingRelationOccurrence {
    /// The zero-based index of the member in its owner's vector.
    OrderedProductOrdinal(u32),
    /// The zero-based index of the member in the canonical order.
    CanonicalSetOrdinal(u32),
}

/// The ordinal of a string in a location context; valid within one
/// compilation only.
#[derive(Clone, Copy, Debug, PartialEq, Eq, Structural, PartialOrd, Ord, Hash)]
pub struct RoadEditingStringOrdinal(u32);

/// The ordinal of a property path in a location context.
#[derive(Clone, Copy, Debug, PartialEq, Eq, Structural, PartialOrd, Ord, Hash)]
pub struct RoadEditingPropertyPathOrdinal(u32);

/// The ordinal of a canvas selection key in a location context.
#[derive(Clone, Copy, Debug, PartialEq, Eq, Structural, PartialOrd, Ord, Hash)]
pub struct RoadEditingCanvasSelectionOrdinal(u32);

impl RoadEditingStringOrdinal {
    pub closed spec fn index(self) -> int {
        self.0 as int
    }
}

impl RoadEditingPropertyPathOrdinal {
    pub closed spec fn index(self) -> int {
        self.0 as int
    }
}

impl RoadEditingCanvasSelectionOrdinal {
    pub closed spec fn index(self) -> int {
        self.0 as int
    }
}

/// One step of a property path: a field of a known table, a member of a known
/// inline struct, or a variant of a known union.
#[derive(Clone, Copy, Debug, PartialEq, Eq, Structural, PartialOrd, Ord, Hash)]
pub enum RoadEditingPropertyStep {
    TableField { table: RoadEditingTableKind, field_id: u16 },
    StructMember { structure: RoadEditingStructKind, member_id: u8 },
    UnionVariant { union: RoadEditingUnionKind, discriminant: u8 },
}

/// A closed leaf property path of one to four steps, outermost first.
#[derive(Clone, Debug, PartialEq, Eq, PartialOrd, Ord, Hash)]
pub struct RoadEditingPropertyPath {
    steps: Vec<RoadEditingPropertyStep>,
}

impl RoadEditingPropertyPath {
    /// The steps, outermost first.
    pub closed spec fn view_steps(&self) -> Seq<RoadEditingPropertyStep> {
        self.steps@
    }

    /// A path is one to four steps deep.
    pub open spec fn wf(&self) -> bool {
        1 <= self.view_steps().len() <= 4
    }

    /// Returns the steps, outermost first.
    pub fn steps(&self) -> (r: &[RoadEditingPropertyStep])
        ensures
            r@ == self.view_steps(),
    {
        self.steps.as_slice()
    }

    /// A path of the given steps, which must number one to four.
    pub fn new(steps: Vec<RoadEditingPropertyStep>) -> (r: Self)
        requires
            1 <= steps@.len() <= 4,
        ensures
            r.view_steps() == steps@,
            r.wf(),
    {
        RoadEditingPropertyPath { steps }
    }
}

/// Whether two property paths have the same steps.
fn same_path(a: &RoadEditingPropertyPath, b: &RoadEditingPropertyPath) -> (r: bool)
    ensures
        r == (a.view_steps() == b.view_steps()),
{
    let x = a.steps();
    let y = b.steps();
    if x.len() != y.len() {
        return false;
    }
    let mut i: usize = 0;
    while i < x.len()
        invariant
            i <= x@.len(),
            x@.len() == y@.len(),
            x@ == a.view_steps(),
            y@ == b.view_steps(),
            forall|j: int| 0 <= j < i ==> x@[j] == y@[j],
        decreases x@.len() - i,
    {
        if x[i] != y[i] {
            return false;
        }
        i = i + 1;
    }
    proof {
        assert(x@ =~= y@);
    }
    true
}

/// A byte range proven to lie wholly inside the input buffer.
#[derive(Clone, Copy, Debug, PartialEq, Eq, Structural, PartialOrd, Ord, Hash)]
pub struct RoadEditingByteRange {
    start: u32,
    length: u32,
}

impl RoadEditingByteRange {
    pub closed spec fn spec_start(self) -> u32 {
        self.start
    }

    pub closed spec fn spec_length(self) -> u32 {
        self.length
    }

    /// Returns the zero-based start offset.
    pub fn start(self) -> (r: u32)
        ensures
            r == self.spec_start(),
    {
        self.start
    }

    /// Returns the number of bytes.
    pub fn length(self) -> (r: u32)
        ensures
            r == self.spec_length(),
    {
        self.length
    }

    /// The range `[start, start + length)` when its end fits in `u32` and it
    /// lies wholly inside a source of `source_len` bytes, else `None`.
    pub fn checked(start: u32, length: u32, source_len: usize) -> (r: Option<Self>)
        ensures
            (start + length <= u32::MAX && start + length <= source_len) ==> (r matches Some(b)
                && b.spec_start() == start && b.spec_length() == length),
            !(start + length <= u32::MAX && start + length <= source_len) ==> r is None,
    {
        let end = match start.checked_add(length) {
            Some(e) => e,
            None => return None,
        };
        if (end as u64) <= (source_len as u64) {
            Some(RoadEditingByteRange { start, length })
        } else {
            None
        }
    }
}

/// The logical bytes of a table of texts: per text a 32-bit length and its
/// UTF-8 bytes, summed with saturation.
pub open spec fn text_table_bytes(values: Seq<Seq<char>>) -> u64
    decreases values.len(),
{
    if values.len() == 0 {
        0
    } else {
        sat_add(sat_add(text_table_bytes(values.drop_last()), 4), string_bytes(values.last()).len() as int)
    }
}

/// `a * b`, held at `u64::MAX`.
pub open spec fn sat_mul(a: u64, b: u64) -> u64 {
    if a * b > u64::MAX {
        u64::MAX
    } else {
        (a * b) as u64
    }
}

/// The logical bytes of a table of property paths: per path a 32-bit step
/// count and eight bytes per step, summed with saturation.
pub open spec fn path_table_bytes(paths: Seq<RoadEditingPropertyPath>) -> u64
    decreases paths.len(),
{
    if paths.len() == 0 {
        0
    } else {
        sat_add(
            sat_add(path_table_bytes(paths.drop_last()), 4),
            sat_mul(paths.last().view_steps().len() as u64, 8) as int,
        )
    }
}

/// The shared, frozen location context of one module.
#[derive(Debug)]
pub struct RoadEditingLocationContext {
    strings: Vec<String>,
    property_paths: Vec<RoadEditingPropertyPath>,
    canvas_selection_keys: Vec<String>,
}

impl RoadEditingLocationContext {
    pub closed spec fn spec_strings(&self) -> Seq<Seq<char>> {
        self.strings@.map_values(|s: String| s@)
    }

    pub closed spec fn spec_paths(&self) -> Seq<RoadEditingPropertyPath> {
        self.property_paths@
    }

    pub closed spec fn spec_canvas(&self) -> Seq<Seq<char>> {
        self.canvas_selection_keys@.map_values(|s: String| s@)
    }

    /// A context over the given string, property path and canvas selection
    /// tables, which its builder has sorted and deduplicated.
    pub fn new(
        strings: Vec<String>,
        property_paths: Vec<RoadEditingPropertyPath>,
        canvas_selection_keys: Vec<String>,
    ) -> (r: Self)
        ensures
            r.spec_strings() == strings@.map_values(|s: String| s@),
            r.spec_paths() == property_paths@,
            r.spec_canvas() == canvas_selection_keys@.map_values(|s: String| s@),
    {
        RoadEditingLocationContext { strings, property_paths, canvas_selection_keys }
    }

    /// Resolves a string ordinal of this context.
    pub fn resolve_string(&self, ordinal: RoadEditingStringOrdinal) -> (r: &str)
        requires
            0 <= ordinal.index() < self.spec_strings().len(),
        ensures
            r@ == self.spec_strings()[ordinal.index()],
    {
        self.strings[ordinal.0 as usize].as_str()
    }

    /// Resolves a property path ordinal of this context.
    pub fn resolve_property_path(&self, ordinal: RoadEditingPropertyPathOrdinal) -> (r: &RoadEditingPropertyPath)
        requires
            0 <= ordinal.index() < self.spec_paths().len(),
        ensures
            *r == self.spec_paths()[ordinal.index()],
    {
        &self.property_paths[ordinal.0 as usize]
    }

    /// Resolves a canvas selection ordinal of this context.
    pub fn resolve_canvas_selection(&self, ordinal: RoadEditingCanvasSelectionOrdinal) -> (r: &str)
        requires
            0 <= ordinal.index() < self.spec_canvas().len(),
        ensures
            r@ == self.spec_canvas()[ordinal.index()],
    {
        self.canvas_selection_keys[ordinal.0 as usize].as_str()
    }

    /// The bytes of this context in the closed logical encoding of the source
    /// map: a 12-byte header, then the three tables.
    pub fn source_map_logical_bytes(&self) -> (r: u64)
        ensures
            r == sat_add(
                sat_add(
                    sat_add(12, text_table_bytes(self.spec_strings()) as int),
                    path_table_bytes(self.spec_paths()) as int,
                ),
                text_table_bytes(self.spec_canvas()) as int,
            ),
    {
        let strings = text_bytes(&self.strings);
        let mut paths: u64 = 0;
        let mut i: usize = 0;
        while i < self.property_paths.len()
            invariant
                i <= self.spec_paths().len(),
                paths == path_table_bytes(self.spec_paths().take(i as int)),
            decreases self.spec_paths().len() - i,
        {
            proof {
                assert(self.spec_paths().take(i + 1).drop_last() =~= self.spec_paths().take(i as int));
            }
            let steps = self.property_paths[i].steps().len() as u64;
            let step_bytes = match steps.checked_mul(8) {
                Some(b) => b,
                None => u64::MAX,
            };
            paths = paths.saturating_add(4).saturating_add(step_bytes);
            i = i + 1;
        }
        proof {
            assert(self.spec_paths().take(i as int) =~= self.spec_paths());
        }
        let canvas = text_bytes(&self.canvas_selection_keys);
        12u64.saturating_add(strings).saturating_add(paths).saturating_add(canvas)
    }

    /// The ordinal of the string with the bytes of `value`, which the location
    /// builder has interned: the first entry equal to it.
    pub fn string_ordinal_for(&self, value: &str) -> (r: RoadEditingStringOrdinal)
        requires
            exists|i: int| 0 <= i < self.spec_strings().len() && #[trigger] self.spec_strings()[i] == value@,
            self.spec_strings().len() <= u32::MAX + 1,
        ensures
            0 <= r.index() < self.spec_strings().len(),
            self.spec_strings()[r.index()] == value@,
            forall|j: int| 0 <= j < r.index() ==> #[trigger] self.spec_strings()[j] != value@,
    {
        let i = first_text(&self.strings, value);
        RoadEditingStringOrdinal(i as u32)
    }

    /// The ordinal of the canvas selection key `value`, which the location
    /// builder has interned: the first entry equal to it.
    pub fn canvas_selection_ordinal_for(&self, value: &str) -> (r: RoadEditingCanvasSelectionOrdinal)
        requires
            exists|i: int| 0 <= i < self.spec_canvas().len() && #[trigger] self.spec_canvas()[i] == value@,
            self.spec_canvas().len() <= u32::MAX + 1,
        ensures
            0 <= r.index() < self.spec_canvas().len(),
            self.spec_canvas()[r.index()] == value@,
            forall|j: int| 0 <= j < r.index() ==> #[trigger] self.spec_canvas()[j] != value@,
    {
        let i = first_text(&self.canvas_selection_keys, value);
        RoadEditingCanvasSelectionOrdinal(i as u32)
    }

    /// The ordinal of the property path `value`, which the location builder
    /// has frozen: the first entry with the same steps.
    pub fn property_path_ordinal_for(&self, value: &RoadEditingPropertyPath) -> (r: RoadEditingPropertyPathOrdinal)
        requires
            exists|i: int|
                0 <= i < self.spec_paths().len() && (#[trigger] self.spec_paths()[i]).view_steps() == value.view_steps(),
            self.spec_paths().len() <= u32::MAX + 1,
        ensures
            0 <= r.index() < self.spec_paths().len(),
            self.spec_paths()[r.index()].view_steps() == value.view_steps(),
            forall|j: int| 0 <= j < r.index() ==> (#[trigger] self.spec_paths()[j]).view_steps() != value.view_steps(),
    {
        let mut i: usize = 0;
        while i < self.property_paths.len()
            invariant
                i <= self.spec_paths().len(),
                self.spec_paths().len() <= u32::MAX + 1,
                exists|k: int|
                    0 <= k < self.spec_paths().len() && (#[trigger] self.spec_paths()[k]).view_steps()
                        == value.view_steps(),
                forall|j: int| 0 <= j < i ==> (#[trigger] self.spec_paths()[j]).view_steps() != value.view_steps(),
            decreases self.spec_paths().len() - i,
        {
            if same_path(&self.property_paths[i], value) {
                return RoadEditingPropertyPathOrdinal(i as u32);
            }
            i = i + 1;
        }
        proof {
            let k = choose|k: int|
                0 <= k < self.spec_paths().len() && (#[trigger] self.spec_paths()[k]).view_steps() == value.view_steps();
            assert(self.spec_paths()[k].view_steps() != value.view_steps());
        }
        RoadEditingPropertyPathOrdinal(0)
    }

    /// The ordinal of the string at `index`, which must resolve.
    pub fn string_ordinal(&self, index: usize) -> (r: RoadEditingStringOrdinal)
        requires
            index < self.spec_strings().len(),
            index <= u32::MAX,
        ensures
            r.index() == index,
    {
        RoadEditingStringOrdinal(index as u32)
    }

    /// The ordinal of the property path at `index`, which must resolve.
    pub fn property_path_ordinal(&self, index: usize) -> (r: RoadEditingPropertyPathOrdinal)
        requires
            index < self.spec_paths().len(),
            index <= u32::MAX,
        ensures
            r.index() == index,
    {
        RoadEditingPropertyPathOrdinal(index as u32)
    }

    /// The ordinal of the canvas selection key at `index`, which must resolve.
    pub fn canvas_selection_ordinal(&self, index: usize) -> (r: RoadEditingCanvasSelectionOrdinal)
        requires
            index < self.spec_canvas().len(),
            index <= u32::MAX,
        ensures
            r.index() == index,
    {
        RoadEditingCanvasSelectionOrdinal(index as u32)
    }
}

/// The logical bytes of a table of texts.
fn text_bytes(values: &Vec<String>) -> (r: u64)
    ensures
        r == text_table_bytes(values@.map_values(|s: String| s@)),
{
    let ghost all = values@.map_values(|s: String| s@);
    let mut total: u64 = 0;
    let mut i: usize = 0;
    while i < values.len()
        invariant
            i <= values@.len(),
            all == values@.map_values(|s: String| s@),
            total == text_table_bytes(all.take(i as int)),
        decreases values@.len() - i,
    {
        proof {
            assert(all.take(i + 1).drop_last() =~= all.take(i as int));
        }
        let len = values[i].as_str().as_bytes().len() as u64;
        total = total.saturating_add(4).saturating_add(len);
        i = i + 1;
    }
    proof {
        assert(all.take(i as int) =~= all);
    }
    total
}

/// The first position of a text with the bytes of `value`, which must occur.
fn first_text(values: &Vec<String>, value: &str) -> (r: usize)
    requires
        exists|i: int| 0 <= i < values@.len() && #[trigger] values@[i]@ == value@,
    ensures
        r < values@.len(),
        values@[r as int]@ == value@,
        forall|j: int| 0 <= j < r ==> #[trigger] values@[j]@ != value@,
{
    let mut i: usize = 0;
    while i < values.len()
        invariant
            i <= values@.len(),
            exists|k: int| 0 <= k < values@.len() && #[trigger] values@[k]@ == value@,
            forall|j: int| 0 <= j < i ==> #[trigger] values@[j]@ != value@,
        decreases values@.len() - i,
    {
        if str_equal(values[i].as_str(), value) {
            proof {
                crate::text::lemma_bytes_equal_chars(values@[i as int]@, value@);
            }
            return i;
        }
        i = i + 1;
    }
    proof {
        let k = choose|k: int| 0 <= k < values@.len() && #[trigger] values@[k]@ == value@;
        assert(values@[k]@ != value@);
    }
    0
}

/// A stable entity address in a road-editing source, resolved through a
/// location context: module namespace, kind, up to three owner keys (parent
/// first) and the local key.
#[derive(Clone, Copy, Debug)]
pub struct RoadEditingSourceAddress {
    module_namespace: RoadEditingStringOrdinal,
    kind: RoadEditingAddressKind,
    owner_local_keys: [RoadEditingStringOrdinal; 3],
    owner_local_key_count: u8,
    local_key: RoadEditingStringOrdinal,
}

impl RoadEditingSourceAddress {
    pub closed spec fn spec_namespace(&self) -> RoadEditingStringOrdinal {
        self.module_namespace
    }

    pub closed spec fn spec_kind(&self) -> RoadEditingAddressKind {
        self.kind
    }

    /// The owner key ordinals, parent first.
    pub closed spec fn spec_owner_keys(&self) -> Seq<RoadEditingStringOrdinal> {
        self.owner_local_keys@.take(self.owner_local_key_count as int)
    }

    pub closed spec fn spec_local_key(&self) -> RoadEditingStringOrdinal {
        self.local_key
    }

    #[verifier::type_invariant]
    closed spec fn inv(&self) -> bool {
        self.owner_local_key_count <= 3
    }

    /// Every ordinal of the address resolves in `context`.
    pub open spec fn resolves_in(&self, context: RoadEditingLocationContext) -> bool {
        &&& 0 <= self.spec_namespace().index() < context.spec_strings().len()
        &&& 0 <= self.spec_local_key().index() < context.spec_strings().len()
        &&& forall|k: int|
            0 <= k < self.spec_owner_keys().len() ==> 0 <= (#[trigger] self.spec_owner_keys()[k]).index()
                < context.spec_strings().len()
    }

    /// An address with at most three owner keys, parent first.
    pub fn new(
        module_namespace: RoadEditingStringOrdinal,
        kind: RoadEditingAddressKind,
        owner_local_keys: &[RoadEditingStringOrdinal],
        local_key: RoadEditingStringOrdinal,
    ) -> (r: Self)
        requires
            owner_local_keys@.len() <= 3,
        ensures
            r.spec_namespace() == module_namespace,
            r.spec_kind() == kind,
            r.spec_owner_keys() == owner_local_keys@,
            r.spec_local_key() == local_key,
    {
        let mut inline: [RoadEditingStringOrdinal; 3] = [module_namespace, module_namespace, module_namespace];
        let mut i: usize = 0;
        while i < owner_local_keys.len()
            invariant
                i <= owner_local_keys@.len() <= 3,
                inline@.len() == 3,
                forall|j: int| 0 <= j < i ==> inline@[j] == owner_local_keys@[j],
            decreases owner_local_keys@.len() - i,
        {
            inline.set(i, owner_local_keys[i]);
            i = i + 1;
        }
        let r = RoadEditingSourceAddress {
            module_namespace,
            kind,
            owner_local_keys: inline,
            owner_local_key_count: owner_local_keys.len() as u8,
            local_key,
        };
        proof {
            assert(r.spec_owner_keys() =~= owner_local_keys@);
        }
        r
    }

    /// Returns the address kind.
    pub fn kind(&self) -> (r: RoadEditingAddressKind)
        ensures
            r == self.spec_kind(),
    {
        self.kind
    }

    /// The entity kind of a declaration; a road alignment has none.
    pub fn entity_kind(&self) -> (r: Option<EntityKind>)
        ensures
            match self.spec_kind() {
                RoadEditingAddressKind::RoadAlignment => r is None,
                RoadEditingAddressKind::Declaration(k) => r == Some(k),
            },
    {
        match self.kind {
            RoadEditingAddressKind::RoadAlignment => None,
            RoadEditingAddressKind::Declaration(kind) => Some(kind),
        }
    }

    /// Resolves the module namespace.
    pub fn module_namespace<'c>(&self, context: &'c RoadEditingLocationContext) -> (r: &'c str)
        requires
            self.resolves_in(*context),
        ensures
            r@ == context.spec_strings()[self.spec_namespace().index()],
    {
        context.resolve_string(self.module_namespace)
    }

    /// Resolves the owner keys, parent first.
    pub fn owner_local_keys<'c>(&self, context: &'c RoadEditingLocationContext) -> (r: Vec<&'c str>)
        requires
            self.resolves_in(*context),
        ensures
            r@.len() == self.spec_owner_keys().len(),
            forall|k: int|
                0 <= k < r@.len() ==> (#[trigger] r@[k])@ == context.spec_strings()[self.spec_owner_keys()[k].index()],
    {
        proof {
            use_type_invariant(self);
        }
        let mut keys: Vec<&'c str> = Vec::new();
        let count = self.owner_local_key_count as usize;
        let mut i: usize = 0;
        while i < count
            invariant
                count == self.spec_owner_keys().len(),
                count == self.owner_local_key_count,
                self.owner_local_keys@.len() == 3,
                count <= 3,
                i <= count,
                self.resolves_in(*context),
                keys@.len() == i,
                forall|k: int|
                    0 <= k < i ==> (#[trigger] keys@[k])@ == context.spec_strings()[self.spec_owner_keys()[k].index()],
            decreases count - i,
        {
            assert(self.spec_owner_keys()[i as int] == self.owner_local_keys@[i as int]);
            keys.push(context.resolve_string(self.owner_local_keys[i]));
            i = i + 1;
        }
        keys
    }

    /// Resolves the local key under the direct owner.
    pub fn local_key<'c>(&self, context: &'c RoadEditingLocationContext) -> (r: &'c str)
        requires
            self.resolves_in(*context),
        ensures
            r@ == context.spec_strings()[self.spec_local_key().index()],
    {
        context.resolve_string(self.local_key)
    }
}

} // verus!
