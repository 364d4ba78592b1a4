//! The closed declaration registry: entity kinds with their owner depth,
//! facility kind categories, portable signal times and regulation identities.

use vstd::prelude::*;
use vstd::string::StringExecFns;
use vstd::string::StringSliceAdditionalSpecFns;

use crate::diagnostic::{DiagnosticBundle, RoadEditingInputViolation, SourceTextViolation};
use crate::rules::{input_error, validate_non_empty_text};

verus! {

/// Largest signal time (milliseconds) that every consumer can represent exactly.
pub const MAX_PORTABLE_SIGNAL_TIME_MS: u64 = 9_007_199_254_740_991;

/// Most points that the ring of one conflict zone region may hold.
pub const MAX_CONFLICT_ZONE_REGION_RING_POINTS: u32 = 1024;

/// The stable entity kinds of the identity registry.
#[derive(Clone, Copy, Debug, PartialEq, Eq, Structural, PartialOrd, Ord, Hash)]
pub enum EntityKind {
    RightOfWayPolicySet,
    RoadCorridor,
    RoadSection,
    AuthoringLane,
    LaneEdge,
    Junction,
    Movement,
    ManeuverPath,
    ManeuverGate,
    WaitingZone,
    StopLine,
    SignalGroup,
    SignalController,
    SignalPhase,
    ParkingFacility,
    ParkingSpace,
    LaneGroup,
    FacilityBand,
    ParticipantClass,
    AccessRule,
    VehicleProfile,
    CanonicalFrame,
    ConflictZone,
    ParticipantStream,
}

/// Number of owner keys from the module root down to the direct parent.
pub open spec fn spec_owner_depth(kind: EntityKind) -> u8 {
    match kind {
        EntityKind::RoadSection
        | EntityKind::Movement
        | EntityKind::ConflictZone
        | EntityKind::ParticipantStream
        | EntityKind::FacilityBand
        | EntityKind::SignalPhase => 1,
        EntityKind::AuthoringLane | EntityKind::ManeuverPath | EntityKind::LaneGroup => 2,
        EntityKind::ManeuverGate | EntityKind::WaitingZone => 3,
        _ => 0,
    }
}

/// Returns the exact owner-key depth of `kind`.
pub fn owner_depth(kind: EntityKind) -> (r: u8)
    ensures
        r == spec_owner_depth(kind),
{
    match kind {
        EntityKind::RoadSection
        | EntityKind::Movement
        | EntityKind::ConflictZone
        | EntityKind::ParticipantStream
        | EntityKind::FacilityBand
        | EntityKind::SignalPhase => 1,
        EntityKind::AuthoringLane | EntityKind::ManeuverPath | EntityKind::LaneGroup => 2,
        EntityKind::ManeuverGate | EntityKind::WaitingZone => 3,
        EntityKind::RoadCorridor
        | EntityKind::LaneEdge
        | EntityKind::Junction
        | EntityKind::StopLine
        | EntityKind::SignalGroup
        | EntityKind::SignalController
        | EntityKind::ParkingFacility
        | EntityKind::ParkingSpace
        | EntityKind::ParticipantClass
        | EntityKind::AccessRule
        | EntityKind::VehicleProfile
        | EntityKind::RightOfWayPolicySet
        | EntityKind::CanonicalFrame => 0,
    }
}

/// Number of identity fields a declaration of `kind` carries: its owner keys
/// and its local key.
pub open spec fn spec_identity_field_count(kind: EntityKind) -> u64 {
    (spec_owner_depth(kind) + 1) as u64
}

/// Returns the identity field count of `kind`.
pub fn identity_field_count(kind: EntityKind) -> (r: u64)
    ensures
        r == spec_identity_field_count(kind),
{
    owner_depth(kind) as u64 + 1
}


/// The two facility kind categories of cross-section members.
#[derive(Clone, Copy, Debug, PartialEq, Eq, Structural, PartialOrd, Ord, Hash)]
pub enum FacilityKindCategory {
    /// Road sections whose lanes carry traffic.
    LaneBearing,
    /// Facility bands that traffic does not traverse.
    NonTraversable,
}

/// `s` starts with `prefix` and has at least one byte after it.
pub open spec fn has_extension_prefix(s: Seq<u8>, prefix: Seq<u8>) -> bool {
    s.len() > prefix.len() && s.take(prefix.len() as int) == prefix
}

/// The registered category of a facility kind identifier, if any: the core
/// registry, then the `x-lane-` (lane-bearing) and `x-` (non-traversable)
/// extension namespaces.
pub open spec fn facility_kind_category_spec(s: Seq<u8>) -> Option<FacilityKindCategory> {
    if s == "motorLane".spec_bytes() || s == "busLane".spec_bytes() || s
        == "bicycleLane".spec_bytes() {
        Some(FacilityKindCategory::LaneBearing)
    } else if s == "sidewalk".spec_bytes() || s == "median".spec_bytes() || s
        == "shoulder".spec_bytes() {
        Some(FacilityKindCategory::NonTraversable)
    } else if has_extension_prefix(s, "x-lane-".spec_bytes()) {
        Some(FacilityKindCategory::LaneBearing)
    } else if has_extension_prefix(s, "x-".spec_bytes()) {
        Some(FacilityKindCategory::NonTraversable)
    } else {
        None
    }
}

/// Whether two byte strings are equal.
pub fn bytes_equal(a: &[u8], b: &[u8]) -> (r: bool)
    ensures
        r == (a@ == b@),
{
    if a.len() != b.len() {
        return false;
    }
    let mut i: usize = 0;
    while i < a.len()
        invariant
            a@.len() == b@.len(),
            i <= a@.len(),
            forall|j: int| 0 <= j < i ==> a@[j] == b@[j],
        decreases a@.len() - i,
    {
        if a[i] != b[i] {
            return false;
        }
        i = i + 1;
    }
    proof {
        assert(a@ =~= b@);
    }
    true
}

/// Whether `a` starts with `prefix` and is strictly longer.
fn has_extension_prefix_exec(a: &[u8], prefix: &[u8]) -> (r: bool)
    ensures
        r == has_extension_prefix(a@, prefix@),
{
    if a.len() <= prefix.len() {
        return false;
    }
    let head = vstd::slice::slice_subrange(a, 0, prefix.len());
    proof {
        assert(head@ =~= a@.take(prefix@.len() as int));
    }
    bytes_equal(head, prefix)
}

/// Looks up the category of a facility kind identifier.
pub fn facility_kind_category(value: &str) -> (r: Option<FacilityKindCategory>)
    ensures
        r == facility_kind_category_spec(value.spec_bytes()),
{
    let bytes = value.as_bytes();
    if bytes_equal(bytes, "motorLane".as_bytes()) || bytes_equal(bytes, "busLane".as_bytes())
        || bytes_equal(bytes, "bicycleLane".as_bytes()) {
        Some(FacilityKindCategory::LaneBearing)
    } else if bytes_equal(bytes, "sidewalk".as_bytes()) || bytes_equal(bytes, "median".as_bytes())
        || bytes_equal(bytes, "shoulder".as_bytes()) {
        Some(FacilityKindCategory::NonTraversable)
    } else if has_extension_prefix_exec(bytes, "x-lane-".as_bytes()) {
        Some(FacilityKindCategory::LaneBearing)
    } else if has_extension_prefix_exec(bytes, "x-".as_bytes()) {
        Some(FacilityKindCategory::NonTraversable)
    } else {
        None
    }
}

/// The legal jurisdiction, version and optional source of a regulation.
#[derive(Clone, Debug, PartialEq, Eq, PartialOrd, Ord, Hash)]
pub struct RegulationIdentity {
    jurisdiction: String,
    version: String,
    source: Option<String>,
}

impl RegulationIdentity {
    pub closed spec fn jurisdiction_view(&self) -> Seq<char> {
        self.jurisdiction@
    }

    pub closed spec fn version_view(&self) -> Seq<char> {
        self.version@
    }

    pub closed spec fn source_view(&self) -> Option<Seq<char>> {
        match &self.source {
            Some(s) => Some(s@),
            None => None,
        }
    }

    /// Every text of the identity is non-empty.
    pub open spec fn valid(&self) -> bool {
        &&& self.jurisdiction_view().len() > 0
        &&& self.version_view().len() > 0
        &&& self.source_view() matches Some(s) ==> s.len() > 0
    }

    /// A regulation identity with non-empty (possibly non-ASCII) jurisdiction and version.
    pub fn try_new(jurisdiction: &str, version: &str) -> (r: Result<Self, DiagnosticBundle>)
        ensures
            r is Ok <==> (jurisdiction@.len() > 0 && version@.len() > 0),
            r matches Ok(v) ==> {
                &&& v.jurisdiction_view() == jurisdiction@
                &&& v.version_view() == version@
                &&& v.source_view() is None
            },
            jurisdiction@.len() == 0 ==> (r matches Err(b) && b.is_input_error(
                "accessRegulation.jurisdiction"@,
                RoadEditingInputViolation::InvalidText(SourceTextViolation::Empty),
            )),
            jurisdiction@.len() > 0 && version@.len() == 0 ==> (r matches Err(b)
                && b.is_input_error(
                "accessRegulation.version"@,
                RoadEditingInputViolation::InvalidText(SourceTextViolation::Empty),
            )),
    {
        validate_non_empty_text(jurisdiction, "accessRegulation.jurisdiction")?;
        validate_non_empty_text(version, "accessRegulation.version")?;
        Ok(RegulationIdentity {
            jurisdiction: String::from_str(jurisdiction),
            version: String::from_str(version),
            source: None,
        })
    }

    /// Attaches a non-empty source text.
    pub fn with_source(self, source: &str) -> (r: Result<Self, DiagnosticBundle>)
        ensures
            r is Ok <==> source@.len() > 0,
            r matches Ok(v) ==> {
                &&& v.jurisdiction_view() == self.jurisdiction_view()
                &&& v.version_view() == self.version_view()
                &&& v.source_view() == Some(source@)
            },
            source@.len() == 0 ==> (r matches Err(b) && b.is_input_error(
                "accessRegulation.source"@,
                RoadEditingInputViolation::InvalidText(SourceTextViolation::Empty),
            )),
    {
        validate_non_empty_text(source, "accessRegulation.source")?;
        Ok(RegulationIdentity { source: Some(String::from_str(source)), ..self })
    }

    /// Re-checks that every text is non-empty.
    pub fn validate(&self) -> (r: Result<(), DiagnosticBundle>)
        ensures
            r is Ok <==> self.valid(),
    {
        validate_non_empty_text(self.jurisdiction.as_str(), "accessRegulation.jurisdiction")?;
        validate_non_empty_text(self.version.as_str(), "accessRegulation.version")?;
        match &self.source {
            Some(s) => validate_non_empty_text(s.as_str(), "accessRegulation.source"),
            None => Ok(()),
        }
    }

    /// The jurisdiction text.
    pub fn jurisdiction(&self) -> (r: &str)
        ensures
            r@ == self.jurisdiction_view(),
    {
        self.jurisdiction.as_str()
    }

    /// The version text.
    pub fn version(&self) -> (r: &str)
        ensures
            r@ == self.version_view(),
    {
        self.version.as_str()
    }

    /// The optional source text.
    pub fn source(&self) -> (r: Option<&str>)
        ensures
            r is Some <==> self.source_view() is Some,
            r matches Some(s) ==> s@ == self.source_view()->0,
    {
        match &self.source {
            Some(s) => Some(s.as_str()),
            None => None,
        }
    }
}

} // verus!
