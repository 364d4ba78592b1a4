//! The checked declaration inputs whose values are keys, references and
//! integers: junctions, movements, maneuver paths and gates, waiting zones,
//! stop lines, signal controllers and phases, road sections, lane groups,
//! participant classes, access rules and conflict zones.

use vstd::prelude::*;
use vstd::string::StringExecFns;
use vstd::string::StringSliceAdditionalSpecFns;

use crate::declaration::{facility_kind_category, facility_kind_category_spec, EntityKind, FacilityKindCategory, RegulationIdentity, MAX_PORTABLE_SIGNAL_TIME_MS};
use crate::diagnostic::{DiagnosticBundle, RoadEditingInputViolation};
use crate::model::{failed_with, fails_if, then_check, token_check, validated_canvas};
use crate::reference::RoadEditingReference;
use crate::rules::{input_error, require_non_empty, validate_token};

verus! {

/// A checked failure: the field and the violation reported there.
pub type InputCheck = Option<(Seq<char>, RoadEditingInputViolation)>;

/// The view of an optional owned string.
pub open spec fn opt_view(o: Option<String>) -> Option<Seq<char>> {
    match o {
        Some(s) => Some(s@),
        None => None,
    }
}

/// No two references of `values` name the same target.
pub open spec fn targets_unique(values: Seq<RoadEditingReference>) -> bool {
    forall|i: int, j: int| 0 <= i < j < values.len() ==> values[i].target() != values[j].target()
}

/// Every reference of `values` names an entity of kind `kind`.
pub open spec fn all_of_kind(values: Seq<RoadEditingReference>, kind: EntityKind) -> bool {
    forall|i: int| 0 <= i < values.len() ==> (#[trigger] values[i]).spec_kind() == kind
}

/// Some reference of `a` names the target of some reference of `b`.
pub open spec fn shares_target(a: Seq<RoadEditingReference>, b: Seq<RoadEditingReference>) -> bool {
    exists|i: int, j: int| 0 <= i < a.len() && 0 <= j < b.len() && a[i].target() == b[j].target()
}

/// Whether `value` names the target of some reference of `values`.
fn contains_target(values: &[RoadEditingReference], value: &RoadEditingReference) -> (r: bool)
    ensures
        r == exists|j: int| 0 <= j < values@.len() && values@[j].target() == value.target(),
{
    let mut j: usize = 0;
    while j < values.len()
        invariant
            j <= values@.len(),
            forall|k: int| 0 <= k < j ==> (#[trigger] values@[k]).target() != value.target(),
        decreases values@.len() - j,
    {
        if values[j].same_target(value) {
            return true;
        }
        j = j + 1;
    }
    false
}

/// Whether some reference of `a` names the target of some reference of `b`.
fn share_target(a: &[RoadEditingReference], b: &[RoadEditingReference]) -> (r: bool)
    ensures
        r == shares_target(a@, b@),
{
    let mut i: usize = 0;
    while i < a.len()
        invariant
            i <= a@.len(),
            forall|k: int, j: int| 0 <= k < i && 0 <= j < b@.len() ==> a@[k].target() != b@[j].target(),
        decreases a@.len() - i,
    {
        if contains_target(b, &a[i]) {
            return true;
        }
        i = i + 1;
    }
    false
}

/// Whether no two references of `values` name the same target.
pub fn references_unique(values: &[RoadEditingReference]) -> (r: bool)
    ensures
        r == targets_unique(values@),
{
    let mut i: usize = 0;
    while i < values.len()
        invariant
            i <= values@.len(),
            forall|k: int, j: int| 0 <= k < j < values@.len() && k < i ==> values@[k].target() != values@[j].target(),
        decreases values@.len() - i,
    {
        let mut j: usize = i + 1;
        while j < values.len()
            invariant
                i < values@.len(),
                i + 1 <= j <= values@.len(),
                forall|k: int, l: int| 0 <= k < l < values@.len() && k < i ==> values@[k].target() != values@[l].target(),
                forall|l: int| i < l < j ==> values@[i as int].target() != (#[trigger] values@[l]).target(),
            decreases values@.len() - j,
        {
            if values[i].same_target(&values[j]) {
                return false;
            }
            j = j + 1;
        }
        i = i + 1;
    }
    true
}

/// Requires the references of `values` to name distinct targets.
pub fn require_unique_references(values: &[RoadEditingReference], field: &str) -> (r: Result<(), DiagnosticBundle>)
    ensures
        targets_unique(values@) ==> r is Ok,
        !targets_unique(values@) ==> (r matches Err(b) && b.is_input_error(field@, RoadEditingInputViolation::DuplicateValue)),
{
    if !references_unique(values) {
        return Err(input_error(field, RoadEditingInputViolation::DuplicateValue));
    }
    Ok(())
}

/// The empty-collection check of a sequence of length `n`.
pub open spec fn non_empty_check(n: nat, field: Seq<char>) -> InputCheck {
    fails_if(n == 0, field, RoadEditingInputViolation::EmptyCollection)
}

/// The distinct-target check of `values`.
pub open spec fn unique_check(values: Seq<RoadEditingReference>, field: Seq<char>) -> InputCheck {
    fails_if(!targets_unique(values), field, RoadEditingInputViolation::DuplicateValue)
}

/// The checks of a junction, in order: its key, a non-empty list of
/// distinct approach edges, distinct internal edges, and no edge that both
/// approaches and crosses it.
pub open spec fn junction_input_check(key: Seq<u8>, approach: Seq<RoadEditingReference>, internal: Seq<RoadEditingReference>) -> InputCheck {
    then_check(
        token_check(key, "junction.junctionKey"@),
        then_check(
            non_empty_check(approach.len(), "junction.approachEdges"@),
            then_check(
                unique_check(approach, "junction.approachEdges"@),
                then_check(
                    unique_check(internal, "junction.internalEdges"@),
                    fails_if(shares_target(approach, internal), "junction.edgeRoles"@, RoadEditingInputViolation::InvalidCombination),
                ),
            ),
        ),
    )
}

/// A junction declaration.
#[derive(Clone, Debug, PartialEq, Eq)]
pub struct JunctionInput {
    junction_key: String,
    approach_edges: Vec<RoadEditingReference>,
    internal_edges: Vec<RoadEditingReference>,
    canvas_selection: Option<String>,
}

impl JunctionInput {
    pub closed spec fn junction_key_view(&self) -> Seq<char> {
        self.junction_key@
    }

    pub closed spec fn approach_edges_view(&self) -> Seq<RoadEditingReference> {
        self.approach_edges@
    }

    pub closed spec fn internal_edges_view(&self) -> Seq<RoadEditingReference> {
        self.internal_edges@
    }

    pub closed spec fn canvas_view(&self) -> Option<Seq<char>> {
        opt_view(self.canvas_selection)
    }

    /// A junction declaration; a direct path needs no internal edge.
    pub fn try_new(
        junction_key: &str,
        approach_edges: Vec<RoadEditingReference>,
        internal_edges: Vec<RoadEditingReference>,
    ) -> (r: Result<Self, DiagnosticBundle>)
        requires
            all_of_kind(approach_edges@, EntityKind::LaneEdge),
            all_of_kind(internal_edges@, EntityKind::LaneEdge),
        ensures
            match junction_input_check(junction_key.spec_bytes(), approach_edges@, internal_edges@) {
                None => r matches Ok(v)
                    && v.junction_key_view() == junction_key@
                    && v.approach_edges_view() == approach_edges@
                    && v.internal_edges_view() == internal_edges@
                    && v.canvas_view() is None,
                Some(c) => failed_with(r, c),
            },
    {
        validate_token(junction_key, "junction.junctionKey")?;
        require_non_empty(approach_edges.as_slice(), "junction.approachEdges")?;
        require_unique_references(approach_edges.as_slice(), "junction.approachEdges")?;
        require_unique_references(internal_edges.as_slice(), "junction.internalEdges")?;
        if share_target(approach_edges.as_slice(), internal_edges.as_slice()) {
            return Err(input_error("junction.edgeRoles", RoadEditingInputViolation::InvalidCombination));
        }
        Ok(JunctionInput { junction_key: String::from_str(junction_key), approach_edges, internal_edges, canvas_selection: None })
    }

    /// The junction key.
    pub fn junction_key(&self) -> (r: &str)
        ensures
            r@ == self.junction_key_view(),
    {
        self.junction_key.as_str()
    }

    /// The approach edges.
    pub fn approach_edges(&self) -> (r: &[RoadEditingReference])
        ensures
            r@ == self.approach_edges_view(),
    {
        self.approach_edges.as_slice()
    }

    /// The internal edges.
    pub fn internal_edges(&self) -> (r: &[RoadEditingReference])
        ensures
            r@ == self.internal_edges_view(),
    {
        self.internal_edges.as_slice()
    }

    /// Sets the canvas selection key.
    pub fn with_canvas_selection(self, canvas_selection: &str) -> (r: Result<Self, DiagnosticBundle>)
        ensures
            match token_check(canvas_selection.spec_bytes(), "canvasSelection"@) {
                None => r matches Ok(v)
                    && v.junction_key_view() == self.junction_key_view()
                    && v.approach_edges_view() == self.approach_edges_view()
                    && v.internal_edges_view() == self.internal_edges_view()
                    && v.canvas_view() == Some(canvas_selection@),
                Some(c) => failed_with(r, c),
            },
    {
        let canvas = validated_canvas(canvas_selection)?;
        Ok(JunctionInput { canvas_selection: Some(canvas), ..self })
    }

    /// The optional canvas selection key.
    pub fn canvas_selection(&self) -> (r: Option<&str>)
        ensures
            r is Some <==> self.canvas_view() is Some,
            r matches Some(c) ==> c@ == self.canvas_view()->0,
    {
        match &self.canvas_selection {
            Some(c) => Some(c.as_str()),
            None => None,
        }
    }
}

/// The checks of a movement, in order: its key, then its entry and exit
/// approach keys.
pub open spec fn movement_input_check(key: Seq<u8>, entry: Seq<u8>, exit: Seq<u8>) -> InputCheck {
    then_check(
        token_check(key, "movement.movementKey"@),
        then_check(
            token_check(entry, "movement.directedEntryApproachKey"@),
            token_check(exit, "movement.directedExitApproachKey"@),
        ),
    )
}

/// A movement through a junction.
#[derive(Clone, Debug, PartialEq, Eq)]
pub struct MovementInput {
    movement_key: String,
    junction: RoadEditingReference,
    directed_entry_approach_key: String,
    directed_exit_approach_key: String,
    canvas_selection: Option<String>,
}

impl MovementInput {
    pub closed spec fn movement_key_view(&self) -> Seq<char> {
        self.movement_key@
    }

    pub closed spec fn junction_view(&self) -> RoadEditingReference {
        self.junction
    }

    pub closed spec fn directed_entry_approach_key_view(&self) -> Seq<char> {
        self.directed_entry_approach_key@
    }

    pub closed spec fn directed_exit_approach_key_view(&self) -> Seq<char> {
        self.directed_exit_approach_key@
    }

    pub closed spec fn canvas_view(&self) -> Option<Seq<char>> {
        opt_view(self.canvas_selection)
    }

    /// A movement declaration with valid keys.
    pub fn try_new(
        movement_key: &str,
        junction: RoadEditingReference,
        directed_entry_approach_key: &str,
        directed_exit_approach_key: &str,
    ) -> (r: Result<Self, DiagnosticBundle>)
        requires
            junction.spec_kind() == EntityKind::Junction,
        ensures
            match movement_input_check(movement_key.spec_bytes(), directed_entry_approach_key.spec_bytes(), directed_exit_approach_key.spec_bytes()) {
                None => r matches Ok(v)
                    && v.movement_key_view() == movement_key@
                    && v.junction_view() == junction
                    && v.directed_entry_approach_key_view() == directed_entry_approach_key@
                    && v.directed_exit_approach_key_view() == directed_exit_approach_key@
                    && v.canvas_view() is None,
                Some(c) => failed_with(r, c),
            },
    {
        validate_token(movement_key, "movement.movementKey")?;
        validate_token(directed_entry_approach_key, "movement.directedEntryApproachKey")?;
        validate_token(directed_exit_approach_key, "movement.directedExitApproachKey")?;
        Ok(MovementInput {
            movement_key: String::from_str(movement_key),
            junction,
            directed_entry_approach_key: String::from_str(directed_entry_approach_key),
            directed_exit_approach_key: String::from_str(directed_exit_approach_key),
            canvas_selection: None,
        })
    }

    /// The movement key.
    pub fn movement_key(&self) -> (r: &str)
        ensures
            r@ == self.movement_key_view(),
    {
        self.movement_key.as_str()
    }

    /// The junction the movement belongs to.
    pub fn junction(&self) -> (r: &RoadEditingReference)
        ensures
            *r == self.junction_view(),
    {
        &self.junction
    }

    /// The directed entry approach key.
    pub fn directed_entry_approach_key(&self) -> (r: &str)
        ensures
            r@ == self.directed_entry_approach_key_view(),
    {
        self.directed_entry_approach_key.as_str()
    }

    /// The directed exit approach key.
    pub fn directed_exit_approach_key(&self) -> (r: &str)
        ensures
            r@ == self.directed_exit_approach_key_view(),
    {
        self.directed_exit_approach_key.as_str()
    }

    /// Sets the canvas selection key.
    pub fn with_canvas_selection(self, canvas_selection: &str) -> (r: Result<Self, DiagnosticBundle>)
        ensures
            match token_check(canvas_selection.spec_bytes(), "canvasSelection"@) {
                None => r matches Ok(v)
                    && v.movement_key_view() == self.movement_key_view()
                    && v.junction_view() == self.junction_view()
                    && v.directed_entry_approach_key_view() == self.directed_entry_approach_key_view()
                    && v.directed_exit_approach_key_view() == self.directed_exit_approach_key_view()
                    && v.canvas_view() == Some(canvas_selection@),
                Some(c) => failed_with(r, c),
            },
    {
        let canvas = validated_canvas(canvas_selection)?;
        Ok(MovementInput { canvas_selection: Some(canvas), ..self })
    }

    /// The optional canvas selection key.
    pub fn canvas_selection(&self) -> (r: Option<&str>)
        ensures
            r is Some <==> self.canvas_view() is Some,
            r matches Some(c) ==> c@ == self.canvas_view()->0,
    {
        match &self.canvas_selection {
            Some(c) => Some(c.as_str()),
            None => None,
        }
    }
}

/// The checks of a maneuver path, in order: its key, then distinct internal
/// edges.
pub open spec fn maneuver_path_input_check(key: Seq<u8>, internal: Seq<RoadEditingReference>) -> InputCheck {
    then_check(
        token_check(key, "maneuverPath.maneuverPathKey"@),
        unique_check(internal, "maneuverPath.internalEdges"@),
    )
}

/// A maneuver path through a junction.
#[derive(Clone, Debug, PartialEq, Eq)]
pub struct ManeuverPathInput {
    maneuver_path_key: String,
    movement: RoadEditingReference,
    entry_edge: RoadEditingReference,
    internal_edges: Vec<RoadEditingReference>,
    exit_edge: RoadEditingReference,
    canvas_selection: Option<String>,
}

impl ManeuverPathInput {
    pub closed spec fn maneuver_path_key_view(&self) -> Seq<char> {
        self.maneuver_path_key@
    }

    pub closed spec fn movement_view(&self) -> RoadEditingReference {
        self.movement
    }

    pub closed spec fn entry_edge_view(&self) -> RoadEditingReference {
        self.entry_edge
    }

    pub closed spec fn internal_edges_view(&self) -> Seq<RoadEditingReference> {
        self.internal_edges@
    }

    pub closed spec fn exit_edge_view(&self) -> RoadEditingReference {
        self.exit_edge
    }

    pub closed spec fn canvas_view(&self) -> Option<Seq<char>> {
        opt_view(self.canvas_selection)
    }

    /// A maneuver path declaration with a valid key and distinct internal edges.
    pub fn try_new(
        maneuver_path_key: &str,
        movement: RoadEditingReference,
        entry_edge: RoadEditingReference,
        internal_edges: Vec<RoadEditingReference>,
        exit_edge: RoadEditingReference,
    ) -> (r: Result<Self, DiagnosticBundle>)
        requires
            movement.spec_kind() == EntityKind::Movement,
            entry_edge.spec_kind() == EntityKind::LaneEdge,
            all_of_kind(internal_edges@, EntityKind::LaneEdge),
            exit_edge.spec_kind() == EntityKind::LaneEdge,
        ensures
            match maneuver_path_input_check(maneuver_path_key.spec_bytes(), internal_edges@) {
                None => r matches Ok(v)
                    && v.maneuver_path_key_view() == maneuver_path_key@
                    && v.movement_view() == movement
                    && v.entry_edge_view() == entry_edge
                    && v.internal_edges_view() == internal_edges@
                    && v.exit_edge_view() == exit_edge
                    && v.canvas_view() is None,
                Some(c) => failed_with(r, c),
            },
    {
        validate_token(maneuver_path_key, "maneuverPath.maneuverPathKey")?;
        require_unique_references(internal_edges.as_slice(), "maneuverPath.internalEdges")?;
        Ok(ManeuverPathInput {
            maneuver_path_key: String::from_str(maneuver_path_key),
            movement,
            entry_edge,
            internal_edges,
            exit_edge,
            canvas_selection: None,
        })
    }

    /// The maneuver path key.
    pub fn maneuver_path_key(&self) -> (r: &str)
        ensures
            r@ == self.maneuver_path_key_view(),
    {
        self.maneuver_path_key.as_str()
    }

    /// The movement the path belongs to.
    pub fn movement(&self) -> (r: &RoadEditingReference)
        ensures
            *r == self.movement_view(),
    {
        &self.movement
    }

    /// The entry edge.
    pub fn entry_edge(&self) -> (r: &RoadEditingReference)
        ensures
            *r == self.entry_edge_view(),
    {
        &self.entry_edge
    }

    /// The internal edges.
    pub fn internal_edges(&self) -> (r: &[RoadEditingReference])
        ensures
            r@ == self.internal_edges_view(),
    {
        self.internal_edges.as_slice()
    }

    /// The exit edge.
    pub fn exit_edge(&self) -> (r: &RoadEditingReference)
        ensures
            *r == self.exit_edge_view(),
    {
        &self.exit_edge
    }

    /// Sets the canvas selection key.
    pub fn with_canvas_selection(self, canvas_selection: &str) -> (r: Result<Self, DiagnosticBundle>)
        ensures
            match token_check(canvas_selection.spec_bytes(), "canvasSelection"@) {
                None => r matches Ok(v)
                    && v.maneuver_path_key_view() == self.maneuver_path_key_view()
                    && v.movement_view() == self.movement_view()
                    && v.entry_edge_view() == self.entry_edge_view()
                    && v.internal_edges_view() == self.internal_edges_view()
                    && v.exit_edge_view() == self.exit_edge_view()
                    && v.canvas_view() == Some(canvas_selection@),
                Some(c) => failed_with(r, c),
            },
    {
        let canvas = validated_canvas(canvas_selection)?;
        Ok(ManeuverPathInput { canvas_selection: Some(canvas), ..self })
    }

    /// The optional canvas selection key.
    pub fn canvas_selection(&self) -> (r: Option<&str>)
        ensures
            r is Some <==> self.canvas_view() is Some,
            r matches Some(c) ==> c@ == self.canvas_view()->0,
    {
        match &self.canvas_selection {
            Some(c) => Some(c.as_str()),
            None => None,
        }
    }
}

/// The fixed-time signal binding of a maneuver gate: none, or a signal
/// group.
#[derive(Clone, Debug, PartialEq, Eq)]
pub enum RoadEditingSignalControl {
    Uncontrolled,
    SignalGroup(RoadEditingReference),
}

/// The signal control binds a signal group, if any.
pub open spec fn signal_control_kind_ok(c: RoadEditingSignalControl) -> bool {
    c matches RoadEditingSignalControl::SignalGroup(g) ==> g.spec_kind() == EntityKind::SignalGroup
}

/// The check of a maneuver gate: its key.
pub open spec fn maneuver_gate_input_check(key: Seq<u8>) -> InputCheck {
    token_check(key, "maneuverGate.maneuverGateKey"@)
}

/// A control gate on a transition of a maneuver path.
#[derive(Clone, Debug, PartialEq, Eq)]
pub struct ManeuverGateInput {
    maneuver_gate_key: String,
    maneuver_path: RoadEditingReference,
    transition_index: u32,
    stop_line: RoadEditingReference,
    signal_control: RoadEditingSignalControl,
    canvas_selection: Option<String>,
}

impl ManeuverGateInput {
    pub closed spec fn maneuver_gate_key_view(&self) -> Seq<char> {
        self.maneuver_gate_key@
    }

    pub closed spec fn maneuver_path_view(&self) -> RoadEditingReference {
        self.maneuver_path
    }

    pub closed spec fn transition_index_view(&self) -> u32 {
        self.transition_index
    }

    pub closed spec fn stop_line_view(&self) -> RoadEditingReference {
        self.stop_line
    }

    pub closed spec fn signal_control_view(&self) -> RoadEditingSignalControl {
        self.signal_control
    }

    pub closed spec fn canvas_view(&self) -> Option<Seq<char>> {
        opt_view(self.canvas_selection)
    }

    /// A maneuver gate declaration with a valid key.
    pub fn try_new(
        maneuver_gate_key: &str,
        maneuver_path: RoadEditingReference,
        transition_index: u32,
        stop_line: RoadEditingReference,
        signal_control: RoadEditingSignalControl,
    ) -> (r: Result<Self, DiagnosticBundle>)
        requires
            maneuver_path.spec_kind() == EntityKind::ManeuverPath,
            stop_line.spec_kind() == EntityKind::StopLine,
            signal_control_kind_ok(signal_control),
        ensures
            match maneuver_gate_input_check(maneuver_gate_key.spec_bytes()) {
                None => r matches Ok(v)
                    && v.maneuver_gate_key_view() == maneuver_gate_key@
                    && v.maneuver_path_view() == maneuver_path
                    && v.transition_index_view() == transition_index
                    && v.stop_line_view() == stop_line
                    && v.signal_control_view() == signal_control
                    && v.canvas_view() is None,
                Some(c) => failed_with(r, c),
            },
    {
        validate_token(maneuver_gate_key, "maneuverGate.maneuverGateKey")?;
        Ok(ManeuverGateInput {
            maneuver_gate_key: String::from_str(maneuver_gate_key),
            maneuver_path,
            transition_index,
            stop_line,
            signal_control,
            canvas_selection: None,
        })
    }

    /// The maneuver gate key.
    pub fn maneuver_gate_key(&self) -> (r: &str)
        ensures
            r@ == self.maneuver_gate_key_view(),
    {
        self.maneuver_gate_key.as_str()
    }

    /// The maneuver path it controls.
    pub fn maneuver_path(&self) -> (r: &RoadEditingReference)
        ensures
            *r == self.maneuver_path_view(),
    {
        &self.maneuver_path
    }

    /// The index of the path transition where it stands.
    pub fn transition_index(&self) -> (r: u32)
        ensures
            r == self.transition_index_view(),
    {
        self.transition_index
    }

    /// Its stop line.
    pub fn stop_line(&self) -> (r: &RoadEditingReference)
        ensures
            *r == self.stop_line_view(),
    {
        &self.stop_line
    }

    /// The fixed-time signal binding.
    pub fn signal_control(&self) -> (r: &RoadEditingSignalControl)
        ensures
            *r == self.signal_control_view(),
    {
        &self.signal_control
    }

    /// Sets the canvas selection key.
    pub fn with_canvas_selection(self, canvas_selection: &str) -> (r: Result<Self, DiagnosticBundle>)
        ensures
            match token_check(canvas_selection.spec_bytes(), "canvasSelection"@) {
                None => r matches Ok(v)
                    && v.maneuver_gate_key_view() == self.maneuver_gate_key_view()
                    && v.maneuver_path_view() == self.maneuver_path_view()
                    && v.transition_index_view() == self.transition_index_view()
                    && v.stop_line_view() == self.stop_line_view()
                    && v.signal_control_view() == self.signal_control_view()
                    && v.canvas_view() == Some(canvas_selection@),
                Some(c) => failed_with(r, c),
            },
    {
        let canvas = validated_canvas(canvas_selection)?;
        Ok(ManeuverGateInput { canvas_selection: Some(canvas), ..self })
    }

    /// The optional canvas selection key.
    pub fn canvas_selection(&self) -> (r: Option<&str>)
        ensures
            r is Some <==> self.canvas_view() is Some,
            r matches Some(c) ==> c@ == self.canvas_view()->0,
    {
        match &self.canvas_selection {
            Some(c) => Some(c.as_str()),
            None => None,
        }
    }
}

/// The checks of a waiting zone, in order: its key, then a non-zero
/// capacity.
pub open spec fn waiting_zone_input_check(key: Seq<u8>, max_occupancy: u32) -> InputCheck {
    then_check(
        token_check(key, "waitingZone.waitingZoneKey"@),
        fails_if(max_occupancy == 0, "waitingZone.maxOccupancy"@, RoadEditingInputViolation::InvalidCombination),
    )
}

/// A waiting zone on a maneuver path.
#[derive(Clone, Debug, PartialEq, Eq)]
pub struct WaitingZoneInput {
    waiting_zone_key: String,
    maneuver_path: RoadEditingReference,
    entry_gate: RoadEditingReference,
    release_gate: RoadEditingReference,
    max_occupancy: u32,
    canvas_selection: Option<String>,
}

impl WaitingZoneInput {
    pub closed spec fn waiting_zone_key_view(&self) -> Seq<char> {
        self.waiting_zone_key@
    }

    pub closed spec fn maneuver_path_view(&self) -> RoadEditingReference {
        self.maneuver_path
    }

    pub closed spec fn entry_gate_view(&self) -> RoadEditingReference {
        self.entry_gate
    }

    pub closed spec fn release_gate_view(&self) -> RoadEditingReference {
        self.release_gate
    }

    pub closed spec fn max_occupancy_view(&self) -> u32 {
        self.max_occupancy
    }

    pub closed spec fn canvas_view(&self) -> Option<Seq<char>> {
        opt_view(self.canvas_selection)
    }

    /// A waiting zone declaration; its capacity must be above zero.
    pub fn try_new(
        waiting_zone_key: &str,
        maneuver_path: RoadEditingReference,
        entry_gate: RoadEditingReference,
        release_gate: RoadEditingReference,
        max_occupancy: u32,
    ) -> (r: Result<Self, DiagnosticBundle>)
        requires
            maneuver_path.spec_kind() == EntityKind::ManeuverPath,
            entry_gate.spec_kind() == EntityKind::ManeuverGate,
            release_gate.spec_kind() == EntityKind::ManeuverGate,
        ensures
            match waiting_zone_input_check(waiting_zone_key.spec_bytes(), max_occupancy) {
                None => r matches Ok(v)
                    && v.waiting_zone_key_view() == waiting_zone_key@
                    && v.maneuver_path_view() == maneuver_path
                    && v.entry_gate_view() == entry_gate
                    && v.release_gate_view() == release_gate
                    && v.max_occupancy_view() == max_occupancy
                    && v.canvas_view() is None,
                Some(c) => failed_with(r, c),
            },
    {
        validate_token(waiting_zone_key, "waitingZone.waitingZoneKey")?;
        if max_occupancy == 0 {
            return Err(input_error("waitingZone.maxOccupancy", RoadEditingInputViolation::InvalidCombination));
        }
        Ok(WaitingZoneInput {
            waiting_zone_key: String::from_str(waiting_zone_key),
            maneuver_path,
            entry_gate,
            release_gate,
            max_occupancy,
            canvas_selection: None,
        })
    }

    /// The waiting zone key.
    pub fn waiting_zone_key(&self) -> (r: &str)
        ensures
            r@ == self.waiting_zone_key_view(),
    {
        self.waiting_zone_key.as_str()
    }

    /// The maneuver path the zone is on.
    pub fn maneuver_path(&self) -> (r: &RoadEditingReference)
        ensures
            *r == self.maneuver_path_view(),
    {
        &self.maneuver_path
    }

    /// The maneuver gate that admits into the zone.
    pub fn entry_gate(&self) -> (r: &RoadEditingReference)
        ensures
            *r == self.entry_gate_view(),
    {
        &self.entry_gate
    }

    /// The maneuver gate that releases from the zone.
    pub fn release_gate(&self) -> (r: &RoadEditingReference)
        ensures
            *r == self.release_gate_view(),
    {
        &self.release_gate
    }

    /// The most participants the zone holds at once.
    pub fn max_occupancy(&self) -> (r: u32)
        ensures
            r == self.max_occupancy_view(),
    {
        self.max_occupancy
    }

    /// Sets the canvas selection key.
    pub fn with_canvas_selection(self, canvas_selection: &str) -> (r: Result<Self, DiagnosticBundle>)
        ensures
            match token_check(canvas_selection.spec_bytes(), "canvasSelection"@) {
                None => r matches Ok(v)
                    && v.waiting_zone_key_view() == self.waiting_zone_key_view()
                    && v.maneuver_path_view() == self.maneuver_path_view()
                    && v.entry_gate_view() == self.entry_gate_view()
                    && v.release_gate_view() == self.release_gate_view()
                    && v.max_occupancy_view() == self.max_occupancy_view()
                    && v.canvas_view() == Some(canvas_selection@),
                Some(c) => failed_with(r, c),
            },
    {
        let canvas = validated_canvas(canvas_selection)?;
        Ok(WaitingZoneInput { canvas_selection: Some(canvas), ..self })
    }

    /// The optional canvas selection key.
    pub fn canvas_selection(&self) -> (r: Option<&str>)
        ensures
            r is Some <==> self.canvas_view() is Some,
            r matches Some(c) ==> c@ == self.canvas_view()->0,
    {
        match &self.canvas_selection {
            Some(c) => Some(c.as_str()),
            None => None,
        }
    }
}

/// The check of stop line at the end of a lane edge: its key.
pub open spec fn stop_line_input_check(key: Seq<u8>) -> InputCheck {
    token_check(key, "stopLine.stopLineKey"@)
}

/// A stop line at the end of a lane edge.
#[derive(Clone, Debug, PartialEq, Eq)]
pub struct StopLineInput {
    stop_line_key: String,
    lane_edge: RoadEditingReference,
    canvas_selection: Option<String>,
}

impl StopLineInput {
    pub closed spec fn stop_line_key_view(&self) -> Seq<char> {
        self.stop_line_key@
    }

    pub closed spec fn lane_edge_view(&self) -> RoadEditingReference {
        self.lane_edge
    }

    pub closed spec fn canvas_view(&self) -> Option<Seq<char>> {
        opt_view(self.canvas_selection)
    }

    /// A stop line at the end of a lane edge with a valid key.
    pub fn try_new(
        stop_line_key: &str,
        lane_edge: RoadEditingReference,
    ) -> (r: Result<Self, DiagnosticBundle>)
        requires
            lane_edge.spec_kind() == EntityKind::LaneEdge,
        ensures
            match stop_line_input_check(stop_line_key.spec_bytes()) {
                None => r matches Ok(v)
                    && v.stop_line_key_view() == stop_line_key@
                    && v.lane_edge_view() == lane_edge
                    && v.canvas_view() is None,
                Some(c) => failed_with(r, c),
            },
    {
        validate_token(stop_line_key, "stopLine.stopLineKey")?;
        Ok(StopLineInput { stop_line_key: String::from_str(stop_line_key), lane_edge, canvas_selection: None })
    }

    /// The stop line key.
    pub fn stop_line_key(&self) -> (r: &str)
        ensures
            r@ == self.stop_line_key_view(),
    {
        self.stop_line_key.as_str()
    }

    /// The lane edge the stop line ends.
    pub fn lane_edge(&self) -> (r: &RoadEditingReference)
        ensures
            *r == self.lane_edge_view(),
    {
        &self.lane_edge
    }

    /// Sets the canvas selection key.
    pub fn with_canvas_selection(self, canvas_selection: &str) -> (r: Result<Self, DiagnosticBundle>)
        ensures
            match token_check(canvas_selection.spec_bytes(), "canvasSelection"@) {
                None => r matches Ok(v)
                    && v.stop_line_key_view() == self.stop_line_key_view()
                    && v.lane_edge_view() == self.lane_edge_view()
                    && v.canvas_view() == Some(canvas_selection@),
                Some(c) => failed_with(r, c),
            },
    {
        let canvas = validated_canvas(canvas_selection)?;
        Ok(StopLineInput { canvas_selection: Some(canvas), ..self })
    }

    /// The optional canvas selection key.
    pub fn canvas_selection(&self) -> (r: Option<&str>)
        ensures
            r is Some <==> self.canvas_view() is Some,
            r matches Some(c) ==> c@ == self.canvas_view()->0,
    {
        match &self.canvas_selection {
            Some(c) => Some(c.as_str()),
            None => None,
        }
    }
}

/// The aspect a signal group shows; aspects of the static contract other
/// than red, yellow and green are carried by their code.
#[derive(Clone, Copy, Debug, PartialEq, Eq, Structural)]
pub enum SignalAspect {
    Red,
    Yellow,
    Green,
    Other(u8),
}

/// The check of a phase state: red, yellow or green only.
pub open spec fn phase_state_check(aspect: SignalAspect) -> InputCheck {
    fails_if(aspect is Other, "signalPhaseState.aspect"@, RoadEditingInputViolation::InvalidCombination)
}

/// The state of one signal group in a fixed-time phase.
#[derive(Clone, Debug, PartialEq, Eq)]
pub struct RoadEditingSignalPhaseState {
    signal_group: RoadEditingReference,
    aspect: SignalAspect,
}

impl RoadEditingSignalPhaseState {
    pub closed spec fn signal_group_view(&self) -> RoadEditingReference {
        self.signal_group
    }

    pub closed spec fn aspect_view(&self) -> SignalAspect {
        self.aspect
    }

    /// A phase state; only red, yellow and green are allowed.
    pub fn try_new(
        signal_group: RoadEditingReference,
        aspect: SignalAspect,
    ) -> (r: Result<Self, DiagnosticBundle>)
        requires
            signal_group.spec_kind() == EntityKind::SignalGroup,
        ensures
            match phase_state_check(aspect) {
                None => r matches Ok(v)
                    && v.signal_group_view() == signal_group
                    && v.aspect_view() == aspect,
                Some(c) => failed_with(r, c),
            },
    {
        if let SignalAspect::Other(_) = aspect {
            return Err(input_error("signalPhaseState.aspect", RoadEditingInputViolation::InvalidCombination));
        }
        Ok(RoadEditingSignalPhaseState { signal_group, aspect })
    }

    /// The signal group.
    pub fn signal_group(&self) -> (r: &RoadEditingReference)
        ensures
            *r == self.signal_group_view(),
    {
        &self.signal_group
    }

    /// The aspect of the group in the phase.
    pub fn aspect(&self) -> (r: SignalAspect)
        ensures
            r == self.aspect_view(),
    {
        self.aspect
    }
}

/// The checks of a signal controller, in order: its key, a portable offset,
/// a non-empty list of distinct groups, a non-empty list of distinct
/// phases.
pub open spec fn signal_controller_input_check(key: Seq<u8>, offset: u64, groups: Seq<RoadEditingReference>, phases: Seq<RoadEditingReference>) -> InputCheck {
    then_check(
        token_check(key, "signalController.signalControllerKey"@),
        then_check(
            fails_if(offset > MAX_PORTABLE_SIGNAL_TIME_MS, "signalController.offsetMilliseconds"@, RoadEditingInputViolation::InvalidCombination),
            then_check(
                non_empty_check(groups.len(), "signalController.signalGroups"@),
                then_check(
                    unique_check(groups, "signalController.signalGroups"@),
                    then_check(
                        non_empty_check(phases.len(), "signalController.signalPhases"@),
                        unique_check(phases, "signalController.signalPhases"@),
                    ),
                ),
            ),
        ),
    )
}

/// A fixed-time signal controller declaration.
#[derive(Clone, Debug, PartialEq, Eq)]
pub struct SignalControllerInput {
    signal_controller_key: String,
    offset_milliseconds: u64,
    signal_groups: Vec<RoadEditingReference>,
    signal_phases: Vec<RoadEditingReference>,
    canvas_selection: Option<String>,
}

impl SignalControllerInput {
    pub closed spec fn signal_controller_key_view(&self) -> Seq<char> {
        self.signal_controller_key@
    }

    pub closed spec fn offset_milliseconds_view(&self) -> u64 {
        self.offset_milliseconds
    }

    pub closed spec fn signal_groups_view(&self) -> Seq<RoadEditingReference> {
        self.signal_groups@
    }

    pub closed spec fn signal_phases_view(&self) -> Seq<RoadEditingReference> {
        self.signal_phases@
    }

    pub closed spec fn canvas_view(&self) -> Option<Seq<char>> {
        opt_view(self.canvas_selection)
    }

    /// A signal controller declaration; its offset is a portable signal time.
    pub fn try_new(
        signal_controller_key: &str,
        offset_milliseconds: u64,
        signal_groups: Vec<RoadEditingReference>,
        signal_phases: Vec<RoadEditingReference>,
    ) -> (r: Result<Self, DiagnosticBundle>)
        requires
            all_of_kind(signal_groups@, EntityKind::SignalGroup),
            all_of_kind(signal_phases@, EntityKind::SignalPhase),
        ensures
            match signal_controller_input_check(signal_controller_key.spec_bytes(), offset_milliseconds, signal_groups@, signal_phases@) {
                None => r matches Ok(v)
                    && v.signal_controller_key_view() == signal_controller_key@
                    && v.offset_milliseconds_view() == offset_milliseconds
                    && v.signal_groups_view() == signal_groups@
                    && v.signal_phases_view() == signal_phases@
                    && v.canvas_view() is None,
                Some(c) => failed_with(r, c),
            },
    {
        validate_token(signal_controller_key, "signalController.signalControllerKey")?;
        if offset_milliseconds > MAX_PORTABLE_SIGNAL_TIME_MS {
            return Err(input_error("signalController.offsetMilliseconds", RoadEditingInputViolation::InvalidCombination));
        }
        require_non_empty(signal_groups.as_slice(), "signalController.signalGroups")?;
        require_unique_references(signal_groups.as_slice(), "signalController.signalGroups")?;
        require_non_empty(signal_phases.as_slice(), "signalController.signalPhases")?;
        require_unique_references(signal_phases.as_slice(), "signalController.signalPhases")?;
        Ok(SignalControllerInput {
            signal_controller_key: String::from_str(signal_controller_key),
            offset_milliseconds,
            signal_groups,
            signal_phases,
            canvas_selection: None,
        })
    }

    /// The signal controller key.
    pub fn signal_controller_key(&self) -> (r: &str)
        ensures
            r@ == self.signal_controller_key_view(),
    {
        self.signal_controller_key.as_str()
    }

    /// The cycle offset in milliseconds.
    pub fn offset_milliseconds(&self) -> (r: u64)
        ensures
            r == self.offset_milliseconds_view(),
    {
        self.offset_milliseconds
    }

    /// The controlled signal groups.
    pub fn signal_groups(&self) -> (r: &[RoadEditingReference])
        ensures
            r@ == self.signal_groups_view(),
    {
        self.signal_groups.as_slice()
    }

    /// The phases, in order.
    pub fn signal_phases(&self) -> (r: &[RoadEditingReference])
        ensures
            r@ == self.signal_phases_view(),
    {
        self.signal_phases.as_slice()
    }

    /// Sets the canvas selection key.
    pub fn with_canvas_selection(self, canvas_selection: &str) -> (r: Result<Self, DiagnosticBundle>)
        ensures
            match token_check(canvas_selection.spec_bytes(), "canvasSelection"@) {
                None => r matches Ok(v)
                    && v.signal_controller_key_view() == self.signal_controller_key_view()
                    && v.offset_milliseconds_view() == self.offset_milliseconds_view()
                    && v.signal_groups_view() == self.signal_groups_view()
                    && v.signal_phases_view() == self.signal_phases_view()
                    && v.canvas_view() == Some(canvas_selection@),
                Some(c) => failed_with(r, c),
            },
    {
        let canvas = validated_canvas(canvas_selection)?;
        Ok(SignalControllerInput { canvas_selection: Some(canvas), ..self })
    }

    /// The optional canvas selection key.
    pub fn canvas_selection(&self) -> (r: Option<&str>)
        ensures
            r is Some <==> self.canvas_view() is Some,
            r matches Some(c) ==> c@ == self.canvas_view()->0,
    {
        match &self.canvas_selection {
            Some(c) => Some(c.as_str()),
            None => None,
        }
    }
}

/// The signal groups of phase states, in order.
pub open spec fn state_groups(states: Seq<RoadEditingSignalPhaseState>) -> Seq<RoadEditingReference> {
    states.map_values(|s: RoadEditingSignalPhaseState| s.signal_group_view())
}

/// Whether the states of `states` name distinct signal groups.
fn state_groups_unique(states: &[RoadEditingSignalPhaseState]) -> (r: bool)
    ensures
        r == targets_unique(state_groups(states@)),
{
    let ghost g = state_groups(states@);
    let mut i: usize = 0;
    while i < states.len()
        invariant
            i <= states@.len(),
            g == state_groups(states@),
            forall|k: int, j: int| 0 <= k < j < g.len() && k < i ==> g[k].target() != g[j].target(),
        decreases states@.len() - i,
    {
        let mut j: usize = i + 1;
        while j < states.len()
            invariant
                i < states@.len(),
                i + 1 <= j <= states@.len(),
                g == state_groups(states@),
                forall|k: int, l: int| 0 <= k < l < g.len() && k < i ==> g[k].target() != g[l].target(),
                forall|l: int| i < l < j ==> g[i as int].target() != (#[trigger] g[l]).target(),
            decreases states@.len() - j,
        {
            if states[i].signal_group.same_target(&states[j].signal_group) {
                proof {
                    assert(g[i as int] == states@[i as int].signal_group);
                    assert(g[j as int] == states@[j as int].signal_group);
                }
                return false;
            }
            j = j + 1;
        }
        i = i + 1;
    }
    true
}

/// The checks of a signal phase, in order: its key, a non-zero portable
/// duration, a non-empty list of states naming distinct groups.
pub open spec fn signal_phase_input_check(key: Seq<u8>, duration: u64, states: Seq<RoadEditingSignalPhaseState>) -> InputCheck {
    then_check(
        token_check(key, "signalPhase.signalPhaseKey"@),
        then_check(
            fails_if(duration == 0 || duration > MAX_PORTABLE_SIGNAL_TIME_MS, "signalPhase.durationMilliseconds"@, RoadEditingInputViolation::InvalidCombination),
            then_check(
                non_empty_check(states.len(), "signalPhase.states"@),
                unique_check(state_groups(states), "signalPhase.states.signalGroup"@),
            ),
        ),
    )
}

/// A fixed-time phase owned by a signal controller.
#[derive(Clone, Debug, PartialEq, Eq)]
pub struct SignalPhaseInput {
    signal_phase_key: String,
    duration_milliseconds: u64,
    states: Vec<RoadEditingSignalPhaseState>,
    signal_controller: RoadEditingReference,
    canvas_selection: Option<String>,
}

impl SignalPhaseInput {
    pub closed spec fn signal_phase_key_view(&self) -> Seq<char> {
        self.signal_phase_key@
    }

    pub closed spec fn duration_milliseconds_view(&self) -> u64 {
        self.duration_milliseconds
    }

    pub closed spec fn states_view(&self) -> Seq<RoadEditingSignalPhaseState> {
        self.states@
    }

    pub closed spec fn signal_controller_view(&self) -> RoadEditingReference {
        self.signal_controller
    }

    pub closed spec fn canvas_view(&self) -> Option<Seq<char>> {
        opt_view(self.canvas_selection)
    }

    /// A signal phase declaration; its duration is a non-zero portable signal
    /// time.
    pub fn try_new(
        signal_phase_key: &str,
        duration_milliseconds: u64,
        states: Vec<RoadEditingSignalPhaseState>,
        signal_controller: RoadEditingReference,
    ) -> (r: Result<Self, DiagnosticBundle>)
        requires
            signal_controller.spec_kind() == EntityKind::SignalController,
        ensures
            match signal_phase_input_check(signal_phase_key.spec_bytes(), duration_milliseconds, states@) {
                None => r matches Ok(v)
                    && v.signal_phase_key_view() == signal_phase_key@
                    && v.duration_milliseconds_view() == duration_milliseconds
                    && v.states_view() == states@
                    && v.signal_controller_view() == signal_controller
                    && v.canvas_view() is None,
                Some(c) => failed_with(r, c),
            },
    {
        validate_token(signal_phase_key, "signalPhase.signalPhaseKey")?;
        if duration_milliseconds == 0 || duration_milliseconds > MAX_PORTABLE_SIGNAL_TIME_MS {
            return Err(input_error("signalPhase.durationMilliseconds", RoadEditingInputViolation::InvalidCombination));
        }
        require_non_empty(states.as_slice(), "signalPhase.states")?;
        if !state_groups_unique(states.as_slice()) {
            return Err(input_error("signalPhase.states.signalGroup", RoadEditingInputViolation::DuplicateValue));
        }
        Ok(SignalPhaseInput {
            signal_phase_key: String::from_str(signal_phase_key),
            duration_milliseconds,
            states,
            signal_controller,
            canvas_selection: None,
        })
    }

    /// The signal phase key.
    pub fn signal_phase_key(&self) -> (r: &str)
        ensures
            r@ == self.signal_phase_key_view(),
    {
        self.signal_phase_key.as_str()
    }

    /// The phase duration in milliseconds.
    pub fn duration_milliseconds(&self) -> (r: u64)
        ensures
            r == self.duration_milliseconds_view(),
    {
        self.duration_milliseconds
    }

    /// The state of each signal group in the phase.
    pub fn states(&self) -> (r: &[RoadEditingSignalPhaseState])
        ensures
            r@ == self.states_view(),
    {
        self.states.as_slice()
    }

    /// The controller that owns the phase.
    pub fn signal_controller(&self) -> (r: &RoadEditingReference)
        ensures
            *r == self.signal_controller_view(),
    {
        &self.signal_controller
    }

    /// Sets the canvas selection key.
    pub fn with_canvas_selection(self, canvas_selection: &str) -> (r: Result<Self, DiagnosticBundle>)
        ensures
            match token_check(canvas_selection.spec_bytes(), "canvasSelection"@) {
                None => r matches Ok(v)
                    && v.signal_phase_key_view() == self.signal_phase_key_view()
                    && v.duration_milliseconds_view() == self.duration_milliseconds_view()
                    && v.states_view() == self.states_view()
                    && v.signal_controller_view() == self.signal_controller_view()
                    && v.canvas_view() == Some(canvas_selection@),
                Some(c) => failed_with(r, c),
            },
    {
        let canvas = validated_canvas(canvas_selection)?;
        Ok(SignalPhaseInput { canvas_selection: Some(canvas), ..self })
    }

    /// The optional canvas selection key.
    pub fn canvas_selection(&self) -> (r: Option<&str>)
        ensures
            r is Some <==> self.canvas_view() is Some,
            r matches Some(c) ==> c@ == self.canvas_view()->0,
    {
        match &self.canvas_selection {
            Some(c) => Some(c.as_str()),
            None => None,
        }
    }
}

/// The checks of a road section, in order: its key, its kind as a token and
/// as a lane-bearing facility kind, a non-empty list of distinct authoring
/// lanes.
pub open spec fn road_section_input_check(key: Seq<u8>, kind_id: Seq<u8>, lanes: Seq<RoadEditingReference>) -> InputCheck {
    then_check(
        token_check(key, "roadSection.roadSectionKey"@),
        then_check(
            token_check(kind_id, "roadSection.kindId"@),
            then_check(
                fails_if(
                    facility_kind_category_spec(kind_id) != Some(FacilityKindCategory::LaneBearing),
                    "roadSection.kindId"@,
                    RoadEditingInputViolation::InvalidCombination,
                ),
                then_check(
                    non_empty_check(lanes.len(), "roadSection.authoringLanes"@),
                    unique_check(lanes, "roadSection.authoringLanes"@),
                ),
            ),
        ),
    )
}

/// A road section declaration.
#[derive(Clone, Debug, PartialEq, Eq)]
pub struct RoadSectionInput {
    road_section_key: String,
    kind_id: String,
    authoring_lanes: Vec<RoadEditingReference>,
    road_corridor: RoadEditingReference,
    canvas_selection: Option<String>,
}

impl RoadSectionInput {
    pub closed spec fn road_section_key_view(&self) -> Seq<char> {
        self.road_section_key@
    }

    pub closed spec fn kind_id_view(&self) -> Seq<char> {
        self.kind_id@
    }

    pub closed spec fn authoring_lanes_view(&self) -> Seq<RoadEditingReference> {
        self.authoring_lanes@
    }

    pub closed spec fn road_corridor_view(&self) -> RoadEditingReference {
        self.road_corridor
    }

    pub closed spec fn canvas_view(&self) -> Option<Seq<char>> {
        opt_view(self.canvas_selection)
    }

    /// A road section declaration whose kind bears lanes.
    pub fn try_new(
        road_section_key: &str,
        kind_id: &str,
        authoring_lanes: Vec<RoadEditingReference>,
        road_corridor: RoadEditingReference,
    ) -> (r: Result<Self, DiagnosticBundle>)
        requires
            all_of_kind(authoring_lanes@, EntityKind::AuthoringLane),
            road_corridor.spec_kind() == EntityKind::RoadCorridor,
        ensures
            match road_section_input_check(road_section_key.spec_bytes(), kind_id.spec_bytes(), authoring_lanes@) {
                None => r matches Ok(v)
                    && v.road_section_key_view() == road_section_key@
                    && v.kind_id_view() == kind_id@
                    && v.authoring_lanes_view() == authoring_lanes@
                    && v.road_corridor_view() == road_corridor
                    && v.canvas_view() is None,
                Some(c) => failed_with(r, c),
            },
    {
        validate_token(road_section_key, "roadSection.roadSectionKey")?;
        validate_token(kind_id, "roadSection.kindId")?;
        if facility_kind_category(kind_id) != Some(FacilityKindCategory::LaneBearing) {
            return Err(input_error("roadSection.kindId", RoadEditingInputViolation::InvalidCombination));
        }
        require_non_empty(authoring_lanes.as_slice(), "roadSection.authoringLanes")?;
        require_unique_references(authoring_lanes.as_slice(), "roadSection.authoringLanes")?;
        Ok(RoadSectionInput {
            road_section_key: String::from_str(road_section_key),
            kind_id: String::from_str(kind_id),
            authoring_lanes,
            road_corridor,
            canvas_selection: None,
        })
    }

    /// The road section key.
    pub fn road_section_key(&self) -> (r: &str)
        ensures
            r@ == self.road_section_key_view(),
    {
        self.road_section_key.as_str()
    }

    /// The facility kind of the section.
    pub fn kind_id(&self) -> (r: &str)
        ensures
            r@ == self.kind_id_view(),
    {
        self.kind_id.as_str()
    }

    /// The authoring lanes of the section.
    pub fn authoring_lanes(&self) -> (r: &[RoadEditingReference])
        ensures
            r@ == self.authoring_lanes_view(),
    {
        self.authoring_lanes.as_slice()
    }

    /// The corridor that owns the section.
    pub fn road_corridor(&self) -> (r: &RoadEditingReference)
        ensures
            *r == self.road_corridor_view(),
    {
        &self.road_corridor
    }

    /// Sets the canvas selection key.
    pub fn with_canvas_selection(self, canvas_selection: &str) -> (r: Result<Self, DiagnosticBundle>)
        ensures
            match token_check(canvas_selection.spec_bytes(), "canvasSelection"@) {
                None => r matches Ok(v)
                    && v.road_section_key_view() == self.road_section_key_view()
                    && v.kind_id_view() == self.kind_id_view()
                    && v.authoring_lanes_view() == self.authoring_lanes_view()
                    && v.road_corridor_view() == self.road_corridor_view()
                    && v.canvas_view() == Some(canvas_selection@),
                Some(c) => failed_with(r, c),
            },
    {
        let canvas = validated_canvas(canvas_selection)?;
        Ok(RoadSectionInput { canvas_selection: Some(canvas), ..self })
    }

    /// The optional canvas selection key.
    pub fn canvas_selection(&self) -> (r: Option<&str>)
        ensures
            r is Some <==> self.canvas_view() is Some,
            r matches Some(c) ==> c@ == self.canvas_view()->0,
    {
        match &self.canvas_selection {
            Some(c) => Some(c.as_str()),
            None => None,
        }
    }
}

/// The check of lane group owned by a road section: its key.
pub open spec fn lane_group_input_check(key: Seq<u8>) -> InputCheck {
    token_check(key, "laneGroup.laneGroupKey"@)
}

/// A lane group owned by a road section.
#[derive(Clone, Debug, PartialEq, Eq)]
pub struct LaneGroupInput {
    lane_group_key: String,
    road_section: RoadEditingReference,
    canvas_selection: Option<String>,
}

impl LaneGroupInput {
    pub closed spec fn lane_group_key_view(&self) -> Seq<char> {
        self.lane_group_key@
    }

    pub closed spec fn road_section_view(&self) -> RoadEditingReference {
        self.road_section
    }

    pub closed spec fn canvas_view(&self) -> Option<Seq<char>> {
        opt_view(self.canvas_selection)
    }

    /// A lane group owned by a road section with a valid key.
    pub fn try_new(
        lane_group_key: &str,
        road_section: RoadEditingReference,
    ) -> (r: Result<Self, DiagnosticBundle>)
        requires
            road_section.spec_kind() == EntityKind::RoadSection,
        ensures
            match lane_group_input_check(lane_group_key.spec_bytes()) {
                None => r matches Ok(v)
                    && v.lane_group_key_view() == lane_group_key@
                    && v.road_section_view() == road_section
                    && v.canvas_view() is None,
                Some(c) => failed_with(r, c),
            },
    {
        validate_token(lane_group_key, "laneGroup.laneGroupKey")?;
        Ok(LaneGroupInput { lane_group_key: String::from_str(lane_group_key), road_section, canvas_selection: None })
    }

    /// The lane group key.
    pub fn lane_group_key(&self) -> (r: &str)
        ensures
            r@ == self.lane_group_key_view(),
    {
        self.lane_group_key.as_str()
    }

    /// The road section that owns the group.
    pub fn road_section(&self) -> (r: &RoadEditingReference)
        ensures
            *r == self.road_section_view(),
    {
        &self.road_section
    }

    /// Sets the canvas selection key.
    pub fn with_canvas_selection(self, canvas_selection: &str) -> (r: Result<Self, DiagnosticBundle>)
        ensures
            match token_check(canvas_selection.spec_bytes(), "canvasSelection"@) {
                None => r matches Ok(v)
                    && v.lane_group_key_view() == self.lane_group_key_view()
                    && v.road_section_view() == self.road_section_view()
                    && v.canvas_view() == Some(canvas_selection@),
                Some(c) => failed_with(r, c),
            },
    {
        let canvas = validated_canvas(canvas_selection)?;
        Ok(LaneGroupInput { canvas_selection: Some(canvas), ..self })
    }

    /// The optional canvas selection key.
    pub fn canvas_selection(&self) -> (r: Option<&str>)
        ensures
            r is Some <==> self.canvas_view() is Some,
            r matches Some(c) ==> c@ == self.canvas_view()->0,
    {
        match &self.canvas_selection {
            Some(c) => Some(c.as_str()),
            None => None,
        }
    }
}

/// The check of conflict zone bound to a junction: its key.
pub open spec fn conflict_zone_input_check(key: Seq<u8>) -> InputCheck {
    token_check(key, "conflictZone.conflictZoneKey"@)
}

/// A conflict zone bound to a junction.
#[derive(Clone, Debug, PartialEq, Eq)]
pub struct ConflictZoneInput {
    conflict_zone_key: String,
    junction: RoadEditingReference,
    canvas_selection: Option<String>,
}

impl ConflictZoneInput {
    pub closed spec fn conflict_zone_key_view(&self) -> Seq<char> {
        self.conflict_zone_key@
    }

    pub closed spec fn junction_view(&self) -> RoadEditingReference {
        self.junction
    }

    pub closed spec fn canvas_view(&self) -> Option<Seq<char>> {
        opt_view(self.canvas_selection)
    }

    /// A conflict zone bound to a junction with a valid key.
    pub fn try_new(
        conflict_zone_key: &str,
        junction: RoadEditingReference,
    ) -> (r: Result<Self, DiagnosticBundle>)
        requires
            junction.spec_kind() == EntityKind::Junction,
        ensures
            match conflict_zone_input_check(conflict_zone_key.spec_bytes()) {
                None => r matches Ok(v)
                    && v.conflict_zone_key_view() == conflict_zone_key@
                    && v.junction_view() == junction
                    && v.canvas_view() is None,
                Some(c) => failed_with(r, c),
            },
    {
        validate_token(conflict_zone_key, "conflictZone.conflictZoneKey")?;
        Ok(ConflictZoneInput { conflict_zone_key: String::from_str(conflict_zone_key), junction, canvas_selection: None })
    }

    /// The conflict zone key.
    pub fn conflict_zone_key(&self) -> (r: &str)
        ensures
            r@ == self.conflict_zone_key_view(),
    {
        self.conflict_zone_key.as_str()
    }

    /// The junction of the zone.
    pub fn junction(&self) -> (r: &RoadEditingReference)
        ensures
            *r == self.junction_view(),
    {
        &self.junction
    }

    /// Sets the canvas selection key.
    pub fn with_canvas_selection(self, canvas_selection: &str) -> (r: Result<Self, DiagnosticBundle>)
        ensures
            match token_check(canvas_selection.spec_bytes(), "canvasSelection"@) {
                None => r matches Ok(v)
                    && v.conflict_zone_key_view() == self.conflict_zone_key_view()
                    && v.junction_view() == self.junction_view()
                    && v.canvas_view() == Some(canvas_selection@),
                Some(c) => failed_with(r, c),
            },
    {
        let canvas = validated_canvas(canvas_selection)?;
        Ok(ConflictZoneInput { canvas_selection: Some(canvas), ..self })
    }

    /// The optional canvas selection key.
    pub fn canvas_selection(&self) -> (r: Option<&str>)
        ensures
            r is Some <==> self.canvas_view() is Some,
            r matches Some(c) ==> c@ == self.canvas_view()->0,
    {
        match &self.canvas_selection {
            Some(c) => Some(c.as_str()),
            None => None,
        }
    }
}

/// The check of a participant class: its key.
pub open spec fn participant_class_input_check(key: Seq<u8>) -> InputCheck {
    token_check(key, "participantClass.participantClassKey"@)
}

/// A participant class of the static access taxonomy.
#[derive(Clone, Debug, PartialEq, Eq)]
pub struct ParticipantClassInput {
    participant_class_key: String,
    extends: Option<RoadEditingReference>,
    canvas_selection: Option<String>,
}

impl ParticipantClassInput {
    pub closed spec fn participant_class_key_view(&self) -> Seq<char> {
        self.participant_class_key@
    }

    pub closed spec fn extends_view(&self) -> Option<RoadEditingReference> {
        self.extends
    }

    pub closed spec fn canvas_view(&self) -> Option<Seq<char>> {
        opt_view(self.canvas_selection)
    }

    /// A participant class declaration with a valid key and no parent.
    pub fn try_new(
        participant_class_key: &str,
    ) -> (r: Result<Self, DiagnosticBundle>)
        ensures
            match participant_class_input_check(participant_class_key.spec_bytes()) {
                None => r matches Ok(v)
                    && v.participant_class_key_view() == participant_class_key@
                    && v.extends_view() == None::<RoadEditingReference>
                    && v.canvas_view() is None,
                Some(c) => failed_with(r, c),
            },
    {
        validate_token(participant_class_key, "participantClass.participantClassKey")?;
        Ok(ParticipantClassInput { participant_class_key: String::from_str(participant_class_key), extends: None, canvas_selection: None })
    }

    /// The participant class key.
    pub fn participant_class_key(&self) -> (r: &str)
        ensures
            r@ == self.participant_class_key_view(),
    {
        self.participant_class_key.as_str()
    }

    /// The parent class it extends, if any.
    pub fn extends(&self) -> (r: Option<&RoadEditingReference>)
        ensures
            r is Some <==> self.extends_view() is Some,
            r matches Some(x) ==> *x == self.extends_view()->0,
    {
        match &self.extends {
            Some(x) => Some(x),
            None => None,
        }
    }

    /// Sets the canvas selection key.
    pub fn with_canvas_selection(self, canvas_selection: &str) -> (r: Result<Self, DiagnosticBundle>)
        ensures
            match token_check(canvas_selection.spec_bytes(), "canvasSelection"@) {
                None => r matches Ok(v)
                    && v.participant_class_key_view() == self.participant_class_key_view()
                    && v.extends_view() == self.extends_view()
                    && v.canvas_view() == Some(canvas_selection@),
                Some(c) => failed_with(r, c),
            },
    {
        let canvas = validated_canvas(canvas_selection)?;
        Ok(ParticipantClassInput { canvas_selection: Some(canvas), ..self })
    }

    /// The optional canvas selection key.
    pub fn canvas_selection(&self) -> (r: Option<&str>)
        ensures
            r is Some <==> self.canvas_view() is Some,
            r matches Some(c) ==> c@ == self.canvas_view()->0,
    {
        match &self.canvas_selection {
            Some(c) => Some(c.as_str()),
            None => None,
        }
    }

    /// Sets the parent class.
    pub fn with_extends(self, extends: RoadEditingReference) -> (r: Self)
        requires
            extends.spec_kind() == EntityKind::ParticipantClass,
        ensures
            r.participant_class_key_view() == self.participant_class_key_view(),
            r.extends_view() == Some(extends),
            r.canvas_view() == self.canvas_view(),
    {
        ParticipantClassInput { extends: Some(extends), ..self }
    }
}

/// The effect of an access rule; effects of the static contract other than
/// allow and deny are carried by their code.
#[derive(Clone, Copy, Debug, PartialEq, Eq, Structural)]
pub enum AccessEffect {
    Allow,
    Deny,
    Other(u8),
}

/// The closed set of targets an access rule may apply to.
#[derive(Clone, Debug, PartialEq, Eq)]
pub enum RoadEditingAccessTarget {
    LaneEdge(RoadEditingReference),
    LaneGroup(RoadEditingReference),
    RoadSection(RoadEditingReference),
    ManeuverPath(RoadEditingReference),
}

/// The reference of a target names an entity of its variant's kind.
pub open spec fn access_target_kind_ok(t: RoadEditingAccessTarget) -> bool {
    match t {
        RoadEditingAccessTarget::LaneEdge(r) => r.spec_kind() == EntityKind::LaneEdge,
        RoadEditingAccessTarget::LaneGroup(r) => r.spec_kind() == EntityKind::LaneGroup,
        RoadEditingAccessTarget::RoadSection(r) => r.spec_kind() == EntityKind::RoadSection,
        RoadEditingAccessTarget::ManeuverPath(r) => r.spec_kind() == EntityKind::ManeuverPath,
    }
}

/// The checks of an access rule, in order: its key, an allow or deny
/// effect, a non-empty list of distinct participant classes.
pub open spec fn access_rule_input_check(key: Seq<u8>, effect: AccessEffect, classes: Seq<RoadEditingReference>) -> InputCheck {
    then_check(
        token_check(key, "accessRule.accessRuleKey"@),
        then_check(
            fails_if(effect is Other, "accessRule.effect"@, RoadEditingInputViolation::InvalidCombination),
            then_check(
                non_empty_check(classes.len(), "accessRule.participantClasses"@),
                unique_check(classes, "accessRule.participantClasses"@),
            ),
        ),
    )
}

/// A static access rule declaration.
#[derive(Clone, Debug, PartialEq, Eq)]
pub struct AccessRuleInput {
    access_rule_key: String,
    target: RoadEditingAccessTarget,
    effect: AccessEffect,
    participant_classes: Vec<RoadEditingReference>,
    regulation: Option<RegulationIdentity>,
    priority: i32,
    canvas_selection: Option<String>,
}

impl AccessRuleInput {
    pub closed spec fn access_rule_key_view(&self) -> Seq<char> {
        self.access_rule_key@
    }

    pub closed spec fn target_view(&self) -> RoadEditingAccessTarget {
        self.target
    }

    pub closed spec fn effect_view(&self) -> AccessEffect {
        self.effect
    }

    pub closed spec fn participant_classes_view(&self) -> Seq<RoadEditingReference> {
        self.participant_classes@
    }

    pub closed spec fn regulation_view(&self) -> Option<RegulationIdentity> {
        self.regulation
    }

    pub closed spec fn priority_view(&self) -> i32 {
        self.priority
    }

    pub closed spec fn canvas_view(&self) -> Option<Seq<char>> {
        opt_view(self.canvas_selection)
    }

    /// An access rule declaration with no regulation; its effect is allow or
    /// deny.
    pub fn try_new(
        access_rule_key: &str,
        target: RoadEditingAccessTarget,
        effect: AccessEffect,
        participant_classes: Vec<RoadEditingReference>,
        priority: i32,
    ) -> (r: Result<Self, DiagnosticBundle>)
        requires
            access_target_kind_ok(target),
            all_of_kind(participant_classes@, EntityKind::ParticipantClass),
        ensures
            match access_rule_input_check(access_rule_key.spec_bytes(), effect, participant_classes@) {
                None => r matches Ok(v)
                    && v.access_rule_key_view() == access_rule_key@
                    && v.target_view() == target
                    && v.effect_view() == effect
                    && v.participant_classes_view() == participant_classes@
                    && v.regulation_view() == None::<RegulationIdentity>
                    && v.priority_view() == priority
                    && v.canvas_view() is None,
                Some(c) => failed_with(r, c),
            },
    {
        validate_token(access_rule_key, "accessRule.accessRuleKey")?;
        if let AccessEffect::Other(_) = effect {
            return Err(input_error("accessRule.effect", RoadEditingInputViolation::InvalidCombination));
        }
        require_non_empty(participant_classes.as_slice(), "accessRule.participantClasses")?;
        require_unique_references(participant_classes.as_slice(), "accessRule.participantClasses")?;
        Ok(AccessRuleInput {
            access_rule_key: String::from_str(access_rule_key),
            target,
            effect,
            participant_classes,
            regulation: None,
            priority,
            canvas_selection: None,
        })
    }

    /// The access rule key.
    pub fn access_rule_key(&self) -> (r: &str)
        ensures
            r@ == self.access_rule_key_view(),
    {
        self.access_rule_key.as_str()
    }

    /// The target of the rule.
    pub fn target(&self) -> (r: &RoadEditingAccessTarget)
        ensures
            *r == self.target_view(),
    {
        &self.target
    }

    /// The effect of the rule.
    pub fn effect(&self) -> (r: AccessEffect)
        ensures
            r == self.effect_view(),
    {
        self.effect
    }

    /// The participant classes the rule applies to.
    pub fn participant_classes(&self) -> (r: &[RoadEditingReference])
        ensures
            r@ == self.participant_classes_view(),
    {
        self.participant_classes.as_slice()
    }

    /// The regulation behind the rule, if any.
    pub fn regulation(&self) -> (r: Option<&RegulationIdentity>)
        ensures
            r is Some <==> self.regulation_view() is Some,
            r matches Some(x) ==> *x == self.regulation_view()->0,
    {
        match &self.regulation {
            Some(x) => Some(x),
            None => None,
        }
    }

    /// The priority of the rule.
    pub fn priority(&self) -> (r: i32)
        ensures
            r == self.priority_view(),
    {
        self.priority
    }

    /// Sets the canvas selection key.
    pub fn with_canvas_selection(self, canvas_selection: &str) -> (r: Result<Self, DiagnosticBundle>)
        ensures
            match token_check(canvas_selection.spec_bytes(), "canvasSelection"@) {
                None => r matches Ok(v)
                    && v.access_rule_key_view() == self.access_rule_key_view()
                    && v.target_view() == self.target_view()
                    && v.effect_view() == self.effect_view()
                    && v.participant_classes_view() == self.participant_classes_view()
                    && v.regulation_view() == self.regulation_view()
                    && v.priority_view() == self.priority_view()
                    && v.canvas_view() == Some(canvas_selection@),
                Some(c) => failed_with(r, c),
            },
    {
        let canvas = validated_canvas(canvas_selection)?;
        Ok(AccessRuleInput { canvas_selection: Some(canvas), ..self })
    }

    /// The optional canvas selection key.
    pub fn canvas_selection(&self) -> (r: Option<&str>)
        ensures
            r is Some <==> self.canvas_view() is Some,
            r matches Some(c) ==> c@ == self.canvas_view()->0,
    {
        match &self.canvas_selection {
            Some(c) => Some(c.as_str()),
            None => None,
        }
    }

    /// Sets the regulation behind the rule.
    pub fn with_regulation(self, regulation: RegulationIdentity) -> (r: Self)
        ensures
            r.access_rule_key_view() == self.access_rule_key_view(),
            r.target_view() == self.target_view(),
            r.effect_view() == self.effect_view(),
            r.participant_classes_view() == self.participant_classes_view(),
            r.regulation_view() == Some(regulation),
            r.priority_view() == self.priority_view(),
            r.canvas_view() == self.canvas_view(),
    {
        AccessRuleInput { regulation: Some(regulation), ..self }
    }
}

} // verus!
