//! Owned, kinded references to stable road-editing entities, with their exact
//! owner-key depth and their wire spelling `ns::owner>...>local`.

use vstd::prelude::*;
use vstd::string::StringExecFns;
use vstd::string::StringSliceAdditionalSpecFns;

use crate::declaration::{owner_depth, spec_owner_depth, EntityKind};
use crate::diagnostic::{DiagnosticBundle, RoadEditingInputViolation};
use crate::fmt::{concat, decimal, indexed_field};
use crate::rules::{input_error, saturating_u8};
use crate::spelling::{
    join, lemma_encode_concat, lemma_encode_join, lemma_join_len, lemma_join_no_double_colon, lemma_pieces_len_bound,
    lemma_pieces_len_prefix, lemma_split_join, lemma_token_has_no_separator, lemma_token_within_bound, pieces_len,
};
use crate::rules::{component_valid, has_bad_component, key_path_spec, split_components, wire_reference_spec, MAX_COMPONENT_BYTES};
use crate::text::{has_double_colon, lemma_first_double_colon_unique, lemma_valid_token_ascii};
use vstd::utf8::*;
use crate::text::{string_bytes, token_violation, token_violation_spec};

verus! {

/// The slug of `kind` used in field paths.
pub open spec fn kind_slug(kind: EntityKind) -> Seq<char> {
    match kind {
        EntityKind::RightOfWayPolicySet => "rightOfWayPolicySet"@,
        EntityKind::RoadCorridor => "roadCorridor"@,
        EntityKind::RoadSection => "roadSection"@,
        EntityKind::AuthoringLane => "authoringLane"@,
        EntityKind::LaneEdge => "laneEdge"@,
        EntityKind::Junction => "junction"@,
        EntityKind::Movement => "movement"@,
        EntityKind::ManeuverPath => "maneuverPath"@,
        EntityKind::ManeuverGate => "maneuverGate"@,
        EntityKind::WaitingZone => "waitingZone"@,
        EntityKind::StopLine => "stopLine"@,
        EntityKind::SignalGroup => "signalGroup"@,
        EntityKind::SignalController => "signalController"@,
        EntityKind::SignalPhase => "signalPhase"@,
        EntityKind::ParkingFacility => "parkingFacility"@,
        EntityKind::ParkingSpace => "parkingSpace"@,
        EntityKind::LaneGroup => "laneGroup"@,
        EntityKind::FacilityBand => "facilityBand"@,
        EntityKind::ParticipantClass => "participantClass"@,
        EntityKind::AccessRule => "accessRule"@,
        EntityKind::VehicleProfile => "vehicleProfile"@,
        EntityKind::CanonicalFrame => "canonicalFrame"@,
        EntityKind::ConflictZone => "conflictZone"@,
        EntityKind::ParticipantStream => "participantStream"@,
    }
}

/// Returns the slug of `kind`.
pub fn entity_kind_slug(kind: EntityKind) -> (r: &'static str)
    ensures
        r@ == kind_slug(kind),
{
    match kind {
        EntityKind::RightOfWayPolicySet => "rightOfWayPolicySet",
        EntityKind::RoadCorridor => "roadCorridor",
        EntityKind::RoadSection => "roadSection",
        EntityKind::AuthoringLane => "authoringLane",
        EntityKind::LaneEdge => "laneEdge",
        EntityKind::Junction => "junction",
        EntityKind::Movement => "movement",
        EntityKind::ManeuverPath => "maneuverPath",
        EntityKind::ManeuverGate => "maneuverGate",
        EntityKind::WaitingZone => "waitingZone",
        EntityKind::StopLine => "stopLine",
        EntityKind::SignalGroup => "signalGroup",
        EntityKind::SignalController => "signalController",
        EntityKind::SignalPhase => "signalPhase",
        EntityKind::ParkingFacility => "parkingFacility",
        EntityKind::ParkingSpace => "parkingSpace",
        EntityKind::LaneGroup => "laneGroup",
        EntityKind::FacilityBand => "facilityBand",
        EntityKind::ParticipantClass => "participantClass",
        EntityKind::AccessRule => "accessRule",
        EntityKind::VehicleProfile => "vehicleProfile",
        EntityKind::CanonicalFrame => "canonicalFrame",
        EntityKind::ConflictZone => "conflictZone",
        EntityKind::ParticipantStream => "participantStream",
    }
}

/// The field path `reference<slug>` of references to `kind`.
pub open spec fn reference_field(kind: EntityKind) -> Seq<char> {
    "reference<"@ + kind_slug(kind) + ">"@
}

/// An identity token without a byte bound beyond `u64`.
pub open spec fn identity_token_valid(s: Seq<char>) -> bool {
    token_violation_spec(string_bytes(s), u64::MAX, true) is None
}

/// `k` is the first owner key that is not a valid identity token.
pub open spec fn is_first_bad_key(keys: Seq<String>, k: int) -> bool {
    &&& 0 <= k < keys.len()
    &&& !identity_token_valid(keys[k]@)
    &&& forall|j: int| 0 <= j < k ==> identity_token_valid(#[trigger] keys[j]@)
}

/// Some owner key is not a valid identity token.
pub open spec fn has_bad_key(keys: Seq<String>) -> bool {
    exists|k: int| 0 <= k < keys.len() && !identity_token_valid(#[trigger] keys[k]@)
}

/// The position of the first invalid owner key.
pub open spec fn first_bad_key(keys: Seq<String>) -> int {
    choose|k: int| is_first_bad_key(keys, k)
}

proof fn lemma_first_bad_key_unique(keys: Seq<String>, k: int)
    requires
        is_first_bad_key(keys, k),
    ensures
        has_bad_key(keys),
        first_bad_key(keys) == k,
{
    assert(!identity_token_valid(keys[k]@));
    let m = first_bad_key(keys);
    assert(is_first_bad_key(keys, m));
    if m < k {
        assert(identity_token_valid(keys[m]@));
    }
    if k < m {
        assert(identity_token_valid(keys[k]@));
    }
}

/// The token violation of `s` (meaningful when `s` is not a valid token).
pub open spec fn token_error(s: Seq<char>) -> RoadEditingInputViolation {
    token_violation_spec(string_bytes(s), u64::MAX, true)->0
}

/// The checks a reference construction performs, in order: exact owner depth,
/// the namespace token, every owner key token, then the local key token.
pub open spec fn reference_check(
    kind: EntityKind,
    module_namespace: Option<Seq<char>>,
    owner_keys: Seq<String>,
    local_key: Seq<char>,
) -> Option<(Seq<char>, RoadEditingInputViolation)> {
    let field = reference_field(kind);
    let expected = spec_owner_depth(kind);
    let actual = saturating_u8(owner_keys.len());
    if actual != expected {
        Some((field, RoadEditingInputViolation::InvalidReferenceDepth { expected, actual }))
    } else if module_namespace matches Some(ns) && !identity_token_valid(ns) {
        Some((field + ".moduleNamespace"@, token_error(module_namespace->0)))
    } else if has_bad_key(owner_keys) {
        Some(
            (
                field + ".ownerKeys"@ + "["@ + decimal(first_bad_key(owner_keys) as nat) + "]"@,
                token_error(owner_keys[first_bad_key(owner_keys)]@),
            ),
        )
    } else if !identity_token_valid(local_key) {
        Some((field + ".localKey"@, token_error(local_key)))
    } else {
        None
    }
}

/// An owned reference to a stable entity of kind `kind`, carrying the full key
/// chain from the module root owner to the direct parent.
#[derive(Clone, Debug, PartialEq, Eq, PartialOrd, Ord, Hash)]
pub struct RoadEditingReference {
    kind: EntityKind,
    module_namespace: Option<String>,
    owner_keys: Vec<String>,
    local_key: String,
}

impl RoadEditingReference {
    pub closed spec fn spec_kind(&self) -> EntityKind {
        self.kind
    }

    pub closed spec fn namespace_view(&self) -> Option<Seq<char>> {
        match &self.module_namespace {
            Some(ns) => Some(ns@),
            None => None,
        }
    }

    pub closed spec fn owner_key_strings(&self) -> Seq<String> {
        self.owner_keys@
    }

    pub closed spec fn local_key_view(&self) -> Seq<char> {
        self.local_key@
    }

    /// The owner keys as character sequences.
    pub open spec fn owner_keys_view(&self) -> Seq<Seq<char>> {
        self.owner_key_strings().map_values(|k: String| k@)
    }

    /// Owner keys followed by the local key.
    pub open spec fn components_view(&self) -> Seq<Seq<char>> {
        self.owner_keys_view().push(self.local_key_view())
    }

    /// A constructed reference has the exact depth and valid tokens.
    pub open spec fn well_formed(&self) -> bool {
        reference_check(
            self.spec_kind(),
            self.namespace_view(),
            self.owner_key_strings(),
            self.local_key_view(),
        ) is None
    }

    fn try_new(
        kind: EntityKind,
        module_namespace: Option<String>,
        owner_keys: Vec<String>,
        local_key: String,
    ) -> (r: Result<Self, DiagnosticBundle>)
        ensures
            match reference_check(
                kind,
                match module_namespace {
                    Some(ns) => Some(ns@),
                    None => None,
                },
                owner_keys@,
                local_key@,
            ) {
                None => r matches Ok(v) && v.spec_kind() == kind && v.namespace_view() == (
                match module_namespace {
                    Some(ns) => Some(ns@),
                    None => None,
                }) && v.owner_key_strings() == owner_keys@ && v.local_key_view() == local_key@,
                Some((field, violation)) => r matches Err(b) && b.is_input_error(field, violation),
            },
    {
        let slug = entity_kind_slug(kind);
        let head = concat("reference<", slug);
        let field = concat(head.as_str(), ">");
        let expected = owner_depth(kind);
        let actual: u8 = if owner_keys.len() > 255 { 255 } else { owner_keys.len() as u8 };
        if actual != expected {
            return Err(
                input_error(
                    field.as_str(),
                    RoadEditingInputViolation::InvalidReferenceDepth { expected, actual },
                ),
            );
        }
        proof {
            assert(field@ =~= reference_field(kind));
        }
        if let Some(namespace) = &module_namespace {
            if let Some(v) = token_violation(namespace.as_str(), u64::MAX, true) {
                let f = concat(field.as_str(), ".moduleNamespace");
                return Err(input_error(f.as_str(), v));
            }
        }
        let mut index: usize = 0;
        while index < owner_keys.len()
            invariant
                index <= owner_keys@.len(),
                forall|j: int| 0 <= j < index ==> identity_token_valid(#[trigger] owner_keys@[j]@),
                field@ == reference_field(kind),
                saturating_u8(owner_keys@.len()) == spec_owner_depth(kind),
                module_namespace matches Some(ns) ==> identity_token_valid(ns@),
            decreases owner_keys@.len() - index,
        {
            if let Some(v) = token_violation(owner_keys[index].as_str(), u64::MAX, true) {
                proof {
                    lemma_first_bad_key_unique(owner_keys@, index as int);
                }
                let keys_field = concat(field.as_str(), ".ownerKeys");
                let f = indexed_field(keys_field.as_str(), index as u64);
                proof {
                    assert(f@ =~= reference_field(kind) + ".ownerKeys"@ + "["@ + decimal(
                        first_bad_key(owner_keys@) as nat,
                    ) + "]"@);
                    assert(v == token_error(owner_keys@[first_bad_key(owner_keys@)]@));
                }
                return Err(input_error(f.as_str(), v));
            }
            index = index + 1;
        }
        if let Some(v) = token_violation(local_key.as_str(), u64::MAX, true) {
            let f = concat(field.as_str(), ".localKey");
            return Err(input_error(f.as_str(), v));
        }
        Ok(RoadEditingReference { kind, module_namespace, owner_keys, local_key })
    }

    /// A reference to a module-scoped entity of the current module.
    pub fn local(kind: EntityKind, local_key: &str) -> (r: Result<Self, DiagnosticBundle>)
        ensures
            match reference_check(kind, None, Seq::<String>::empty(), local_key@) {
                None => r matches Ok(v) && v.spec_kind() == kind && v.namespace_view() is None
                    && v.owner_key_strings().len() == 0 && v.local_key_view() == local_key@,
                Some((field, violation)) => r matches Err(b) && b.is_input_error(field, violation),
            },
    {
        let keys: Vec<String> = Vec::new();
        proof {
            assert(keys@ =~= Seq::<String>::empty());
        }
        Self::try_new(kind, None, keys, String::from_str(local_key))
    }

    /// A full reference to an owner-scoped entity of the current module.
    pub fn owner_scoped(kind: EntityKind, owner_keys: Vec<String>, local_key: &str) -> (r: Result<
        Self,
        DiagnosticBundle,
    >)
        ensures
            match reference_check(kind, None, owner_keys@, local_key@) {
                None => r matches Ok(v) && v.spec_kind() == kind && v.namespace_view() is None
                    && v.owner_key_strings() == owner_keys@ && v.local_key_view() == local_key@,
                Some((field, violation)) => r matches Err(b) && b.is_input_error(field, violation),
            },
    {
        Self::try_new(kind, None, owner_keys, String::from_str(local_key))
    }

    /// A full reference to an entity of an explicitly imported module.
    pub fn imported(
        kind: EntityKind,
        module_namespace: &str,
        owner_keys: Vec<String>,
        local_key: &str,
    ) -> (r: Result<Self, DiagnosticBundle>)
        ensures
            match reference_check(kind, Some(module_namespace@), owner_keys@, local_key@) {
                None => r matches Ok(v) && v.spec_kind() == kind && v.namespace_view() == Some(
                    module_namespace@,
                ) && v.owner_key_strings() == owner_keys@ && v.local_key_view() == local_key@,
                Some((field, violation)) => r matches Err(b) && b.is_input_error(field, violation),
            },
    {
        Self::try_new(kind, Some(String::from_str(module_namespace)), owner_keys, String::from_str(local_key))
    }

    /// The target a reference names: its kind, namespace, owner keys and
    /// local key.
    pub open spec fn target(&self) -> (EntityKind, Option<Seq<char>>, Seq<Seq<char>>, Seq<char>) {
        (self.spec_kind(), self.namespace_view(), self.owner_keys_view(), self.local_key_view())
    }

    /// Whether two references name the same target.
    pub fn same_target(&self, other: &Self) -> (r: bool)
        ensures
            r == (self.target() == other.target()),
    {
        if self.kind != other.kind {
            return false;
        }
        let same_namespace = match (&self.module_namespace, &other.module_namespace) {
            (None, None) => true,
            (Some(a), Some(b)) => *a == *b,
            _ => false,
        };
        if !same_namespace {
            return false;
        }
        if self.owner_keys.len() != other.owner_keys.len() {
            proof {
                assert(self.owner_keys_view().len() != other.owner_keys_view().len());
            }
            return false;
        }
        let mut i: usize = 0;
        while i < self.owner_keys.len()
            invariant
                i <= self.owner_keys@.len(),
                self.owner_keys@.len() == other.owner_keys@.len(),
                forall|j: int| 0 <= j < i ==> (#[trigger] self.owner_keys@[j])@ == other.owner_keys@[j]@,
            decreases self.owner_keys@.len() - i,
        {
            if !(self.owner_keys[i] == other.owner_keys[i]) {
                proof {
                    assert(self.owner_keys_view()[i as int] != other.owner_keys_view()[i as int]);
                }
                return false;
            }
            i = i + 1;
        }
        proof {
            assert(self.owner_keys_view() =~= other.owner_keys_view());
        }
        self.local_key == other.local_key
    }

    /// The entity kind of the target.
    pub fn kind(&self) -> (r: EntityKind)
        ensures
            r == self.spec_kind(),
    {
        self.kind
    }

    /// The namespace of a qualified reference; `None` for the current module.
    pub fn module_namespace(&self) -> (r: Option<&str>)
        ensures
            r is Some <==> self.namespace_view() is Some,
            r matches Some(ns) ==> ns@ == self.namespace_view()->0,
    {
        match &self.module_namespace {
            Some(ns) => Some(ns.as_str()),
            None => None,
        }
    }

    /// The owner key chain from the module root owner to the direct parent.
    pub fn owner_keys(&self) -> (r: &[String])
        ensures
            r@ == self.owner_key_strings(),
    {
        self.owner_keys.as_slice()
    }

    /// The local key under the direct owner.
    pub fn local_key(&self) -> (r: &str)
        ensures
            r@ == self.local_key_view(),
    {
        self.local_key.as_str()
    }

    /// Owner keys followed by the local key.
    pub fn components(&self) -> (r: Vec<&str>)
        ensures
            r@.map_values(|c: &str| c@) == self.components_view(),
    {
        let mut out: Vec<&str> = Vec::new();
        let mut i: usize = 0;
        while i < self.owner_keys.len()
            invariant
                i <= self.owner_keys@.len(),
                out@.map_values(|c: &str| c@) == self.owner_keys_view().take(i as int),
            decreases self.owner_keys@.len() - i,
        {
            let ghost before = out@.map_values(|c: &str| c@);
            out.push(self.owner_keys[i].as_str());
            proof {
                assert(out@.map_values(|c: &str| c@) =~= before.push(self.owner_keys@[i as int]@));
                assert(self.owner_keys_view().take(i + 1) =~= self.owner_keys_view().take(
                    i as int,
                ).push(self.owner_keys@[i as int]@));
            }
            i = i + 1;
        }
        let ghost before = out@.map_values(|c: &str| c@);
        out.push(self.local_key.as_str());
        proof {
            assert(self.owner_keys_view().take(self.owner_keys@.len() as int) =~= self.owner_keys_view());
            assert(out@.map_values(|c: &str| c@) =~= before.push(self.local_key@));
        }
        out
    }

    /// The wire spelling: `namespace::` when qualified, then the components
    /// joined by `>`.
    pub open spec fn spelling_view(&self) -> Seq<char> {
        match self.namespace_view() {
            Some(ns) => ns + seq![':', ':'] + join(self.components_view(), '>'),
            None => join(self.components_view(), '>'),
        }
    }

    /// The byte length of the wire spelling, computed from the parts: the
    /// component bytes, one separator per owner key, and the namespace with
    /// its `::`; the additions saturate.
    pub open spec fn wire_len_spec(&self) -> usize {
        let base = pieces_len(self.components_view().map_values(|c: Seq<char>| string_bytes(c)));
        let with_separators = if base + self.owner_keys_view().len() > usize::MAX {
            usize::MAX as int
        } else {
            (base + self.owner_keys_view().len()) as int
        };
        let ns = match self.namespace_view() {
            Some(n) => if string_bytes(n).len() + 2 > usize::MAX {
                usize::MAX as int
            } else {
                (string_bytes(n).len() + 2) as int
            },
            None => 0,
        };
        if with_separators + ns > usize::MAX {
            usize::MAX
        } else {
            (with_separators + ns) as usize
        }
    }

    /// Spells the reference as it is written into a source buffer.
    pub fn wire_spelling(&self) -> (r: String)
        ensures
            r@ == self.spelling_view(),
    {
        let mut spelling = String::new();
        let ghost prefix: Seq<char> = match self.namespace_view() {
            Some(ns) => ns + seq![':', ':'],
            None => Seq::<char>::empty(),
        };
        if let Some(namespace) = &self.module_namespace {
            spelling.append(namespace.as_str());
            spelling.append("::");
            proof {
                reveal_strlit("::");
                assert(spelling@ =~= prefix);
            }
        }
        proof {
            assert(spelling@ =~= prefix);
        }
        let components = self.components();
        let ghost cs = self.components_view();
        let mut i: usize = 0;
        while i < components.len()
            invariant
                i <= components@.len(),
                cs == self.components_view(),
                components@.map_values(|c: &str| c@) == cs,
                spelling@ == prefix + join(cs.take(i as int), '>'),
            decreases components@.len() - i,
        {
            let ghost before = spelling@;
            if i > 0 {
                spelling.append(">");
                proof {
                    reveal_strlit(">");
                }
            }
            spelling.append(components[i]);
            proof {
                assert(components[i as int]@ == cs[i as int]);
                let t = cs.take(i + 1);
                assert(t.drop_last() =~= cs.take(i as int));
                assert(t.last() == cs[i as int]);
                if i == 0 {
                    assert(t.len() == 1);
                    assert(join(cs.take(0), '>') =~= Seq::<char>::empty());
                    assert(spelling@ =~= prefix + join(t, '>'));
                } else {
                    assert(spelling@ =~= prefix + join(t, '>'));
                }
            }
            i = i + 1;
        }
        proof {
            assert(cs.take(i as int) =~= cs);
            assert(spelling@ =~= self.spelling_view());
        }
        spelling
    }

    /// The byte length of the wire spelling, from the parts; see
    /// [`Self::wire_len_spec`].
    pub fn wire_len(&self) -> (r: usize)
        requires
            pieces_len(self.components_view().map_values(|c: Seq<char>| string_bytes(c))) <= usize::MAX,
        ensures
            r == self.wire_len_spec(),
    {
        let components = self.components();
        let ghost cs = self.components_view().map_values(|c: Seq<char>| string_bytes(c));
        let mut total: usize = 0;
        let mut i: usize = 0;
        while i < components.len()
            invariant
                i <= components@.len(),
                components@.map_values(|c: &str| c@) == self.components_view(),
                cs == self.components_view().map_values(|c: Seq<char>| string_bytes(c)),
                pieces_len(cs) <= usize::MAX,
                total == pieces_len(cs.take(i as int)),
            decreases components@.len() - i,
        {
            proof {
                assert(cs.take(i + 1).drop_last() =~= cs.take(i as int));
                assert(components[i as int]@ == self.components_view()[i as int]);
                assert(cs[i as int] == string_bytes(components[i as int]@));
                lemma_pieces_len_prefix(cs, i + 1);
            }
            total = total + components[i].as_bytes().len();
            i = i + 1;
        }
        proof {
            assert(cs.take(i as int) =~= cs);
        }
        let with_separators = total.saturating_add(self.owner_keys.len());
        let namespace_len: usize = match &self.module_namespace {
            Some(ns) => ns.as_str().as_bytes().len().saturating_add(2),
            None => 0,
        };
        with_separators.saturating_add(namespace_len)
    }
}

/// The UTF-8 bytes of a reference's spelling: the namespace and `::` when
/// qualified, then the components' bytes joined by `>`.
proof fn lemma_spelling_bytes(r: RoadEditingReference)
    ensures
        string_bytes(r.spelling_view()) == match r.namespace_view() {
            Some(ns) => string_bytes(ns) + seq![58u8, 58u8] + join(
                r.components_view().map_values(|c: Seq<char>| string_bytes(c)),
                62u8,
            ),
            None => join(r.components_view().map_values(|c: Seq<char>| string_bytes(c)), 62u8),
        },
{
    let cs = r.components_view();
    lemma_encode_join(cs);
    assert(cs.map_values(|c: Seq<char>| encode_utf8(c)) =~= cs.map_values(|c: Seq<char>| string_bytes(c)));
    if let Some(ns) = r.namespace_view() {
        lemma_encode_concat(ns + seq![':', ':'], join(cs, '>'));
        lemma_encode_concat(ns, seq![':', ':']);
        assert(encode_utf8(seq![':', ':']) =~= seq![58u8, 58u8]) by {
            assert((':' as u32) == 58);
            assert((58u32 & 0x7Fu32) as u8 == 58u8) by (bit_vector);
            assert(encode_scalar(58u32) =~= seq![58u8]);
            assert(seq![':', ':'].drop_first() =~= seq![':']);
            assert(seq![':'].drop_first() =~= Seq::<char>::empty());
            assert(encode_utf8(Seq::<char>::empty()) =~= Seq::<u8>::empty());
            assert(encode_utf8(seq![':']) =~= seq![58u8]);
            assert(encode_utf8(seq![':', ':']) == encode_scalar(58u32) + encode_utf8(seq![':']));
        }
    }
}

/// The byte length that `wire_len` computes from the parts of a reference is
/// the length of its wire spelling, wherever the sums do not saturate.
pub proof fn law_wire_len_counts_spelling_bytes(r: RoadEditingReference)
    requires
        pieces_len(r.components_view().map_values(|c: Seq<char>| string_bytes(c))) + r.owner_keys_view().len()
            + match r.namespace_view() {
            Some(ns) => string_bytes(ns).len() + 2,
            None => 0,
        } <= usize::MAX,
    ensures
        r.wire_len_spec() == string_bytes(r.spelling_view()).len(),
{
    let bs = r.components_view().map_values(|c: Seq<char>| string_bytes(c));
    lemma_spelling_bytes(r);
    lemma_join_len(bs, 62u8);
    assert(bs.len() == r.owner_keys_view().len() + 1);
}

/// The bytes of each component of a reference.
pub open spec fn component_bytes(r: RoadEditingReference) -> Seq<Seq<u8>> {
    r.components_view().map_values(|c: Seq<char>| string_bytes(c))
}

/// What a read gives back of a write: the wire spelling of a constructed
/// reference passes the reader's reference check at the depth of its kind and
/// splits back into its namespace and its components, when each token fits the
/// 53-byte component bound and a namespace does not end in `:` (a trailing
/// `:` would run into the `::` that follows it).
pub proof fn law_spelling_reads_back(r: RoadEditingReference)
    requires
        r.well_formed(),
        forall|p: int|
            0 <= p < r.components_view().len() ==> string_bytes(#[trigger] r.components_view()[p]).len()
                <= MAX_COMPONENT_BYTES,
        r.namespace_view() matches Some(ns) ==> string_bytes(ns).len() <= MAX_COMPONENT_BYTES && string_bytes(
            ns,
        ).last() != 58u8,
    ensures
        wire_reference_spec(string_bytes(r.spelling_view()), (spec_owner_depth(r.spec_kind()) + 1) as u8, true)
            matches Ok((ns, kp)) && ns == match r.namespace_view() {
            Some(n) => Some(string_bytes(n)),
            None => None::<Seq<u8>>,
        } && split_components(kp) == component_bytes(r),
{
    let bs = component_bytes(r);
    let keys = r.owner_key_strings();
    let depth = spec_owner_depth(r.spec_kind());
    let n = bs.len();
    // The components are valid tokens within the component bound.
    assert(saturating_u8(keys.len()) == depth);
    assert(depth <= 3);
    assert(keys.len() == depth);
    assert(n == depth + 1);
    assert forall|p: int| 0 <= p < n implies token_violation_spec(#[trigger] bs[p], u64::MAX, true) is None by {
        if p < keys.len() {
            assert(r.components_view()[p] == keys[p]@);
            if !identity_token_valid(keys[p]@) {
                assert(has_bad_key(keys));
            }
        } else {
            assert(r.components_view()[p] == r.local_key_view());
        }
    }
    assert forall|p: int| 0 <= p < n implies component_valid(#[trigger] bs[p]) by {
        assert(string_bytes(r.components_view()[p]).len() <= MAX_COMPONENT_BYTES);
        lemma_token_within_bound(bs[p], MAX_COMPONENT_BYTES);
    }
    assert forall|p: int| 0 <= p < n implies !has_double_colon(#[trigger] bs[p]) by {
        lemma_token_has_no_separator(bs[p]);
    }
    assert forall|p: int, k: int| 0 <= p < n && 0 <= k < bs[p].len() implies #[trigger] bs[p][k] != 62 by {
        lemma_token_has_no_separator(bs[p]);
    }
    // The key path splits back and passes the key-path check.
    let j = join(bs, 62u8);
    lemma_split_join(bs);
    lemma_join_no_double_colon(bs);
    lemma_join_len(bs, 62u8);
    assert forall|p: int| 0 <= p < n implies (#[trigger] bs[p]).len() <= 53nat by {
        assert(string_bytes(r.components_view()[p]).len() <= MAX_COMPONENT_BYTES);
    }
    lemma_pieces_len_bound(bs, 53);
    assert(j.len() <= 215);
    assert(!has_bad_component(split_components(j)));
    assert(saturating_u8(split_components(j).len()) == (depth + 1) as u8);
    assert(key_path_spec(j, (depth + 1) as u8) == Ok::<(), RoadEditingInputViolation>(()));
    lemma_spelling_bytes(r);
    match r.namespace_view() {
        None => {
            assert(string_bytes(r.spelling_view()) == j);
        },
        Some(ns) => {
            let nb = string_bytes(ns);
            let sp = string_bytes(r.spelling_view());
            assert(sp == nb + seq![58u8, 58u8] + j);
            assert(token_violation_spec(nb, u64::MAX, true) is None);
            lemma_token_has_no_separator(nb);
            lemma_valid_token_ascii(nb, u64::MAX, true);
            let i = nb.len() as int;
            assert(sp[i] == 58 && sp[i + 1] == 58);
            assert forall|q: int| 0 <= q < i implies !(#[trigger] sp[q] == 58 && sp[q + 1] == 58) by {
                assert(sp[q] == nb[q]);
                if q + 1 < i {
                    assert(sp[q + 1] == nb[q + 1]);
                } else {
                    assert(sp[q] == nb.last());
                }
            }
            lemma_first_double_colon_unique(sp, i);
            assert(sp.take(i) =~= nb);
            assert(sp.skip(i + 2) =~= j);
            lemma_token_within_bound(nb, MAX_COMPONENT_BYTES);
        },
    }
}

} // verus!
