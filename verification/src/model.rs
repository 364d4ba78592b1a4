//! The first-party road-editing authoring model: module headers, provenance
//! and the checked declaration inputs whose values are not measurements.

use vstd::prelude::*;
use vstd::string::StringExecFns;
use vstd::string::StringSliceAdditionalSpecFns;

use crate::declaration::{
    facility_kind_category, facility_kind_category_spec, EntityKind, FacilityKindCategory,
    MAX_PORTABLE_SIGNAL_TIME_MS,
};
use crate::diagnostic::{DiagnosticBundle, RoadEditingInputViolation, SourceTextViolation};
use crate::fmt::{decimal, indexed_field};
use crate::reference::RoadEditingReference;
use crate::rules::{
    input_error, require_non_empty, require_unique_strings, strings_unique, validate_non_empty_text,
    validate_token, validate_visible_ascii,
};
use crate::text::{string_bytes, token_violation_spec, visible_ascii_violation_spec};

verus! {

/// Build identifier frozen for directly authored modules.
pub const DIRECT_GENERATOR_BUILD_ID: &'static str = "laneflow-road-editing-direct-v1";

/// Frozen parameters-and-inputs digest of directly authored modules.
pub fn direct_inputs_digest() -> (r: [u8; 32])
    ensures
        r == spec_direct_inputs_digest(),
{
    [
        0x6b, 0x27, 0xd0, 0xf7, 0x66, 0x93, 0xbc, 0xd3, 0x86, 0xac, 0x13, 0xdf, 0x72, 0x4e, 0x30,
        0xf5, 0xfb, 0x5a, 0xd3, 0xb9, 0xa1, 0x52, 0xa5, 0xe1, 0xf8, 0x8d, 0xe1, 0xa6, 0x24, 0xce,
        0xa8, 0xaa,
    ]
}

/// The frozen parameters-and-inputs digest of directly authored modules.
pub open spec fn spec_direct_inputs_digest() -> [u8; 32] {
    [
        0x6b, 0x27, 0xd0, 0xf7, 0x66, 0x93, 0xbc, 0xd3, 0x86, 0xac, 0x13, 0xdf, 0x72, 0x4e, 0x30,
        0xf5, 0xfb, 0x5a, 0xd3, 0xb9, 0xa1, 0x52, 0xa5, 0xe1, 0xf8, 0x8d, 0xe1, 0xa6, 0x24, 0xce,
        0xa8, 0xaa,
    ]
}

/// Frozen front-end options digest of directly authored modules.
pub fn direct_frontend_options_digest() -> (r: [u8; 32])
    ensures
        r == spec_direct_frontend_options_digest(),
{
    [
        0xb1, 0x62, 0x1e, 0x4a, 0x2d, 0xb8, 0xd7, 0x17, 0xb6, 0x50, 0x6b, 0x0a, 0xfb, 0x6f, 0xef,
        0x5b, 0xd4, 0xd5, 0x15, 0x6e, 0xcf, 0xe8, 0x87, 0xc5, 0xab, 0xf3, 0x6d, 0x08, 0x86, 0x9c,
        0x78, 0x92,
    ]
}

/// The frozen front-end options digest of directly authored modules.
pub open spec fn spec_direct_frontend_options_digest() -> [u8; 32] {
    [
        0xb1, 0x62, 0x1e, 0x4a, 0x2d, 0xb8, 0xd7, 0x17, 0xb6, 0x50, 0x6b, 0x0a, 0xfb, 0x6f, 0xef,
        0x5b, 0xd4, 0xd5, 0x15, 0x6e, 0xcf, 0xe8, 0x87, 0xc5, 0xab, 0xf3, 0x6d, 0x08, 0x86, 0x9c,
        0x78, 0x92,
    ]
}

/// The identity-token check of `s` reported at `field`.
pub open spec fn token_check(s: Seq<u8>, field: Seq<char>) -> Option<(Seq<char>, RoadEditingInputViolation)> {
    match token_violation_spec(s, u64::MAX, true) {
        Some(v) => Some((field, v)),
        None => None,
    }
}

/// The first failing check of `a` then `b`.
pub open spec fn then_check(
    a: Option<(Seq<char>, RoadEditingInputViolation)>,
    b: Option<(Seq<char>, RoadEditingInputViolation)>,
) -> Option<(Seq<char>, RoadEditingInputViolation)> {
    if a is Some {
        a
    } else {
        b
    }
}

/// A failing check reported as `violation` at `field` when `failed`.
pub open spec fn fails_if(failed: bool, field: Seq<char>, violation: RoadEditingInputViolation) -> Option<
    (Seq<char>, RoadEditingInputViolation),
> {
    if failed {
        Some((field, violation))
    } else {
        None
    }
}

/// `r` failed with the input error of `check`.
pub open spec fn failed_with<T>(
    r: Result<T, DiagnosticBundle>,
    check: (Seq<char>, RoadEditingInputViolation),
) -> bool {
    r matches Err(b) && b.is_input_error(check.0, check.1)
}

/// Validates a canvas selection key (an identity token).
pub fn validated_canvas(value: &str) -> (r: Result<String, DiagnosticBundle>)
    ensures
        match token_check(value.spec_bytes(), "canvasSelection"@) {
            None => r matches Ok(s) && s@ == value@,
            Some(c) => failed_with(r, c),
        },
{
    validate_token(value, "canvasSelection")?;
    Ok(String::from_str(value))
}

/// A road alignment key of the current module (not a stable identity).
#[derive(Clone, Debug, PartialEq, Eq, PartialOrd, Ord, Hash)]
pub struct RoadAlignmentReference {
    key: String,
}

impl RoadAlignmentReference {
    pub closed spec fn key_view(&self) -> Seq<char> {
        self.key@
    }

    /// A road alignment reference with a valid token key.
    pub fn try_new(key: &str) -> (r: Result<Self, DiagnosticBundle>)
        ensures
            match token_check(key.spec_bytes(), "roadAlignmentReference"@) {
                None => r matches Ok(v) && v.key_view() == key@,
                Some(c) => failed_with(r, c),
            },
    {
        validate_token(key, "roadAlignmentReference")?;
        Ok(RoadAlignmentReference { key: String::from_str(key) })
    }

    /// The alignment key.
    pub fn key(&self) -> (r: &str)
        ensures
            r@ == self.key_view(),
    {
        self.key.as_str()
    }
}

/// How a module came to be.
#[derive(Clone, Copy, Debug, PartialEq, Eq, Structural, PartialOrd, Ord, Hash)]
pub enum RoadEditingProvenanceKind {
    Direct,
    Generated,
}

/// First-party provenance of a road-editing module.
#[derive(Clone, Debug, PartialEq, Eq)]
pub struct RoadEditingProvenance {
    kind: RoadEditingProvenanceKind,
    generator_build_id: String,
    parameters_and_inputs_digest: [u8; 32],
    frontend_options_digest: [u8; 32],
    random_seed: Option<u64>,
    description: String,
}

impl RoadEditingProvenance {
    pub closed spec fn spec_kind(&self) -> RoadEditingProvenanceKind {
        self.kind
    }

    pub closed spec fn build_id_view(&self) -> Seq<char> {
        self.generator_build_id@
    }

    pub closed spec fn inputs_digest(&self) -> [u8; 32] {
        self.parameters_and_inputs_digest
    }

    pub closed spec fn options_digest(&self) -> [u8; 32] {
        self.frontend_options_digest
    }

    pub closed spec fn seed(&self) -> Option<u64> {
        self.random_seed
    }

    pub closed spec fn description_view(&self) -> Seq<char> {
        self.description@
    }

    /// Direct provenance with the frozen build identifier and digests.
    pub fn direct(description: &str) -> (r: Result<Self, DiagnosticBundle>)
        ensures
            match visible_ascii_violation_spec(description.spec_bytes(), u64::MAX) {
                None => r matches Ok(p) && p.spec_kind() == RoadEditingProvenanceKind::Direct
                    && p.build_id_view() == DIRECT_GENERATOR_BUILD_ID@ && p.inputs_digest()
                    == spec_direct_inputs_digest() && p.options_digest()
                    == spec_direct_frontend_options_digest() && p.seed() is None
                    && p.description_view() == description@,
                Some(v) => failed_with(r, ("provenance.description"@, v)),
            },
    {
        validate_visible_ascii(description, "provenance.description")?;
        Ok(RoadEditingProvenance {
            kind: RoadEditingProvenanceKind::Direct,
            generator_build_id: String::from_str(DIRECT_GENERATOR_BUILD_ID),
            parameters_and_inputs_digest: direct_inputs_digest(),
            frontend_options_digest: direct_frontend_options_digest(),
            random_seed: None,
            description: String::from_str(description),
        })
    }

    /// Generated provenance: the build identifier is a token, the description
    /// visible ASCII; digests and the seed are kept as given.
    pub fn generated(
        generator_build_id: &str,
        parameters_and_inputs_digest: [u8; 32],
        frontend_options_digest: [u8; 32],
        random_seed: Option<u64>,
        description: &str,
    ) -> (r: Result<Self, DiagnosticBundle>)
        ensures
            match then_check(
                token_check(generator_build_id.spec_bytes(), "provenance.generatorBuildId"@),
                match visible_ascii_violation_spec(description.spec_bytes(), u64::MAX) {
                    Some(v) => Some(("provenance.description"@, v)),
                    None => None,
                },
            ) {
                None => r matches Ok(p) && p.spec_kind() == RoadEditingProvenanceKind::Generated
                    && p.build_id_view() == generator_build_id@ && p.inputs_digest()
                    == parameters_and_inputs_digest && p.options_digest() == frontend_options_digest
                    && p.seed() == random_seed && p.description_view() == description@,
                Some(c) => failed_with(r, c),
            },
    {
        validate_token(generator_build_id, "provenance.generatorBuildId")?;
        validate_visible_ascii(description, "provenance.description")?;
        Ok(RoadEditingProvenance {
            kind: RoadEditingProvenanceKind::Generated,
            generator_build_id: String::from_str(generator_build_id),
            parameters_and_inputs_digest,
            frontend_options_digest,
            random_seed,
            description: String::from_str(description),
        })
    }

    /// The provenance kind.
    pub fn kind(&self) -> (r: RoadEditingProvenanceKind)
        ensures
            r == self.spec_kind(),
    {
        self.kind
    }

    /// The generator build identifier.
    pub fn generator_build_id(&self) -> (r: &str)
        ensures
            r@ == self.build_id_view(),
    {
        self.generator_build_id.as_str()
    }

    /// The parameters-and-inputs digest.
    pub fn parameters_and_inputs_digest(&self) -> (r: &[u8; 32])
        ensures
            *r == self.inputs_digest(),
    {
        &self.parameters_and_inputs_digest
    }

    /// The front-end options digest.
    pub fn frontend_options_digest(&self) -> (r: &[u8; 32])
        ensures
            *r == self.options_digest(),
    {
        &self.frontend_options_digest
    }

    /// The optional random seed.
    pub fn random_seed(&self) -> (r: Option<u64>)
        ensures
            r == self.seed(),
    {
        self.random_seed
    }

    /// The description text.
    pub fn description(&self) -> (r: &str)
        ensures
            r@ == self.description_view(),
    {
        self.description.as_str()
    }
}

/// `import` is a valid token different from the module's own namespace.
pub open spec fn import_ok(import: Seq<char>, namespace: Seq<char>) -> bool {
    token_violation_spec(string_bytes(import), u64::MAX, true) is None && import != namespace
}

/// `k` is the first import that is not a valid token other than `namespace`.
pub open spec fn is_first_bad_import(imports: Seq<String>, namespace: Seq<char>, k: int) -> bool {
    &&& 0 <= k < imports.len()
    &&& !import_ok(imports[k]@, namespace)
    &&& forall|j: int| 0 <= j < k ==> import_ok(#[trigger] imports[j]@, namespace)
}

/// Some import is not a valid token other than `namespace`.
pub open spec fn has_bad_import(imports: Seq<String>, namespace: Seq<char>) -> bool {
    exists|k: int| 0 <= k < imports.len() && !import_ok(#[trigger] imports[k]@, namespace)
}

/// The position of the first bad import.
pub open spec fn first_bad_import(imports: Seq<String>, namespace: Seq<char>) -> int {
    choose|k: int| is_first_bad_import(imports, namespace, k)
}

proof fn lemma_first_bad_import_unique(imports: Seq<String>, namespace: Seq<char>, k: int)
    requires
        is_first_bad_import(imports, namespace, k),
    ensures
        has_bad_import(imports, namespace),
        first_bad_import(imports, namespace) == k,
{
    assert(!import_ok(imports[k]@, namespace));
    let m = first_bad_import(imports, namespace);
    assert(is_first_bad_import(imports, namespace, m));
    if m < k {
        assert(import_ok(imports[m]@, namespace));
    }
    if k < m {
        assert(import_ok(imports[k]@, namespace));
    }
}

/// The error of the first bad import: its token violation at its indexed field,
/// or a self-import.
pub open spec fn import_error(imports: Seq<String>, namespace: Seq<char>) -> (
    Seq<char>,
    RoadEditingInputViolation,
) {
    let k = first_bad_import(imports, namespace);
    match token_violation_spec(string_bytes(imports[k]@), u64::MAX, true) {
        Some(v) => ("moduleHeader.imports"@ + "["@ + decimal(k as nat) + "]"@, v),
        None => ("moduleHeader.imports"@, RoadEditingInputViolation::InvalidCombination),
    }
}

/// The checks of a module header, in order.
pub open spec fn module_header_check(
    namespace: Seq<u8>,
    namespace_chars: Seq<char>,
    document_key: Seq<u8>,
    imports: Seq<String>,
) -> Option<(Seq<char>, RoadEditingInputViolation)> {
    then_check(
        token_check(namespace, "moduleHeader.authoringNamespaceId"@),
        then_check(
            token_check(document_key, "moduleHeader.sourceDocumentKey"@),
            if has_bad_import(imports, namespace_chars) {
                Some(import_error(imports, namespace_chars))
            } else {
                fails_if(
                    !strings_unique(imports),
                    "moduleHeader.imports"@,
                    RoadEditingInputViolation::DuplicateValue,
                )
            },
        ),
    )
}

/// A road-editing module header.
#[derive(Clone, Debug, PartialEq, Eq)]
pub struct RoadEditingModuleHeader {
    authoring_namespace_id: String,
    source_document_key: String,
    imports: Vec<String>,
    provenance: RoadEditingProvenance,
}

impl RoadEditingModuleHeader {
    pub closed spec fn namespace_view(&self) -> Seq<char> {
        self.authoring_namespace_id@
    }

    pub closed spec fn document_key_view(&self) -> Seq<char> {
        self.source_document_key@
    }

    pub closed spec fn import_strings(&self) -> Seq<String> {
        self.imports@
    }

    pub closed spec fn spec_provenance(&self) -> RoadEditingProvenance {
        self.provenance
    }

    /// Checks the namespace, the document key and the import list (valid
    /// tokens, no self import, no duplicate).
    pub fn try_new(
        authoring_namespace_id: &str,
        source_document_key: &str,
        imports: Vec<String>,
        provenance: RoadEditingProvenance,
    ) -> (r: Result<Self, DiagnosticBundle>)
        ensures
            match module_header_check(
                authoring_namespace_id.spec_bytes(),
                authoring_namespace_id@,
                source_document_key.spec_bytes(),
                imports@,
            ) {
                None => r matches Ok(h) && h.namespace_view() == authoring_namespace_id@
                    && h.document_key_view() == source_document_key@ && h.import_strings()
                    == imports@ && h.spec_provenance() == provenance,
                Some(c) => failed_with(r, c),
            },
    {
        validate_token(authoring_namespace_id, "moduleHeader.authoringNamespaceId")?;
        validate_token(source_document_key, "moduleHeader.sourceDocumentKey")?;
        let namespace = String::from_str(authoring_namespace_id);
        let mut index: usize = 0;
        while index < imports.len()
            invariant
                index <= imports@.len(),
                namespace@ == authoring_namespace_id@,
                token_violation_spec(authoring_namespace_id.spec_bytes(), u64::MAX, true) is None,
                token_violation_spec(source_document_key.spec_bytes(), u64::MAX, true) is None,
                forall|j: int| 0 <= j < index ==> import_ok(#[trigger] imports@[j]@, namespace@),
            decreases imports@.len() - index,
        {
            let import = &imports[index];
            if let Err(e) = validate_token(import.as_str(), indexed_field("moduleHeader.imports", index as u64).as_str()) {
                proof {
                    lemma_first_bad_import_unique(imports@, namespace@, index as int);
                }
                return Err(e);
            }
            if *import == namespace {
                proof {
                    lemma_first_bad_import_unique(imports@, namespace@, index as int);
                }
                return Err(input_error("moduleHeader.imports", RoadEditingInputViolation::InvalidCombination));
            }
            index = index + 1;
        }
        require_unique_strings(imports.as_slice(), "moduleHeader.imports")?;
        Ok(RoadEditingModuleHeader {
            authoring_namespace_id: namespace,
            source_document_key: String::from_str(source_document_key),
            imports,
            provenance,
        })
    }

    /// The authoring namespace.
    pub fn authoring_namespace_id(&self) -> (r: &str)
        ensures
            r@ == self.namespace_view(),
    {
        self.authoring_namespace_id.as_str()
    }

    /// The source document key.
    pub fn source_document_key(&self) -> (r: &str)
        ensures
            r@ == self.document_key_view(),
    {
        self.source_document_key.as_str()
    }

    /// The explicitly imported namespaces, in declaration order.
    pub fn imports(&self) -> (r: &[String])
        ensures
            r@ == self.import_strings(),
    {
        self.imports.as_slice()
    }

    /// The module provenance.
    pub fn provenance(&self) -> (r: &RoadEditingProvenance)
        ensures
            *r == self.spec_provenance(),
    {
        &self.provenance
    }
}

/// Driving direction of an authoring lane relative to its alignment.
#[derive(Clone, Copy, Debug, PartialEq, Eq, Structural, PartialOrd, Ord, Hash)]
pub enum RoadEditingLaneDirection {
    Forward,
    Backward,
}

/// A signal group that a fixed-time controller can drive.
#[derive(Clone, Debug, PartialEq, Eq)]
pub struct SignalGroupInput {
    signal_group_key: String,
    canvas_selection: Option<String>,
}

impl SignalGroupInput {
    pub closed spec fn key_view(&self) -> Seq<char> {
        self.signal_group_key@
    }

    pub closed spec fn canvas_view(&self) -> Option<Seq<char>> {
        match &self.canvas_selection {
            Some(c) => Some(c@),
            None => None,
        }
    }

    /// A signal group declaration with a valid token key.
    pub fn try_new(signal_group_key: &str) -> (r: Result<Self, DiagnosticBundle>)
        ensures
            match token_check(signal_group_key.spec_bytes(), "signalGroup.signalGroupKey"@) {
                None => r matches Ok(v) && v.key_view() == signal_group_key@ && v.canvas_view() is None,
                Some(c) => failed_with(r, c),
            },
    {
        validate_token(signal_group_key, "signalGroup.signalGroupKey")?;
        Ok(SignalGroupInput { signal_group_key: String::from_str(signal_group_key), canvas_selection: None })
    }

    /// The signal group key.
    pub fn signal_group_key(&self) -> (r: &str)
        ensures
            r@ == self.key_view(),
    {
        self.signal_group_key.as_str()
    }

    /// Sets the canvas selection key.
    pub fn with_canvas_selection(self, canvas_selection: &str) -> (r: Result<Self, DiagnosticBundle>)
        ensures
            match token_check(canvas_selection.spec_bytes(), "canvasSelection"@) {
                None => r matches Ok(v) && v.key_view() == self.key_view() && v.canvas_view()
                    == Some(canvas_selection@),
                Some(c) => failed_with(r, c),
            },
    {
        let canvas = validated_canvas(canvas_selection)?;
        Ok(SignalGroupInput { canvas_selection: Some(canvas), ..self })
    }

    /// The optional canvas selection key.
    pub fn canvas_selection(&self) -> (r: Option<&str>)
        ensures
            r is Some <==> self.canvas_view() is Some,
            r matches Some(c) ==> c@ == self.canvas_view()->0,
    {
        match &self.canvas_selection {
            Some(c) => Some(c.as_str()),
            None => None,
        }
    }
}

/// A canonical coordinate frame declaration.
#[derive(Clone, Debug, PartialEq, Eq)]
pub struct CanonicalFrameInput {
    canonical_frame_key: String,
    canvas_selection: Option<String>,
}

impl CanonicalFrameInput {
    pub closed spec fn key_view(&self) -> Seq<char> {
        self.canonical_frame_key@
    }

    pub closed spec fn canvas_view(&self) -> Option<Seq<char>> {
        match &self.canvas_selection {
            Some(c) => Some(c@),
            None => None,
        }
    }

    /// A canonical frame declaration with a valid token key.
    pub fn try_new(canonical_frame_key: &str) -> (r: Result<Self, DiagnosticBundle>)
        ensures
            match token_check(canonical_frame_key.spec_bytes(), "canonicalFrame.canonicalFrameKey"@) {
                None => r matches Ok(v) && v.key_view() == canonical_frame_key@ && v.canvas_view() is None,
                Some(c) => failed_with(r, c),
            },
    {
        validate_token(canonical_frame_key, "canonicalFrame.canonicalFrameKey")?;
        Ok(CanonicalFrameInput {
            canonical_frame_key: String::from_str(canonical_frame_key),
            canvas_selection: None,
        })
    }

    /// The canonical frame key.
    pub fn canonical_frame_key(&self) -> (r: &str)
        ensures
            r@ == self.key_view(),
    {
        self.canonical_frame_key.as_str()
    }

    /// Sets the canvas selection key.
    pub fn with_canvas_selection(self, canvas_selection: &str) -> (r: Result<Self, DiagnosticBundle>)
        ensures
            match token_check(canvas_selection.spec_bytes(), "canvasSelection"@) {
                None => r matches Ok(v) && v.key_view() == self.key_view() && v.canvas_view()
                    == Some(canvas_selection@),
                Some(c) => failed_with(r, c),
            },
    {
        let canvas = validated_canvas(canvas_selection)?;
        Ok(CanonicalFrameInput { canvas_selection: Some(canvas), ..self })
    }

    /// The optional canvas selection key.
    pub fn canvas_selection(&self) -> (r: Option<&str>)
        ensures
            r is Some <==> self.canvas_view() is Some,
            r matches Some(c) ==> c@ == self.canvas_view()->0,
    {
        match &self.canvas_selection {
            Some(c) => Some(c.as_str()),
            None => None,
        }
    }
}

} // verus!
