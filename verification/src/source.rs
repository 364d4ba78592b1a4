//! Checked construction of synthetic source-module headers.
//!
//! The caller supplies descriptive header metadata without any content digest;
//! every safely checkable field is validated, all violations are reported
//! together, and only a fully valid header takes ownership of its strings.

use vstd::prelude::*;
use vstd::string::StringSliceAdditionalSpecFns;
use vstd::string::StringExecFns;

use crate::diagnostic::{
    kept_candidates, Diagnostic, DiagnosticBundle, DiagnosticCollector, DiagnosticPayload,
    SourceHeaderField, SourceTextViolation,
};
use crate::limits::{CompileLimitDimension, CompileLimits, IDENTITY_ASCII_BYTES};
use crate::text::{
    common_text_violation, common_text_violation_spec, external_token_violation,
    external_token_violation_spec, first_failure, first_invisible_byte, has_failure, visible_pred,
};

verus! {

/// Caller-provided header of a synthetic source module, copied only on success.
#[derive(Clone, Copy, Debug)]
pub struct SourceModuleHeaderInput<'a> {
    /// Stable ASCII namespace owning the module's declarations.
    pub authoring_namespace_id: &'a str,
    /// Stable, machine-path-free source document key.
    pub source_document_key: &'a str,
    /// Build identifier of the generating front end.
    pub generator_build_id: &'a str,
    /// Digest of call parameters and external inputs (not a content digest).
    pub parameters_and_inputs_digest: [u8; 32],
    /// Digest of the front-end options (not a content digest).
    pub frontend_options_digest: [u8; 32],
    /// Random seed used by the generator, if any.
    pub random_seed: Option<u64>,
    /// Visible ASCII provenance note.
    pub provenance: &'a str,
}

/// A validated header owned by the compiler.
pub struct SourceModuleHeader {
    authoring_namespace_id: String,
    source_document_key: String,
    generator_build_id: String,
    parameters_and_inputs_digest: [u8; 32],
    frontend_options_digest: [u8; 32],
    random_seed: Option<u64>,
    provenance: String,
}

/// The visible-text rule of header metadata: the common text rule, then the
/// first byte that is neither graphic ASCII nor space is a control byte.
pub open spec fn header_visible_violation_spec(s: Seq<u8>, limit: u64) -> Option<SourceTextViolation> {
    match common_text_violation_spec(s, limit) {
        Some(v) => Some(v),
        None => if has_failure(s, visible_pred()) {
            Some(
                SourceTextViolation::ControlByte {
                    byte_index: first_failure(s, visible_pred()) as u64,
                    byte: s[first_failure(s, visible_pred())],
                },
            )
        } else {
            None
        },
    }
}

/// `a + b`, or `u64::MAX` when the sum does not fit.
pub open spec fn capped_sum(total: int) -> u64 {
    if total > u64::MAX {
        u64::MAX
    } else {
        total as u64
    }
}

/// The diagnostic of one header field, if the field violates its rule.
pub open spec fn field_candidate(field: SourceHeaderField, v: Option<SourceTextViolation>) -> Seq<
    Diagnostic,
> {
    match v {
        Some(violation) => seq![
            Diagnostic {
                payload: DiagnosticPayload::InvalidSourceHeaderField { field, violation },
            },
        ],
        None => seq![],
    }
}

/// The limit diagnostic of one dimension, if `observed` is above its bound.
pub open spec fn limit_candidate(
    limits: CompileLimits,
    dimension: CompileLimitDimension,
    observed: u64,
) -> Seq<Diagnostic> {
    if observed > limits.spec_value(dimension) {
        seq![
            Diagnostic {
                payload: DiagnosticPayload::CompileLimitExceeded {
                    dimension,
                    limit: limits.spec_value(dimension),
                    observed,
                },
            },
        ]
    } else {
        seq![]
    }
}

/// Every violation of a header input, in checking order.
pub open spec fn header_candidates(input: SourceModuleHeaderInput, limits: CompileLimits) -> Seq<
    Diagnostic,
> {
    let namespace = input.authoring_namespace_id.spec_bytes();
    let key = input.source_document_key.spec_bytes();
    let build = input.generator_build_id.spec_bytes();
    let provenance = input.provenance.spec_bytes();
    let single = limits.spec_value(CompileLimitDimension::SingleStringBytes);
    field_candidate(
        SourceHeaderField::AuthoringNamespaceId,
        external_token_violation_spec(namespace, IDENTITY_ASCII_BYTES),
    ) + field_candidate(
        SourceHeaderField::SourceDocumentKey,
        external_token_violation_spec(key, single),
    ) + field_candidate(
        SourceHeaderField::GeneratorBuildId,
        header_visible_violation_spec(build, single),
    ) + field_candidate(
        SourceHeaderField::Provenance,
        header_visible_violation_spec(provenance, single),
    ) + limit_candidate(limits, CompileLimitDimension::StringItemCount, 2) + limit_candidate(
        limits,
        CompileLimitDimension::TotalStringBytes,
        capped_sum(namespace.len() + key.len() as int),
    ) + limit_candidate(
        limits,
        CompileLimitDimension::CompilerControlledLiveBytes,
        capped_sum(namespace.len() + key.len() + build.len() + provenance.len() as int),
    )
}

impl SourceModuleHeader {
    pub closed spec fn namespace_view(&self) -> Seq<char> {
        self.authoring_namespace_id@
    }

    pub closed spec fn document_key_view(&self) -> Seq<char> {
        self.source_document_key@
    }

    pub closed spec fn build_id_view(&self) -> Seq<char> {
        self.generator_build_id@
    }

    pub closed spec fn provenance_view(&self) -> Seq<char> {
        self.provenance@
    }

    pub closed spec fn inputs_digest(&self) -> [u8; 32] {
        self.parameters_and_inputs_digest
    }

    pub closed spec fn options_digest(&self) -> [u8; 32] {
        self.frontend_options_digest
    }

    pub closed spec fn seed(&self) -> Option<u64> {
        self.random_seed
    }

    /// Validates and atomically copies the non-content fields of a synthetic
    /// source module. All checkable fields contribute diagnostics, in checking
    /// order, up to the diagnostic count limit; nothing is copied on failure.
    pub fn new(input: SourceModuleHeaderInput<'_>, limits: &CompileLimits) -> (r: Result<
        Self,
        DiagnosticBundle,
    >)
        ensures
            r is Ok <==> header_candidates(input, *limits).len() == 0,
            r matches Ok(h) ==> {
                &&& h.namespace_view() == input.authoring_namespace_id@
                &&& h.document_key_view() == input.source_document_key@
                &&& h.build_id_view() == input.generator_build_id@
                &&& h.provenance_view() == input.provenance@
                &&& h.inputs_digest() == input.parameters_and_inputs_digest
                &&& h.options_digest() == input.frontend_options_digest
                &&& h.seed() == input.random_seed
            },
            r matches Err(b) ==> {
                &&& b.diagnostics@ == kept_candidates(
                    header_candidates(input, *limits),
                    limits.diagnostic_count,
                )
                &&& b.truncated == (header_candidates(input, *limits).len()
                    > limits.diagnostic_count)
            },
    {
        let mut diagnostics = DiagnosticCollector::new(
            limits.value(CompileLimitDimension::DiagnosticCount),
        );
        let single_string_limit = limits.value(CompileLimitDimension::SingleStringBytes);

        validate_external_token(
            input.authoring_namespace_id,
            SourceHeaderField::AuthoringNamespaceId,
            limits.identity_ascii_bytes_limit(),
            &mut diagnostics,
        );
        validate_external_token(
            input.source_document_key,
            SourceHeaderField::SourceDocumentKey,
            single_string_limit,
            &mut diagnostics,
        );
        validate_visible_ascii(
            input.generator_build_id,
            SourceHeaderField::GeneratorBuildId,
            single_string_limit,
            &mut diagnostics,
        );
        validate_visible_ascii(
            input.provenance,
            SourceHeaderField::Provenance,
            single_string_limit,
            &mut diagnostics,
        );

        // Only the namespace and the document key count as interned strings;
        // the build identifier and provenance still count as live bytes.
        let string_item_count: u64 = 2;
        check_limit(limits, CompileLimitDimension::StringItemCount, string_item_count, &mut diagnostics);
        let namespace_len = input.authoring_namespace_id.as_bytes().len() as u64;
        let key_len = input.source_document_key.as_bytes().len() as u64;
        let build_len = input.generator_build_id.as_bytes().len() as u64;
        let provenance_len = input.provenance.as_bytes().len() as u64;
        let ghost n = namespace_len as int;
        let ghost k = key_len as int;
        let ghost g = build_len as int;
        let total_string_bytes = capped_add(capped_add(0, namespace_len, Ghost(0)), key_len, Ghost(n));
        check_limit(limits, CompileLimitDimension::TotalStringBytes, total_string_bytes, &mut diagnostics);
        let controlled_live_bytes = capped_add(
            capped_add(
                capped_add(capped_add(0, namespace_len, Ghost(0)), key_len, Ghost(n)),
                build_len,
                Ghost(n + k),
            ),
            provenance_len,
            Ghost(n + k + g),
        );
        check_limit(
            limits,
            CompileLimitDimension::CompilerControlledLiveBytes,
            controlled_live_bytes,
            &mut diagnostics,
        );
        proof {
            assert(0u64 == capped_sum(0));
            let ns = input.authoring_namespace_id.spec_bytes();
            let ks = input.source_document_key.spec_bytes();
            let bs = input.generator_build_id.spec_bytes();
            let ps = input.provenance.spec_bytes();
            assert(namespace_len == ns.len());
            assert(total_string_bytes == capped_sum(ns.len() + ks.len() as int));
            assert(controlled_live_bytes == capped_sum(ns.len() + ks.len() + bs.len() + ps.len() as int));
            assert(diagnostics.candidates() =~= header_candidates(input, *limits));
        }

        if !diagnostics.is_empty() {
            return Err(diagnostics.finish());
        }

        Ok(SourceModuleHeader {
            authoring_namespace_id: String::from_str(input.authoring_namespace_id),
            source_document_key: String::from_str(input.source_document_key),
            generator_build_id: String::from_str(input.generator_build_id),
            parameters_and_inputs_digest: input.parameters_and_inputs_digest,
            frontend_options_digest: input.frontend_options_digest,
            random_seed: input.random_seed,
            provenance: String::from_str(input.provenance),
        })
    }

    /// The namespace used by declaration identities.
    pub fn authoring_namespace_id(&self) -> (r: &str)
        ensures
            r@ == self.namespace_view(),
    {
        self.authoring_namespace_id.as_str()
    }

    /// The machine-path-free source document key.
    pub fn source_document_key(&self) -> (r: &str)
        ensures
            r@ == self.document_key_view(),
    {
        self.source_document_key.as_str()
    }

    /// The generator build identifier.
    pub fn generator_build_id(&self) -> (r: &str)
        ensures
            r@ == self.build_id_view(),
    {
        self.generator_build_id.as_str()
    }

    /// The registered parameters-and-inputs digest (not a content digest).
    pub fn parameters_and_inputs_digest(&self) -> (r: &[u8; 32])
        ensures
            *r == self.inputs_digest(),
    {
        &self.parameters_and_inputs_digest
    }

    /// The registered front-end options digest (not a content digest).
    pub fn frontend_options_digest(&self) -> (r: &[u8; 32])
        ensures
            *r == self.options_digest(),
    {
        &self.frontend_options_digest
    }

    /// The registered random seed.
    pub fn random_seed(&self) -> (r: Option<u64>)
        ensures
            r == self.seed(),
    {
        self.random_seed
    }

    /// The provenance note.
    pub fn provenance(&self) -> (r: &str)
        ensures
            r@ == self.provenance_view(),
    {
        self.provenance.as_str()
    }
}

/// `total + value`, or `u64::MAX` once the running total no longer fits.
fn capped_add(total: u64, value: u64, Ghost(exact): Ghost<int>) -> (r: u64)
    requires
        exact >= 0,
        total == capped_sum(exact),
    ensures
        r == capped_sum(exact + value),
{
    match total.checked_add(value) {
        Some(t) => t,
        None => u64::MAX,
    }
}

fn check_limit(
    limits: &CompileLimits,
    dimension: CompileLimitDimension,
    observed: u64,
    diagnostics: &mut DiagnosticCollector,
)
    requires
        old(diagnostics).wf(),
    ensures
        final(diagnostics).wf(),
        final(diagnostics).spec_limit() == old(diagnostics).spec_limit(),
        final(diagnostics).candidates() == old(diagnostics).candidates() + limit_candidate(
            *limits,
            dimension,
            observed,
        ),
{
    let limit = limits.value(dimension);
    if observed > limit {
        diagnostics.push(Diagnostic::compile_limit_exceeded(dimension, limit, observed));
    }
    proof {
        assert(old(diagnostics).candidates() + seq![] =~= old(diagnostics).candidates());
    }
}

fn validate_external_token(
    value: &str,
    field: SourceHeaderField,
    limit: u64,
    diagnostics: &mut DiagnosticCollector,
)
    requires
        old(diagnostics).wf(),
    ensures
        final(diagnostics).wf(),
        final(diagnostics).spec_limit() == old(diagnostics).spec_limit(),
        final(diagnostics).candidates() == old(diagnostics).candidates() + field_candidate(
            field,
            external_token_violation_spec(value.spec_bytes(), limit),
        ),
{
    if let Some(violation) = external_token_violation(value, limit) {
        diagnostics.push(Diagnostic::invalid_source_header_field(field, violation));
    }
    proof {
        assert(old(diagnostics).candidates() + seq![] =~= old(diagnostics).candidates());
    }
}

fn validate_visible_ascii(
    value: &str,
    field: SourceHeaderField,
    limit: u64,
    diagnostics: &mut DiagnosticCollector,
)
    requires
        old(diagnostics).wf(),
    ensures
        final(diagnostics).wf(),
        final(diagnostics).spec_limit() == old(diagnostics).spec_limit(),
        final(diagnostics).candidates() == old(diagnostics).candidates() + field_candidate(
            field,
            header_visible_violation_spec(value.spec_bytes(), limit),
        ),
{
    proof {
        assert(old(diagnostics).candidates() + seq![] =~= old(diagnostics).candidates());
    }
    if let Some(violation) = common_text_violation(value, limit) {
        diagnostics.push(Diagnostic::invalid_source_header_field(field, violation));
        return;
    }
    if let Some((byte_index, byte)) = first_invisible_byte(value) {
        diagnostics.push(
            Diagnostic::invalid_source_header_field(
                field,
                SourceTextViolation::ControlByte { byte_index, byte },
            ),
        );
    }
}

} // verus!
