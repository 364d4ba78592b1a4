//! The first stage of the semantic preflight of a verified source: the module
//! header, its imports and provenance, and the geometry profiles, charged into
//! fresh usage counts before any declaration is read.

use vstd::prelude::*;
use vstd::string::StringSliceAdditionalSpecFns;

use crate::diagnostic::{DiagnosticBundle, RoadEditingInputViolation};
use crate::limits::{CompileLimitDimension, CompileLimits};
use crate::model::{
    direct_frontend_options_digest, direct_inputs_digest, spec_direct_frontend_options_digest,
    spec_direct_inputs_digest, DIRECT_GENERATOR_BUILD_ID,
};
use crate::preflight::{
    invalid_combination, scratch_restored, semantic_error, stage_reports, token_step, unique_need, RoadEditingPreflightCounts,
    StageFailure,
};
use crate::scratch::{limit_error, peak_lifted, scratch_request, PreflightScratch};
use crate::split::str_equal;
use crate::text::{token_violation_spec, visible_ascii_violation_spec};

verus! {

/// The provenance kinds a wire buffer can carry; values outside the schema
/// are kept as `Other`.
#[derive(Clone, Copy, Debug, PartialEq, Eq, Structural)]
pub enum WireProvenanceKind {
    Direct,
    Generated,
    Other(u8),
}

/// The geometry accuracy profiles a wire buffer can carry.
#[derive(Clone, Copy, Debug, PartialEq, Eq, Structural)]
pub enum WireAccuracyProfile {
    Fine2Cm,
    Balanced5Cm,
    Compact10Cm,
    Other(u8),
}

/// The geometry direction profiles a wire buffer can carry.
#[derive(Clone, Copy, Debug, PartialEq, Eq, Structural)]
pub enum WireDirectionProfile {
    Smooth1Deg,
    Balanced2Deg,
    Compact5Deg,
    Other(u8),
}

/// The provenance of a verified source, as read from the wire.
#[derive(Clone, Copy, Debug)]
pub struct ProvenanceLinks<'a> {
    pub kind: WireProvenanceKind,
    pub generator_build_id: &'a str,
    pub description: &'a str,
    pub parameters_and_inputs_digest: [u8; 32],
    pub frontend_options_digest: [u8; 32],
    pub random_seed: Option<u64>,
}

/// The module header of a verified source, as read from the wire, with the
/// root's geometry profiles.
#[derive(Clone, Debug)]
pub struct ModuleHeaderLinks<'a> {
    pub authoring_namespace_id: &'a str,
    pub source_document_key: &'a str,
    pub imports: Vec<&'a str>,
    pub provenance: ProvenanceLinks<'a>,
    pub geometry_accuracy_profile: WireAccuracyProfile,
    pub geometry_direction_profile: WireDirectionProfile,
}

/// Charges the imports in order: each is a token and not the module's own
/// namespace.
pub open spec fn charge_imports(
    c: RoadEditingPreflightCounts,
    imports: Seq<&str>,
    namespace: Seq<u8>,
    limit: u64,
) -> Result<RoadEditingPreflightCounts, StageFailure>
    decreases imports.len(),
{
    if imports.len() == 0 {
        Ok(c)
    } else {
        match charge_imports(c, imports.drop_last(), namespace, limit) {
            Err(f) => Err(f),
            Ok(c1) => match token_step(c1, imports.last().spec_bytes(), limit, "moduleHeader.imports"@) {
                Err(f) => Err(f),
                Ok(c2) => if imports.last().spec_bytes() == namespace {
                    Err(Err(("moduleHeader.imports"@, RoadEditingInputViolation::InvalidCombination)))
                } else {
                    Ok(c2)
                },
            },
        }
    }
}

/// Two imports have the same bytes.
pub open spec fn imports_repeat(imports: Seq<&str>) -> bool {
    exists|i: int, j: int| 0 <= i < j < imports.len() && imports[i].spec_bytes() == imports[j].spec_bytes()
}

/// Checks and charges the provenance.
pub open spec fn provenance_step(c: RoadEditingPreflightCounts, p: ProvenanceLinks, limit: u64) -> Result<
    RoadEditingPreflightCounts,
    StageFailure,
> {
    match token_step(c, p.generator_build_id.spec_bytes(), limit, "moduleHeader.provenance.generatorBuildId"@) {
        Err(f) => Err(f),
        Ok(c1) => match visible_ascii_violation_spec(p.description.spec_bytes(), limit) {
            Some(v) => Err(Err(("moduleHeader.provenance.description"@, v))),
            None => {
                let c2 = c1.with_string(p.description.spec_bytes().len() as int);
                match p.kind {
                    WireProvenanceKind::Direct => if p.generator_build_id.spec_bytes()
                        != DIRECT_GENERATOR_BUILD_ID.spec_bytes() || p.parameters_and_inputs_digest
                        != spec_direct_inputs_digest() || p.frontend_options_digest
                        != spec_direct_frontend_options_digest() || p.random_seed is Some {
                        Err(Err(("moduleHeader.provenance"@, RoadEditingInputViolation::InvalidCombination)))
                    } else {
                        Ok(c2)
                    },
                    WireProvenanceKind::Generated => Ok(c2),
                    WireProvenanceKind::Other(_) => Err(
                        Err(("moduleHeader.provenance.kind"@, RoadEditingInputViolation::InvalidCombination)),
                    ),
                }
            },
        },
    }
}

/// The counts at the start of a preflight: the module header is one record.
pub open spec fn header_start() -> RoadEditingPreflightCounts {
    RoadEditingPreflightCounts { typed_ast_record_count: 1, ..RoadEditingPreflightCounts::zero() }
}

/// The header stage after the imports were found distinct: each import, the
/// provenance, then the two geometry profiles.
pub open spec fn header_tail(h: ModuleHeaderLinks, c: RoadEditingPreflightCounts, limit: u64) -> Result<
    RoadEditingPreflightCounts,
    StageFailure,
> {
    match charge_imports(c, h.imports@, h.authoring_namespace_id.spec_bytes(), limit) {
        Err(f) => Err(f),
        Ok(c3) => match provenance_step(c3, h.provenance, limit) {
            Err(f) => Err(f),
            Ok(c4) => if h.geometry_accuracy_profile is Other {
                Err(Err(("roadEditingSource.geometryAccuracyProfile"@, RoadEditingInputViolation::InvalidCombination)))
            } else if h.geometry_direction_profile is Other {
                Err(Err(("roadEditingSource.geometryDirectionProfile"@, RoadEditingInputViolation::InvalidCombination)))
            } else {
                Ok(c4)
            },
        },
    }
}

/// The outcome of the header stage, checked in this order: namespace,
/// document key, import count, distinct imports (with room for their index),
/// each import, provenance, accuracy profile, direction profile.
#[verifier::opaque]
pub open spec fn header_outcome(h: ModuleHeaderLinks, limits: CompileLimits, scratch: PreflightScratch) -> Result<
    RoadEditingPreflightCounts,
    StageFailure,
> {
    let limit = limits.spec_value(CompileLimitDimension::SingleStringBytes);
    let ns = h.authoring_namespace_id.spec_bytes();
    let n = h.imports@.len();
    let import_limit = limits.spec_value(CompileLimitDimension::ImportEdgeCount);
    match token_step(header_start(), ns, limit, "moduleHeader.authoringNamespaceId"@) {
        Err(f) => Err(f),
        Ok(c1) => match token_step(c1, h.source_document_key.spec_bytes(), limit, "moduleHeader.sourceDocumentKey"@) {
            Err(f) => Err(f),
            Ok(c2) => if n > import_limit {
                Err(Ok((CompileLimitDimension::ImportEdgeCount, import_limit, n as u64)))
            } else if n >= 2 && scratch_request(
                scratch.spec_limits(),
                scratch.admitted(),
                scratch.live(),
                (n * vstd::layout::size_of::<&str>()) as int,
            ) is Err {
                Err(
                    Ok(
                        scratch_request(
                            scratch.spec_limits(),
                            scratch.admitted(),
                            scratch.live(),
                            (n * vstd::layout::size_of::<&str>()) as int,
                        )->Err_0,
                    ),
                )
            } else if imports_repeat(h.imports@) {
                Err(Err(("moduleHeader.imports"@, RoadEditingInputViolation::DuplicateValue)))
            } else {
                header_tail(h, c2, limit)
            },
        },
    }
}

/// The scratch need of the header: the duplicate index of its imports.
pub open spec fn header_need(h: ModuleHeaderLinks) -> nat {
    unique_need::<&str>(h.imports@.len())
}

/// Whether two 32-byte digests are equal.
fn digest_eq(a: &[u8; 32], b: &[u8; 32]) -> (r: bool)
    ensures
        r == (*a == *b),
{
    let mut i: usize = 0;
    while i < 32
        invariant
            i <= 32,
            a@.len() == 32,
            b@.len() == 32,
            forall|j: int| 0 <= j < i ==> a@[j] == b@[j],
        decreases 32 - i,
    {
        if a[i] != b[i] {
            proof {
                if *a == *b {
                    assert(a@ == b@);
                }
            }
            return false;
        }
        i = i + 1;
    }
    proof {
        assert(a@ =~= b@);
        vstd::array::axiom_array_ext_equal(*a, *b);
    }
    true
}

/// Whether two imports have the same bytes, with room for their index
/// reserved in `scratch` and returned.
fn imports_unique(imports: &[&str], expected_key: &str, scratch: &mut PreflightScratch) -> (r: Result<(), DiagnosticBundle>)
    ensures
        imports@.len() < 2 ==> r is Ok,
        imports@.len() >= 2 ==> match scratch_request(
            old(scratch).spec_limits(),
            old(scratch).admitted(),
            old(scratch).live(),
            (imports@.len() * vstd::layout::size_of::<&str>()) as int,
        ) {
            Err((d, l, o)) => r matches Err(b) && b.is_limit_error(d, l, o),
            Ok(_) => if imports_repeat(imports@) {
                r matches Err(b) && b.is_semantic_error(
                    "moduleHeader.imports"@,
                    RoadEditingInputViolation::DuplicateValue,
                    expected_key@,
                )
            } else {
                r is Ok
            },
        },
        final(scratch).spec_limits() == old(scratch).spec_limits(),
        final(scratch).admitted() == old(scratch).admitted(),
        final(scratch).live() == old(scratch).live(),
        old(scratch).peak() <= final(scratch).peak(),
        r is Ok ==> peak_lifted(*old(scratch), *final(scratch), unique_need::<&str>(imports@.len())),
{
    if imports.len() < 2 {
        return Ok(());
    }
    let bytes = scratch.reserve::<&str>(imports.len())?;
    let ghost s1 = *scratch;
    let mut i: usize = 0;
    while i < imports.len()
        invariant
            i <= imports@.len(),
            *scratch == s1,
            s1.live() >= bytes,
            s1.live() - bytes == old(scratch).live(),
            s1.spec_limits() == old(scratch).spec_limits(),
            s1.admitted() == old(scratch).admitted(),
            old(scratch).peak() <= s1.peak(),
            scratch_request(
                old(scratch).spec_limits(),
                old(scratch).admitted(),
                old(scratch).live(),
                (imports@.len() * vstd::layout::size_of::<&str>()) as int,
            ) is Ok,
            forall|a: int, b: int|
                0 <= a < b < imports@.len() && a < i ==> imports@[a].spec_bytes() != imports@[b].spec_bytes(),
        decreases imports@.len() - i,
    {
        let mut j: usize = i + 1;
        while j < imports.len()
            invariant
                i < imports@.len(),
                i + 1 <= j <= imports@.len(),
                *scratch == s1,
                s1.live() >= bytes,
                s1.live() - bytes == old(scratch).live(),
                s1.spec_limits() == old(scratch).spec_limits(),
                s1.admitted() == old(scratch).admitted(),
                old(scratch).peak() <= s1.peak(),
                scratch_request(
                    old(scratch).spec_limits(),
                    old(scratch).admitted(),
                    old(scratch).live(),
                    (imports@.len() * vstd::layout::size_of::<&str>()) as int,
                ) is Ok,
                forall|a: int, b: int|
                    0 <= a < b < imports@.len() && a < i ==> imports@[a].spec_bytes() != imports@[b].spec_bytes(),
                forall|b: int| i < b < j ==> imports@[i as int].spec_bytes() != imports@[b].spec_bytes(),
            decreases imports@.len() - j,
        {
            if str_equal(imports[i], imports[j]) {
                scratch.release(bytes);
                return Err(semantic_error("moduleHeader.imports", RoadEditingInputViolation::DuplicateValue, expected_key));
            }
            j = j + 1;
        }
        i = i + 1;
    }
    scratch.release(bytes);
    Ok(())
}

proof fn lemma_charge_imports_stops(
    c: RoadEditingPreflightCounts,
    imports: Seq<&str>,
    namespace: Seq<u8>,
    limit: u64,
    k: int,
)
    requires
        0 <= k <= imports.len(),
        charge_imports(c, imports.take(k), namespace, limit) is Err,
    ensures
        charge_imports(c, imports, namespace, limit) == charge_imports(c, imports.take(k), namespace, limit),
    decreases imports.len(),
{
    if k == imports.len() {
        assert(imports.take(k) =~= imports);
    } else {
        assert(imports.drop_last().take(k) =~= imports.take(k));
        lemma_charge_imports_stops(c, imports.drop_last(), namespace, limit, k);
    }
}

/// Charged imports never name the module's own namespace.
proof fn lemma_charged_imports_not_self(c: RoadEditingPreflightCounts, imports: Seq<&str>, namespace: Seq<u8>, limit: u64)
    requires
        charge_imports(c, imports, namespace, limit) is Ok,
    ensures
        forall|i: int| 0 <= i < imports.len() ==> (#[trigger] imports[i]).spec_bytes() != namespace,
    decreases imports.len(),
{
    if imports.len() > 0 {
        lemma_charged_imports_not_self(c, imports.drop_last(), namespace, limit);
        assert forall|i: int| 0 <= i < imports.len() implies (#[trigger] imports[i]).spec_bytes() != namespace by {
            if i < imports.len() - 1 {
                assert(imports.drop_last()[i] == imports[i]);
            }
        }
    }
}

/// A module header that passes imports at most the import-edge limit of
/// distinct namespaces, none of them its own.
pub proof fn law_accepted_header_imports_other_distinct_namespaces(
    h: ModuleHeaderLinks,
    limits: CompileLimits,
    scratch: PreflightScratch,
)
    requires
        header_outcome(h, limits, scratch) is Ok,
    ensures
        h.imports@.len() <= limits.spec_value(CompileLimitDimension::ImportEdgeCount),
        forall|i: int|
            0 <= i < h.imports@.len() ==> (#[trigger] h.imports@[i]).spec_bytes() != h.authoring_namespace_id.spec_bytes(),
        forall|i: int, j: int|
            0 <= i < j < h.imports@.len() ==> (#[trigger] h.imports@[i]).spec_bytes() != (#[trigger] h.imports@[j]).spec_bytes(),
{
    reveal(header_outcome);
    let limit = limits.spec_value(CompileLimitDimension::SingleStringBytes);
    let ns = h.authoring_namespace_id.spec_bytes();
    let c1 = token_step(header_start(), ns, limit, "moduleHeader.authoringNamespaceId"@)->Ok_0;
    let c2 = token_step(c1, h.source_document_key.spec_bytes(), limit, "moduleHeader.sourceDocumentKey"@)->Ok_0;
    assert(header_tail(h, c2, limit) is Ok);
    lemma_charged_imports_not_self(c2, h.imports@, ns, limit);
    assert(!imports_repeat(h.imports@));
}

/// Checks the module header, its imports and provenance, and the geometry
/// profiles of a verified source, and returns the usage they charge; see
/// [`header_outcome`].
pub fn preflight_header(
    header: &ModuleHeaderLinks,
    limits: &CompileLimits,
    scratch: &mut PreflightScratch,
    expected_key: &str,
) -> (r: Result<RoadEditingPreflightCounts, DiagnosticBundle>)
    ensures
        match header_outcome(*header, *limits, *old(scratch)) {
            Ok(c) => r == Ok::<RoadEditingPreflightCounts, DiagnosticBundle>(c),
            Err(f) => r matches Err(b) && stage_reports(b, f, expected_key@),
        },
        final(scratch).spec_limits() == old(scratch).spec_limits(),
        final(scratch).admitted() == old(scratch).admitted(),
        final(scratch).live() == old(scratch).live(),
        old(scratch).peak() <= final(scratch).peak(),
        r is Ok ==> peak_lifted(*old(scratch), *final(scratch), header_need(*header)),
        r is Ok ==> forall|i: int| 0 <= i < header.imports@.len() ==> (#[trigger] header.imports@[i]).spec_bytes() != header.authoring_namespace_id.spec_bytes(),
{
    proof {
        reveal(header_outcome);
    }
    let namespace = header.authoring_namespace_id;
    let ghost start_scratch = *scratch;
    let mut usage = RoadEditingPreflightCounts::default();
    usage.typed_ast_record_count = 1;
    usage.charge_token(namespace, "moduleHeader.authoringNamespaceId", limits, expected_key)?;
    usage.charge_token(header.source_document_key, "moduleHeader.sourceDocumentKey", limits, expected_key)?;
    let import_count = header.imports.len() as u64;
    let import_limit = limits.value(CompileLimitDimension::ImportEdgeCount);
    if import_count > import_limit {
        return Err(limit_error(CompileLimitDimension::ImportEdgeCount, import_limit, import_count));
    }
    imports_unique(header.imports.as_slice(), expected_key, scratch)?;
    let ghost start = usage;
    let ghost limit = limits.spec_value(CompileLimitDimension::SingleStringBytes);
    let ghost s1 = *scratch;
    assert(header_outcome(*header, *limits, *old(scratch)) == header_tail(*header, start, limit));
    let mut i: usize = 0;
    while i < header.imports.len()
        invariant
            i <= header.imports@.len(),
            *scratch == s1,
            s1.spec_limits() == old(scratch).spec_limits(),
            s1.admitted() == old(scratch).admitted(),
            s1.live() == old(scratch).live(),
            old(scratch).peak() <= s1.peak(),
            header_outcome(*header, *limits, *old(scratch)) == header_tail(*header, start, limit),
            namespace == header.authoring_namespace_id,
            limit == limits.spec_value(CompileLimitDimension::SingleStringBytes),
            charge_imports(start, header.imports@.take(i as int), namespace.spec_bytes(), limit) == Ok::<
                RoadEditingPreflightCounts,
                StageFailure,
            >(usage),
        decreases header.imports@.len() - i,
    {
        let import = header.imports[i];
        proof {
            assert(header.imports@.take(i + 1).drop_last() =~= header.imports@.take(i as int));
            assert(header.imports@.take(i + 1).last() == import);
        }
        match usage.charge_token(import, "moduleHeader.imports", limits, expected_key) {
            Ok(()) => {},
            Err(e) => {
                proof {
                    let t = header.imports@.take(i + 1);
                    assert(token_violation_spec(import.spec_bytes(), limit, true) is Some);
                    assert(charge_imports(start, t.drop_last(), namespace.spec_bytes(), limit) == Ok::<
                        RoadEditingPreflightCounts,
                        StageFailure,
                    >(usage));
                    assert(charge_imports(start, t, namespace.spec_bytes(), limit) == Err::<
                        RoadEditingPreflightCounts,
                        StageFailure,
                    >(Err(("moduleHeader.imports"@, token_violation_spec(import.spec_bytes(), limit, true)->Some_0))));
                    lemma_charge_imports_stops(start, header.imports@, namespace.spec_bytes(), limit, i + 1);
                }
                return Err(e);
            },
        }
        if str_equal(import, namespace) {
            proof {
                let t = header.imports@.take(i + 1);
                assert(charge_imports(start, t, namespace.spec_bytes(), limit) == Err::<
                    RoadEditingPreflightCounts,
                    StageFailure,
                >(Err(("moduleHeader.imports"@, RoadEditingInputViolation::InvalidCombination))));
                lemma_charge_imports_stops(start, header.imports@, namespace.spec_bytes(), limit, i + 1);
            }
            return Err(semantic_error("moduleHeader.imports", RoadEditingInputViolation::InvalidCombination, expected_key));
        }
        i = i + 1;
    }
    proof {
        assert(header.imports@.take(i as int) =~= header.imports@);
    }
    validate_provenance(&mut usage, &header.provenance, limits, expected_key)?;
    match header.geometry_accuracy_profile {
        WireAccuracyProfile::Other(_) => {
            return Err(invalid_combination("roadEditingSource.geometryAccuracyProfile", expected_key));
        },
        _ => {},
    }
    match header.geometry_direction_profile {
        WireDirectionProfile::Other(_) => {
            return Err(invalid_combination("roadEditingSource.geometryDirectionProfile", expected_key));
        },
        _ => {},
    }
    proof {
        law_accepted_header_imports_other_distinct_namespaces(*header, *limits, start_scratch);
    }
    Ok(usage)
}

/// Checks and charges the provenance: its build identifier as a token, its
/// description as visible ASCII, and, for a directly authored module, the
/// frozen build identifier and digests without a random seed.
pub fn validate_provenance(
    usage: &mut RoadEditingPreflightCounts,
    provenance: &ProvenanceLinks,
    limits: &CompileLimits,
    expected_key: &str,
) -> (r: Result<(), DiagnosticBundle>)
    ensures
        match provenance_step(
            *old(usage),
            *provenance,
            limits.spec_value(CompileLimitDimension::SingleStringBytes),
        ) {
            Ok(c) => r is Ok && *final(usage) == c,
            Err(f) => r matches Err(b) && stage_reports(b, f, expected_key@),
        },
{
    usage.charge_token(
        provenance.generator_build_id,
        "moduleHeader.provenance.generatorBuildId",
        limits,
        expected_key,
    )?;
    usage.charge_visible_ascii(provenance.description, "moduleHeader.provenance.description", limits, expected_key)?;
    match provenance.kind {
        WireProvenanceKind::Direct => {
            let inputs = direct_inputs_digest();
            let options = direct_frontend_options_digest();
            if !str_equal(provenance.generator_build_id, DIRECT_GENERATOR_BUILD_ID)
                || !digest_eq(&provenance.parameters_and_inputs_digest, &inputs)
                || !digest_eq(&provenance.frontend_options_digest, &options)
                || provenance.random_seed.is_some() {
                return Err(invalid_combination("moduleHeader.provenance", expected_key));
            }
        },
        WireProvenanceKind::Generated => {},
        WireProvenanceKind::Other(_) => {
            return Err(invalid_combination("moduleHeader.provenance.kind", expected_key));
        },
    }
    Ok(())
}

} // verus!
