//! Closed diagnostic payloads and the bounded collector that gathers them.

use vstd::prelude::*;

use crate::limits::CompileLimitDimension;

verus! {

/// Why a piece of source text was rejected.
#[derive(Clone, Copy, Debug, PartialEq, Eq, Structural, PartialOrd, Ord, Hash)]
pub enum SourceTextViolation {
    /// The text is empty.
    Empty,
    /// The text has more bytes than the limit allows.
    TooLong { limit: u64, observed: u64 },
    /// The byte at `byte_index` is not ASCII.
    NonAscii { byte_index: u64 },
    /// A token starts with a byte that is not an ASCII letter or digit.
    InvalidFirstByte { byte: u8 },
    /// A token contains a byte outside letters, digits and `. _ : / -`.
    InvalidTokenByte { byte_index: u64, byte: u8 },
    /// Visible text contains an ASCII control byte.
    ControlByte { byte_index: u64, byte: u8 },
    /// A token contains the reserved qualification delimiter `::`.
    ReservedDelimiter { byte_index: u64 },
}

/// Why a first-party road-editing input value was rejected.
#[derive(Clone, Copy, Debug, PartialEq, Eq, Structural, PartialOrd, Ord, Hash)]
pub enum RoadEditingInputViolation {
    InvalidText(SourceTextViolation),
    InvalidReferenceDepth { expected: u8, actual: u8 },
    InvalidCombination,
    EmptyCollection,
    DuplicateValue,
    CollectionTooLarge { maximum: u64, actual: u64 },
    /// A measurement is not finite; `value_bits` are its IEEE 754 bits.
    NonFinite { value_bits: u64 },
    /// A measurement is not above zero.
    NotGreaterThanZero { value_bits: u64 },
    /// A measurement is below zero.
    LessThanZero { value_bits: u64 },
    /// A measurement lies outside its closed range.
    OutsideInclusiveRange { value_bits: u64, minimum_bits: u64, maximum_bits: u64 },
}

/// Why a road-editing source buffer was rejected.
#[derive(Clone, Copy, Debug, PartialEq, Eq, Structural, PartialOrd, Ord, Hash)]
pub enum RoadEditingSourceViolation {
    TruncatedFraming,
    SizePrefixMismatch { declared: u64, actual: u64 },
    FileIdentifierMismatch,
    UnsupportedFormatVersion { expected: u32, actual: u32 },
    VerifierTableBudgetExceeded,
    VerifierApparentSizeExceeded,
    VerifierDepthExceeded,
    MalformedWire,
    SourceDocumentKeyMismatch,
    InvalidSemanticValue(RoadEditingInputViolation),
}

/// The synthetic source-module header field that a diagnostic refers to.
#[derive(Clone, Copy, Debug, PartialEq, Eq, Structural, PartialOrd, Ord, Hash)]
pub enum SourceHeaderField {
    AuthoringNamespaceId,
    SourceDocumentKey,
    GeneratorBuildId,
    Provenance,
}

/// Severity of a diagnostic; every diagnostic of this front end is an error.
#[derive(Clone, Copy, Debug, PartialEq, Eq, Structural, PartialOrd, Ord, Hash)]
pub enum DiagnosticSeverity {
    Error,
}

/// The closed payload of one diagnostic.
#[derive(Clone, Debug, PartialEq, Eq, PartialOrd, Ord, Hash)]
pub enum DiagnosticPayload {
    InvalidSourceHeaderField { field: SourceHeaderField, violation: SourceTextViolation },
    CompileLimitExceeded { dimension: CompileLimitDimension, limit: u64, observed: u64 },
    InvalidRoadEditingInput { field: String, violation: RoadEditingInputViolation },
    InvalidRoadEditingSource {
        violation: RoadEditingSourceViolation,
        field: Option<String>,
        expected_key: String,
        actual_key: Option<String>,
    },
}

/// One compile diagnostic.
#[derive(Clone, Debug, PartialEq, Eq, PartialOrd, Ord, Hash)]
pub struct Diagnostic {
    pub payload: DiagnosticPayload,
}

impl Diagnostic {
    /// Returns the closed payload.
    pub fn payload(&self) -> (r: &DiagnosticPayload)
        ensures
            *r == self.payload,
    {
        &self.payload
    }

    /// Returns the severity, which is always an error.
    pub fn severity(&self) -> (r: DiagnosticSeverity)
        ensures
            r == DiagnosticSeverity::Error,
    {
        DiagnosticSeverity::Error
    }

    /// A diagnostic for a rejected synthetic header field.
    pub fn invalid_source_header_field(field: SourceHeaderField, violation: SourceTextViolation) -> (r: Self)
        ensures
            r.payload == (DiagnosticPayload::InvalidSourceHeaderField { field, violation }),
    {
        Diagnostic { payload: DiagnosticPayload::InvalidSourceHeaderField { field, violation } }
    }

    /// A diagnostic for an observed resource use above its limit.
    pub fn compile_limit_exceeded(dimension: CompileLimitDimension, limit: u64, observed: u64) -> (r: Self)
        ensures
            r.payload == (DiagnosticPayload::CompileLimitExceeded { dimension, limit, observed }),
    {
        Diagnostic { payload: DiagnosticPayload::CompileLimitExceeded { dimension, limit, observed } }
    }
}

/// Is `d` the input diagnostic for `field` with `violation`?
pub open spec fn is_input_diagnostic(
    d: Diagnostic,
    field: Seq<char>,
    violation: RoadEditingInputViolation,
) -> bool {
    &&& d.payload is InvalidRoadEditingInput
    &&& d.payload->InvalidRoadEditingInput_field@ == field
    &&& d.payload->InvalidRoadEditingInput_violation == violation
}

/// Is `d` the source diagnostic carrying `violation` for `field` of the
/// document `expected_key`, with the document key repeated as the actual key?
pub open spec fn is_semantic_diagnostic(
    d: Diagnostic,
    field: Seq<char>,
    violation: RoadEditingInputViolation,
    expected_key: Seq<char>,
) -> bool {
    &&& d.payload is InvalidRoadEditingSource
    &&& d.payload->InvalidRoadEditingSource_violation
        == RoadEditingSourceViolation::InvalidSemanticValue(violation)
    &&& d.payload->InvalidRoadEditingSource_field matches Some(f) && f@ == field
    &&& d.payload->InvalidRoadEditingSource_expected_key@ == expected_key
    &&& d.payload->InvalidRoadEditingSource_actual_key matches Some(k) && k@ == expected_key
}

/// An ordered set of diagnostics; `truncated` records that the diagnostic
/// count limit dropped further candidates.
#[derive(Clone, Debug, PartialEq, Eq)]
pub struct DiagnosticBundle {
    pub diagnostics: Vec<Diagnostic>,
    pub truncated: bool,
}

impl DiagnosticBundle {
    /// Is this bundle exactly the single diagnostic `d`?
    pub open spec fn is_single(self, d: Diagnostic) -> bool {
        &&& self.diagnostics@ == seq![d]
        &&& !self.truncated
    }

    /// Is this bundle the single input diagnostic for `field` with `violation`?
    pub open spec fn is_input_error(self, field: Seq<char>, violation: RoadEditingInputViolation) -> bool {
        &&& self.diagnostics@.len() == 1
        &&& !self.truncated
        &&& is_input_diagnostic(self.diagnostics@[0], field, violation)
    }

    /// Is this bundle the single semantic source diagnostic described?
    pub open spec fn is_semantic_error(
        self,
        field: Seq<char>,
        violation: RoadEditingInputViolation,
        expected_key: Seq<char>,
    ) -> bool {
        &&& self.diagnostics@.len() == 1
        &&& !self.truncated
        &&& is_semantic_diagnostic(self.diagnostics@[0], field, violation, expected_key)
    }

    /// Is this bundle the single limit diagnostic described?
    pub open spec fn is_limit_error(self, dimension: CompileLimitDimension, limit: u64, observed: u64) -> bool {
        self.is_single(Diagnostic {
            payload: DiagnosticPayload::CompileLimitExceeded { dimension, limit, observed },
        })
    }

    /// A bundle holding exactly one diagnostic.
    pub fn single(diagnostic: Diagnostic) -> (r: Self)
        ensures
            r.is_single(diagnostic),
    {
        let mut diagnostics = Vec::new();
        diagnostics.push(diagnostic);
        DiagnosticBundle { diagnostics, truncated: false }
    }

    /// The diagnostics in canonical order.
    pub fn diagnostics(&self) -> (r: &[Diagnostic])
        ensures
            r@ == self.diagnostics@,
    {
        self.diagnostics.as_slice()
    }

    /// Whether the diagnostic count limit dropped candidates.
    pub fn diagnostics_truncated(&self) -> (r: bool)
        ensures
            r == self.truncated,
    {
        self.truncated
    }

    /// Whether the bundle holds at least one error.
    pub fn has_errors(&self) -> (r: bool)
        ensures
            r == (self.diagnostics@.len() > 0),
    {
        self.diagnostics.len() > 0
    }
}

/// Collects diagnostics up to a count limit, remembering whether any were dropped.
pub struct DiagnosticCollector {
    diagnostics: Vec<Diagnostic>,
    limit: u64,
    truncated: bool,
    candidates: Ghost<Seq<Diagnostic>>,
}

/// The diagnostics a collector with `limit` keeps out of `candidates`.
pub open spec fn kept_candidates(candidates: Seq<Diagnostic>, limit: u64) -> Seq<Diagnostic> {
    if candidates.len() <= limit {
        candidates
    } else {
        candidates.take(limit as int)
    }
}

impl DiagnosticCollector {
    /// Every candidate offered so far, in offering order.
    pub closed spec fn candidates(self) -> Seq<Diagnostic> {
        self.candidates@
    }

    /// The count limit.
    pub closed spec fn spec_limit(self) -> u64 {
        self.limit
    }

    /// The kept diagnostics are the first `limit` candidates.
    pub closed spec fn wf(self) -> bool {
        &&& self.diagnostics@ == kept_candidates(self.candidates@, self.limit)
        &&& self.truncated == (self.candidates@.len() > self.limit)
    }

    /// An empty collector keeping at most `limit` diagnostics.
    pub fn new(limit: u64) -> (r: Self)
        ensures
            r.wf(),
            r.spec_limit() == limit,
            r.candidates() == Seq::<Diagnostic>::empty(),
    {
        DiagnosticCollector {
            diagnostics: Vec::new(),
            limit,
            truncated: false,
            candidates: Ghost(Seq::empty()),
        }
    }

    /// Offers one more candidate.
    pub fn push(&mut self, diagnostic: Diagnostic)
        requires
            old(self).wf(),
        ensures
            final(self).wf(),
            final(self).spec_limit() == old(self).spec_limit(),
            final(self).candidates() == old(self).candidates().push(diagnostic),
    {
        let ghost c = self.candidates@;
        if (self.diagnostics.len() as u64) < self.limit {
            self.diagnostics.push(diagnostic);
        } else {
            self.truncated = true;
        }
        self.candidates = Ghost(c.push(diagnostic));
        proof {
            if c.len() + 1 <= self.limit {
                assert(self.diagnostics@ =~= c.push(diagnostic));
            } else if c.len() <= self.limit {
                assert(c.push(diagnostic).take(self.limit as int) =~= c);
            } else {
                assert(c.push(diagnostic).take(self.limit as int) =~= c.take(self.limit as int));
            }
        }
    }

    /// Whether no candidate was offered.
    pub fn is_empty(&self) -> (r: bool)
        requires
            self.wf(),
        ensures
            r == (self.candidates().len() == 0),
    {
        self.diagnostics.len() == 0 && !self.truncated
    }

    /// The collected bundle.
    pub fn finish(self) -> (r: DiagnosticBundle)
        requires
            self.wf(),
        ensures
            r.diagnostics@ == kept_candidates(self.candidates(), self.spec_limit()),
            r.truncated == (self.candidates().len() > self.spec_limit()),
    {
        DiagnosticBundle { diagnostics: self.diagnostics, truncated: self.truncated }
    }
}

} // verus!
