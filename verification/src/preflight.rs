//! Usage accounting of the semantic preflight that runs after the wire verifier
//! and before any domain allocation: records, references and string payload are
//! charged as they are checked, and the totals are held to the compile limits.

use vstd::prelude::*;
use vstd::string::StringSliceAdditionalSpecFns;

use crate::declaration::{
    facility_kind_category, facility_kind_category_spec, identity_field_count, spec_identity_field_count,
    EntityKind, FacilityKindCategory, MAX_PORTABLE_SIGNAL_TIME_MS,
};
use crate::diagnostic::{Diagnostic, DiagnosticBundle, DiagnosticPayload, RoadEditingInputViolation,
    RoadEditingSourceViolation, SourceTextViolation};
use crate::limits::{CompileLimitDimension, CompileLimits};
use crate::rules::{split_components, validate_wire_reference, wire_reference_spec};
use crate::scratch::{limit_error, peak_lifted, scratch_request, PreflightScratch};
use crate::split::{split_once_double_colon, str_equal};
use crate::text::{
    first_double_colon, has_double_colon, string_bytes, token_violation, token_violation_spec,
    visible_ascii_violation, visible_ascii_violation_spec,
};

verus! {

/// `a + b`, held at `u64::MAX`.
pub open spec fn sat_add(a: u64, b: int) -> u64 {
    if a + b > u64::MAX {
        u64::MAX
    } else {
        (a + b) as u64
    }
}

/// Usage counts of one preflight pass.
#[derive(Clone, Copy, Debug, PartialEq, Eq, Structural)]
pub struct RoadEditingPreflightCounts {
    pub declaration_count: u64,
    pub typed_ast_record_count: u64,
    pub reference_count: u64,
    pub external_namespace_reference_count: u64,
    pub relation_occurrence_count: u64,
    pub identity_field_occurrence_count: u64,
    pub maneuver_gate_count: u64,
    pub waiting_zone_count: u64,
    pub authoring_point_count: u64,
    pub conflict_region_point_count: u64,
    pub symbol_count: u64,
    pub string_item_count: u64,
    pub total_string_bytes: u64,
    pub preflight_peak_scratch_bytes: u64,
}

impl Default for RoadEditingPreflightCounts {
    fn default() -> (r: Self)
        ensures
            r == Self::zero(),
    {
        RoadEditingPreflightCounts {
            declaration_count: 0,
            typed_ast_record_count: 0,
            reference_count: 0,
            external_namespace_reference_count: 0,
            relation_occurrence_count: 0,
            identity_field_occurrence_count: 0,
            maneuver_gate_count: 0,
            waiting_zone_count: 0,
            authoring_point_count: 0,
            conflict_region_point_count: 0,
            symbol_count: 0,
            string_item_count: 0,
            total_string_bytes: 0,
            preflight_peak_scratch_bytes: 0,
        }
    }
}

/// The first accounted dimension whose count exceeds its limit, with the limit
/// and the count; dimensions are checked in this order.
pub open spec fn counts_violation(c: RoadEditingPreflightCounts, limits: CompileLimits) -> Option<
    (CompileLimitDimension, u64, u64),
> {
    if c.declaration_count > limits.spec_value(CompileLimitDimension::DeclarationCount) {
        Some(over(CompileLimitDimension::DeclarationCount, limits, c.declaration_count))
    } else if c.typed_ast_record_count > limits.spec_value(CompileLimitDimension::TypedAstRecordCount) {
        Some(over(CompileLimitDimension::TypedAstRecordCount, limits, c.typed_ast_record_count))
    } else if c.reference_count > limits.spec_value(CompileLimitDimension::ReferenceCount) {
        Some(over(CompileLimitDimension::ReferenceCount, limits, c.reference_count))
    } else if c.relation_occurrence_count > limits.spec_value(CompileLimitDimension::RelationOccurrenceCount) {
        Some(over(CompileLimitDimension::RelationOccurrenceCount, limits, c.relation_occurrence_count))
    } else if c.identity_field_occurrence_count > limits.spec_value(
        CompileLimitDimension::IdentityFieldOccurrenceCount,
    ) {
        Some(over(CompileLimitDimension::IdentityFieldOccurrenceCount, limits, c.identity_field_occurrence_count))
    } else if c.maneuver_gate_count > limits.spec_value(CompileLimitDimension::ManeuverGateCount) {
        Some(over(CompileLimitDimension::ManeuverGateCount, limits, c.maneuver_gate_count))
    } else if c.waiting_zone_count > limits.spec_value(CompileLimitDimension::WaitingZoneCount) {
        Some(over(CompileLimitDimension::WaitingZoneCount, limits, c.waiting_zone_count))
    } else if c.symbol_count > limits.spec_value(CompileLimitDimension::SymbolCount) {
        Some(over(CompileLimitDimension::SymbolCount, limits, c.symbol_count))
    } else if c.string_item_count > limits.spec_value(CompileLimitDimension::StringItemCount) {
        Some(over(CompileLimitDimension::StringItemCount, limits, c.string_item_count))
    } else if c.total_string_bytes > limits.spec_value(CompileLimitDimension::TotalStringBytes) {
        Some(over(CompileLimitDimension::TotalStringBytes, limits, c.total_string_bytes))
    } else {
        None
    }
}

/// A dimension with its limit and the observed count.
pub open spec fn over(d: CompileLimitDimension, limits: CompileLimits, observed: u64) -> (
    CompileLimitDimension,
    u64,
    u64,
) {
    (d, limits.spec_value(d), observed)
}

/// Holds one count to the limit of its dimension.
fn check_count(dimension: CompileLimitDimension, observed: u64, limits: &CompileLimits) -> (r: Result<
    (),
    DiagnosticBundle,
>)
    ensures
        observed <= limits.spec_value(dimension) ==> r is Ok,
        observed > limits.spec_value(dimension) ==> (r matches Err(b) && b.is_limit_error(
            dimension,
            limits.spec_value(dimension),
            observed,
        )),
{
    let limit = limits.value(dimension);
    if observed > limit {
        return Err(limit_error(dimension, limit, observed));
    }
    Ok(())
}

/// The rule for free regulation text: non-empty and at most `limit` bytes, any
/// Unicode.
pub open spec fn non_empty_text_violation_spec(s: Seq<u8>, limit: u64) -> Option<RoadEditingInputViolation> {
    if s.len() == 0 {
        Some(RoadEditingInputViolation::InvalidText(SourceTextViolation::Empty))
    } else if s.len() > limit {
        Some(
            RoadEditingInputViolation::InvalidText(
                SourceTextViolation::TooLong { limit, observed: s.len() as u64 },
            ),
        )
    } else {
        None
    }
}

/// Charges each token of `tokens` in order, stopping at the first that breaks
/// the identity-token rule: the counts reached and that violation, if any.
pub open spec fn charge_tokens(c: RoadEditingPreflightCounts, tokens: Seq<Seq<u8>>, limit: u64) -> (
    RoadEditingPreflightCounts,
    Option<RoadEditingInputViolation>,
)
    decreases tokens.len(),
{
    if tokens.len() == 0 {
        (c, None)
    } else {
        let (c1, e1) = charge_tokens(c, tokens.drop_last(), limit);
        if e1 is Some {
            (c1, e1)
        } else {
            match token_violation_spec(tokens.last(), limit, true) {
                Some(v) => (c1, Some(v)),
                None => (c1.with_string(tokens.last().len() as int), None),
            }
        }
    }
}

/// Once charging stops at a violation, later tokens change nothing.
proof fn lemma_charge_tokens_stops(c: RoadEditingPreflightCounts, s: Seq<Seq<u8>>, k: int, limit: u64)
    requires
        0 <= k <= s.len(),
        charge_tokens(c, s.take(k), limit).1 is Some,
    ensures
        charge_tokens(c, s, limit) == charge_tokens(c, s.take(k), limit),
    decreases s.len(),
{
    if k == s.len() {
        assert(s.take(k) =~= s);
    } else {
        assert(s.drop_last().take(k) =~= s.take(k));
        lemma_charge_tokens_stops(c, s.drop_last(), k, limit);
    }
}

/// Whether `imports` holds the namespace `ns`.
pub open spec fn imports_contain(imports: Seq<&str>, ns: Seq<u8>) -> bool {
    exists|i: int| 0 <= i < imports.len() && (#[trigger] imports[i]).spec_bytes() == ns
}

/// Charges the components of a validated key path, then counts the reference.
pub open spec fn charge_key_path(c: RoadEditingPreflightCounts, key_path: Seq<u8>, limit: u64) -> (
    RoadEditingPreflightCounts,
    Option<RoadEditingInputViolation>,
) {
    let (c1, e1) = charge_tokens(c, split_components(key_path), limit);
    if e1 is Some {
        (c1, e1)
    } else {
        (RoadEditingPreflightCounts { reference_count: sat_add(c1.reference_count, 1), ..c1 }, None)
    }
}

/// The counts reached by charging the wire reference `s`, and the violation
/// that stopped it, if any: the reference must validate; a namespace must be
/// another imported namespace, is counted as external and charged as a token;
/// then each key component is charged and the reference counted.
pub open spec fn charge_reference_spec(
    c: RoadEditingPreflightCounts,
    s: Seq<u8>,
    component_count: u8,
    allow_qualified: bool,
    current_namespace: Seq<u8>,
    imports: Seq<&str>,
    limit: u64,
) -> (RoadEditingPreflightCounts, Option<RoadEditingInputViolation>) {
    match wire_reference_spec(s, component_count, allow_qualified) {
        Err(e) => (c, Some(e)),
        Ok((None, kp)) => charge_key_path(c, kp, limit),
        Ok((Some(ns), kp)) => if ns == current_namespace || !imports_contain(imports, ns) {
            (c, Some(RoadEditingInputViolation::InvalidCombination))
        } else {
            let c1 = RoadEditingPreflightCounts {
                external_namespace_reference_count: sat_add(c.external_namespace_reference_count, 1),
                ..c
            };
            match token_violation_spec(ns, limit, true) {
                Some(v) => (c1, Some(v)),
                None => charge_key_path(c1.with_string(ns.len() as int), kp, limit),
            }
        },
    }
}

impl RoadEditingPreflightCounts {
    /// All counts zero.
    pub open spec fn zero() -> Self {
        RoadEditingPreflightCounts {
            declaration_count: 0,
            typed_ast_record_count: 0,
            reference_count: 0,
            external_namespace_reference_count: 0,
            relation_occurrence_count: 0,
            identity_field_occurrence_count: 0,
            maneuver_gate_count: 0,
            waiting_zone_count: 0,
            authoring_point_count: 0,
            conflict_region_point_count: 0,
            symbol_count: 0,
            string_item_count: 0,
            total_string_bytes: 0,
            preflight_peak_scratch_bytes: 0,
        }
    }

    /// The counts after one more string item of `bytes` bytes.
    pub open spec fn with_string(self, bytes: int) -> Self {
        RoadEditingPreflightCounts {
            string_item_count: sat_add(self.string_item_count, 1),
            total_string_bytes: sat_add(self.total_string_bytes, bytes),
            ..self
        }
    }

    /// The counts after one more declaration of `kind`.
    pub open spec fn with_declaration(self, kind: EntityKind) -> Self {
        RoadEditingPreflightCounts {
            declaration_count: sat_add(self.declaration_count, 1),
            symbol_count: sat_add(self.symbol_count, 1),
            typed_ast_record_count: sat_add(self.typed_ast_record_count, 1),
            identity_field_occurrence_count: sat_add(
                self.identity_field_occurrence_count,
                spec_identity_field_count(kind) as int,
            ),
            ..self
        }
    }

    /// The largest simultaneous scratch request of the pass.
    pub fn preflight_peak_scratch_bytes(&self) -> (r: u64)
        ensures
            r == self.preflight_peak_scratch_bytes,
    {
        self.preflight_peak_scratch_bytes
    }

    /// Declarations counted.
    pub fn declaration_count(&self) -> (r: u64)
        ensures
            r == self.declaration_count,
    {
        self.declaration_count
    }

    /// Typed source records counted.
    pub fn typed_ast_record_count(&self) -> (r: u64)
        ensures
            r == self.typed_ast_record_count,
    {
        self.typed_ast_record_count
    }

    /// References counted.
    pub fn reference_count(&self) -> (r: u64)
        ensures
            r == self.reference_count,
    {
        self.reference_count
    }

    /// References into another authoring namespace.
    pub fn external_namespace_reference_count(&self) -> (r: u64)
        ensures
            r == self.external_namespace_reference_count,
    {
        self.external_namespace_reference_count
    }

    /// Relation occurrences counted.
    pub fn relation_occurrence_count(&self) -> (r: u64)
        ensures
            r == self.relation_occurrence_count,
    {
        self.relation_occurrence_count
    }

    /// Identity field occurrences counted.
    pub fn identity_field_occurrence_count(&self) -> (r: u64)
        ensures
            r == self.identity_field_occurrence_count,
    {
        self.identity_field_occurrence_count
    }

    /// Maneuver gates counted.
    pub fn maneuver_gate_count(&self) -> (r: u64)
        ensures
            r == self.maneuver_gate_count,
    {
        self.maneuver_gate_count
    }

    /// Waiting zones counted.
    pub fn waiting_zone_count(&self) -> (r: u64)
        ensures
            r == self.waiting_zone_count,
    {
        self.waiting_zone_count
    }

    /// Points of conflict-zone regions counted.
    pub fn conflict_region_point_count(&self) -> (r: u64)
        ensures
            r == self.conflict_region_point_count,
    {
        self.conflict_region_point_count
    }

    /// Symbols counted.
    pub fn symbol_count(&self) -> (r: u64)
        ensures
            r == self.symbol_count,
    {
        self.symbol_count
    }

    /// String items counted.
    pub fn string_item_count(&self) -> (r: u64)
        ensures
            r == self.string_item_count,
    {
        self.string_item_count
    }

    /// String payload bytes counted.
    pub fn total_string_bytes(&self) -> (r: u64)
        ensures
            r == self.total_string_bytes,
    {
        self.total_string_bytes
    }

    /// Counts one string item of `bytes` bytes.
    fn charge_string(&mut self, bytes: usize)
        ensures
            *final(self) == old(self).with_string(bytes as int),
    {
        self.string_item_count = self.string_item_count.saturating_add(1);
        self.total_string_bytes = self.total_string_bytes.saturating_add(bytes as u64);
    }

    /// Checks `value` against the identity-token rule (no `::`) and counts it.
    pub fn charge_token(&mut self, value: &str, field: &str, limits: &CompileLimits, expected_key: &str) -> (r:
        Result<(), DiagnosticBundle>)
        ensures
            match token_violation_spec(
                value.spec_bytes(),
                limits.spec_value(CompileLimitDimension::SingleStringBytes),
                true,
            ) {
                Some(v) => *final(self) == *old(self) && (r matches Err(b) && b.is_semantic_error(
                    field@,
                    v,
                    expected_key@,
                )),
                None => r is Ok && *final(self) == old(self).with_string(value.spec_bytes().len() as int),
            },
    {
        let limit = limits.value(CompileLimitDimension::SingleStringBytes);
        if let Some(violation) = token_violation(value, limit, true) {
            return Err(semantic_error(field, violation, expected_key));
        }
        self.charge_string(value.as_bytes().len());
        Ok(())
    }

    /// Checks `value` against the visible-ASCII rule and counts it.
    pub fn charge_visible_ascii(
        &mut self,
        value: &str,
        field: &str,
        limits: &CompileLimits,
        expected_key: &str,
    ) -> (r: Result<(), DiagnosticBundle>)
        ensures
            match visible_ascii_violation_spec(
                value.spec_bytes(),
                limits.spec_value(CompileLimitDimension::SingleStringBytes),
            ) {
                Some(v) => *final(self) == *old(self) && (r matches Err(b) && b.is_semantic_error(
                    field@,
                    v,
                    expected_key@,
                )),
                None => r is Ok && *final(self) == old(self).with_string(value.spec_bytes().len() as int),
            },
    {
        let limit = limits.value(CompileLimitDimension::SingleStringBytes);
        if let Some(violation) = visible_ascii_violation(value, limit) {
            return Err(semantic_error(field, violation, expected_key));
        }
        self.charge_string(value.as_bytes().len());
        Ok(())
    }

    /// Checks that `value` is non-empty and within the single-string limit, any
    /// Unicode allowed, and counts it.
    pub fn charge_non_empty_text(
        &mut self,
        value: &str,
        field: &str,
        limits: &CompileLimits,
        expected_key: &str,
    ) -> (r: Result<(), DiagnosticBundle>)
        ensures
            match non_empty_text_violation_spec(
                value.spec_bytes(),
                limits.spec_value(CompileLimitDimension::SingleStringBytes),
            ) {
                Some(v) => *final(self) == *old(self) && (r matches Err(b) && b.is_semantic_error(
                    field@,
                    v,
                    expected_key@,
                )),
                None => r is Ok && *final(self) == old(self).with_string(value.spec_bytes().len() as int),
            },
    {
        let limit = limits.value(CompileLimitDimension::SingleStringBytes);
        let len = value.as_bytes().len();
        let observed = len as u64;
        let violation = if len == 0 {
            Some(RoadEditingInputViolation::InvalidText(SourceTextViolation::Empty))
        } else if observed > limit {
            Some(RoadEditingInputViolation::InvalidText(SourceTextViolation::TooLong { limit, observed }))
        } else {
            None
        };
        if let Some(violation) = violation {
            return Err(semantic_error(field, violation, expected_key));
        }
        self.charge_string(value.as_bytes().len());
        Ok(())
    }

    /// Checks and counts an optional canvas selection token.
    pub fn charge_canvas(&mut self, value: Option<&str>, limits: &CompileLimits, expected_key: &str) -> (r:
        Result<(), DiagnosticBundle>)
        ensures
            match value {
                None => r is Ok && *final(self) == *old(self),
                Some(v) => match token_violation_spec(
                    v.spec_bytes(),
                    limits.spec_value(CompileLimitDimension::SingleStringBytes),
                    true,
                ) {
                    Some(e) => *final(self) == *old(self) && (r matches Err(b) && b.is_semantic_error(
                        "canvasSelection"@,
                        e,
                        expected_key@,
                    )),
                    None => r is Ok && *final(self) == old(self).with_string(v.spec_bytes().len() as int),
                },
            },
    {
        if let Some(value) = value {
            self.charge_token(value, "canvasSelection", limits, expected_key)?;
        }
        Ok(())
    }

    /// Charges the key components `tokens` in order.
    fn charge_components(
        &mut self,
        tokens: &Vec<&str>,
        field: &str,
        limits: &CompileLimits,
        expected_key: &str,
    ) -> (r: Result<(), DiagnosticBundle>)
        ensures
            ({
                let (c, e) = charge_tokens(
                    *old(self),
                    tokens@.map_values(|t: &str| t.spec_bytes()),
                    limits.spec_value(CompileLimitDimension::SingleStringBytes),
                );
                &&& *final(self) == c
                &&& match e {
                    None => r is Ok,
                    Some(v) => r matches Err(b) && b.is_semantic_error(field@, v, expected_key@),
                }
            }),
    {
        let ghost limit = limits.spec_value(CompileLimitDimension::SingleStringBytes);
        let ghost all = tokens@.map_values(|t: &str| t.spec_bytes());
        let mut i: usize = 0;
        while i < tokens.len()
            invariant
                i <= tokens@.len(),
                all == tokens@.map_values(|t: &str| t.spec_bytes()),
                limit == limits.spec_value(CompileLimitDimension::SingleStringBytes),
                charge_tokens(*old(self), all.take(i as int), limit) == (*self, None::<RoadEditingInputViolation>),
            decreases tokens@.len() - i,
        {
            proof {
                assert(all.take(i + 1).drop_last() =~= all.take(i as int));
                assert(all.take(i + 1).last() == tokens@[i as int].spec_bytes());
            }
            match self.charge_token(tokens[i], field, limits, expected_key) {
                Ok(()) => {},
                Err(e) => {
                    proof {
                        lemma_charge_tokens_stops(*old(self), all, i + 1, limit);
                    }
                    return Err(e);
                },
            }
            i = i + 1;
        }
        proof {
            assert(all.take(i as int) =~= all);
        }
        Ok(())
    }

    /// Validates the wire reference `value` and charges its parts; a namespace
    /// must be another namespace that the module imports.
    pub fn charge_reference(
        &mut self,
        value: &str,
        component_count: u8,
        allow_qualified: bool,
        field: &str,
        current_namespace: &str,
        imports: &[&str],
        limits: &CompileLimits,
        expected_key: &str,
    ) -> (r: Result<(), DiagnosticBundle>)
        ensures
            ({
                let (c, e) = charge_reference_spec(
                    *old(self),
                    value.spec_bytes(),
                    component_count,
                    allow_qualified,
                    current_namespace.spec_bytes(),
                    imports@,
                    limits.spec_value(CompileLimitDimension::SingleStringBytes),
                );
                &&& *final(self) == c
                &&& match e {
                    None => r is Ok,
                    Some(v) => r matches Err(b) && b.is_semantic_error(field@, v, expected_key@),
                }
            }),
    {
        let parsed = match validate_wire_reference(value, component_count, allow_qualified) {
            Ok(p) => p,
            Err(violation) => {
                return Err(semantic_error(field, violation, expected_key));
            },
        };
        if let Some(namespace) = parsed.namespace() {
            if str_equal(namespace, current_namespace) || !imports_hold(imports, namespace) {
                return Err(semantic_error(field, RoadEditingInputViolation::InvalidCombination, expected_key));
            }
            self.external_namespace_reference_count = self.external_namespace_reference_count.saturating_add(1);
            self.charge_token(namespace, field, limits, expected_key)?;
        }
        let components = parsed.key_components();
        proof {
            assert(components@.map_values(|t: &str| t.spec_bytes()) =~= split_components(parsed.key_path_bytes()));
        }
        self.charge_components(&components, field, limits, expected_key)?;
        self.reference_count = self.reference_count.saturating_add(1);
        Ok(())
    }

    /// Counts one declaration of `kind` with its identity fields.
    pub fn charge_declaration(&mut self, kind: EntityKind)
        ensures
            *final(self) == old(self).with_declaration(kind),
    {
        self.declaration_count = self.declaration_count.saturating_add(1);
        self.symbol_count = self.symbol_count.saturating_add(1);
        self.typed_ast_record_count = self.typed_ast_record_count.saturating_add(1);
        self.identity_field_occurrence_count = self.identity_field_occurrence_count.saturating_add(
            identity_field_count(kind),
        );
    }

    /// Counts `count` relation occurrences.
    pub fn charge_relation(&mut self, count: usize)
        ensures
            *final(self) == (RoadEditingPreflightCounts {
                relation_occurrence_count: sat_add(old(self).relation_occurrence_count, count as int),
                ..*old(self)
            }),
    {
        self.relation_occurrence_count = self.relation_occurrence_count.saturating_add(count as u64);
    }

    /// Checks, without counting, that `count` more relation occurrences stay
    /// within the limit.
    pub fn require_relation_capacity(&self, count: usize, limits: &CompileLimits) -> (r: Result<
        (),
        DiagnosticBundle,
    >)
        ensures
            ({
                let observed = sat_add(self.relation_occurrence_count, count as int);
                let limit = limits.spec_value(CompileLimitDimension::RelationOccurrenceCount);
                if observed > limit {
                    r matches Err(b) && b.is_limit_error(
                        CompileLimitDimension::RelationOccurrenceCount,
                        limit,
                        observed,
                    )
                } else {
                    r is Ok
                }
            }),
    {
        let observed = self.relation_occurrence_count.saturating_add(count as u64);
        let limit = limits.value(CompileLimitDimension::RelationOccurrenceCount);
        if observed > limit {
            return Err(limit_error(CompileLimitDimension::RelationOccurrenceCount, limit, observed));
        }
        Ok(())
    }

    /// Holds the accounted counts to their limits, in a fixed order of
    /// dimensions; the first count over its limit is reported.
    pub fn validate(self, limits: &CompileLimits) -> (r: Result<Self, DiagnosticBundle>)
        ensures
            match counts_violation(self, *limits) {
                None => r == Ok::<Self, DiagnosticBundle>(self),
                Some((d, l, o)) => r matches Err(b) && b.is_limit_error(d, l, o),
            },
    {
        check_count(CompileLimitDimension::DeclarationCount, self.declaration_count, limits)?;
        check_count(CompileLimitDimension::TypedAstRecordCount, self.typed_ast_record_count, limits)?;
        check_count(CompileLimitDimension::ReferenceCount, self.reference_count, limits)?;
        check_count(CompileLimitDimension::RelationOccurrenceCount, self.relation_occurrence_count, limits)?;
        check_count(
            CompileLimitDimension::IdentityFieldOccurrenceCount,
            self.identity_field_occurrence_count,
            limits,
        )?;
        check_count(CompileLimitDimension::ManeuverGateCount, self.maneuver_gate_count, limits)?;
        check_count(CompileLimitDimension::WaitingZoneCount, self.waiting_zone_count, limits)?;
        check_count(CompileLimitDimension::SymbolCount, self.symbol_count, limits)?;
        check_count(CompileLimitDimension::StringItemCount, self.string_item_count, limits)?;
        check_count(CompileLimitDimension::TotalStringBytes, self.total_string_bytes, limits)?;
        Ok(self)
    }
}

/// Whether `imports` holds `namespace`.
fn imports_hold(imports: &[&str], namespace: &str) -> (r: bool)
    ensures
        r == imports_contain(imports@, namespace.spec_bytes()),
{
    let mut i: usize = 0;
    while i < imports.len()
        invariant
            i <= imports@.len(),
            forall|j: int| 0 <= j < i ==> (#[trigger] imports@[j]).spec_bytes() != namespace.spec_bytes(),
        decreases imports@.len() - i,
    {
        let import: &str = imports[i];
        if str_equal(import, namespace) {
            return true;
        }
        i = i + 1;
    }
    false
}

/// The single semantic source diagnostic for `field` of the document
/// `expected_key`.
pub fn semantic_error(field: &str, violation: RoadEditingInputViolation, expected_key: &str) -> (r:
    DiagnosticBundle)
    ensures
        r.is_semantic_error(field@, violation, expected_key@),
{
    DiagnosticBundle::single(
        Diagnostic {
            payload: DiagnosticPayload::InvalidRoadEditingSource {
                violation: RoadEditingSourceViolation::InvalidSemanticValue(violation),
                field: Some(String::from_str(field)),
                expected_key: String::from_str(expected_key),
                actual_key: Some(String::from_str(expected_key)),
            },
        },
    )
}

/// The semantic diagnostic for a field whose values do not combine.
pub fn invalid_combination(field: &str, expected_key: &str) -> (r: DiagnosticBundle)
    ensures
        r.is_semantic_error(field@, RoadEditingInputViolation::InvalidCombination, expected_key@),
{
    semantic_error(field, RoadEditingInputViolation::InvalidCombination, expected_key)
}

/// Requires the facility kind `value` to fall in the `expected` category.
pub fn validate_facility_kind_category(
    value: &str,
    expected: FacilityKindCategory,
    field: &str,
    expected_key: &str,
) -> (r: Result<(), DiagnosticBundle>)
    ensures
        facility_kind_category_spec(value.spec_bytes()) == Some(expected) ==> r is Ok,
        facility_kind_category_spec(value.spec_bytes()) != Some(expected) ==> (r matches Err(b)
            && b.is_semantic_error(field@, RoadEditingInputViolation::InvalidCombination, expected_key@)),
{
    match facility_kind_category(value) {
        Some(category) => {
            if category == expected {
                Ok(())
            } else {
                Err(invalid_combination(field, expected_key))
            }
        },
        None => Err(invalid_combination(field, expected_key)),
    }
}

/// Requires a signal time to be portable: at most 2^53 - 1 milliseconds, and
/// non-zero unless `allow_zero`.
pub fn validate_portable_signal_time(value: u64, allow_zero: bool, field: &str, expected_key: &str) -> (r:
    Result<(), DiagnosticBundle>)
    ensures
        ((allow_zero || value != 0) && value <= MAX_PORTABLE_SIGNAL_TIME_MS) ==> r is Ok,
        !((allow_zero || value != 0) && value <= MAX_PORTABLE_SIGNAL_TIME_MS) ==> (r matches Err(b)
            && b.is_semantic_error(field@, RoadEditingInputViolation::InvalidCombination, expected_key@)),
{
    if (!allow_zero && value == 0) || value > MAX_PORTABLE_SIGNAL_TIME_MS {
        return Err(invalid_combination(field, expected_key));
    }
    Ok(())
}

/// The (namespace, key path) parts of a reference: split at its first `::`,
/// or `namespace` with the whole reference when it is local.
pub open spec fn reference_parts_spec(value: Seq<u8>, namespace: Seq<u8>) -> (Seq<u8>, Seq<u8>) {
    if has_double_colon(value) {
        (value.take(first_double_colon(value)), value.skip(first_double_colon(value) + 2))
    } else {
        (namespace, value)
    }
}

/// Splits a reference into its namespace, defaulting to `namespace`, and its
/// key path.
pub fn reference_parts<'a>(value: &'a str, namespace: &'a str) -> (r: (&'a str, &'a str))
    ensures
        (r.0.spec_bytes(), r.1.spec_bytes()) == reference_parts_spec(value.spec_bytes(), namespace.spec_bytes()),
{
    match split_once_double_colon(value) {
        Some(parts) => parts,
        None => (namespace, value),
    }
}

/// Whether two references name the same target once local references are
/// read in `namespace`.
pub fn references_equal(left: &str, right: &str, namespace: &str) -> (r: bool)
    ensures
        r == (reference_parts_spec(left.spec_bytes(), namespace.spec_bytes()) == reference_parts_spec(
            right.spec_bytes(),
            namespace.spec_bytes(),
        )),
{
    let (left_namespace, left_path) = reference_parts(left, namespace);
    let (right_namespace, right_path) = reference_parts(right, namespace);
    str_equal(left_namespace, right_namespace) && str_equal(left_path, right_path)
}

/// The outcome of a corridor-owned reference check: the reference must
/// validate, be local, and have `corridor_key` as its first component.
pub open spec fn corridor_owned_check(s: Seq<u8>, component_count: u8, corridor_key: Seq<u8>) -> Option<
    RoadEditingInputViolation,
> {
    match wire_reference_spec(s, component_count, true) {
        Err(e) => Some(e),
        Ok((ns, kp)) => if ns is Some || split_components(kp).len() == 0 || split_components(kp)[0]
            != corridor_key {
            Some(RoadEditingInputViolation::InvalidCombination)
        } else {
            None
        },
    }
}

/// Requires `value` to be a local reference owned by the corridor `corridor_key`.
pub fn validate_corridor_owned_reference(
    value: &str,
    component_count: u8,
    corridor_key: &str,
    field: &str,
    expected_key: &str,
) -> (r: Result<(), DiagnosticBundle>)
    ensures
        match corridor_owned_check(value.spec_bytes(), component_count, corridor_key.spec_bytes()) {
            None => r is Ok,
            Some(v) => r matches Err(b) && b.is_semantic_error(field@, v, expected_key@),
        },
{
    let reference = match validate_wire_reference(value, component_count, true) {
        Ok(p) => p,
        Err(violation) => {
            return Err(semantic_error(field, violation, expected_key));
        },
    };
    if reference.namespace().is_some() {
        return Err(invalid_combination(field, expected_key));
    }
    let components = reference.key_components();
    if components.len() == 0 || !str_equal(components[0], corridor_key) {
        return Err(invalid_combination(field, expected_key));
    }
    Ok(())
}

/// The bytes of a two-part key.
pub open spec fn key_bytes(k: (&str, &str)) -> (Seq<u8>, Seq<u8>) {
    (k.0.spec_bytes(), k.1.spec_bytes())
}

/// Some later key of `keys` equals the key at `i`.
pub open spec fn has_later_duplicate(keys: Seq<(&str, &str)>, i: int) -> bool {
    exists|j: int| i < j < keys.len() && key_bytes(#[trigger] keys[j]) == key_bytes(keys[i])
}

/// Two keys of `keys` are equal.
pub open spec fn has_duplicate(keys: Seq<(&str, &str)>) -> bool {
    exists|i: int| 0 <= i < keys.len() && #[trigger] has_later_duplicate(keys, i)
}

/// `i` is the earliest position whose key occurs again later.
pub open spec fn is_first_duplicate(keys: Seq<(&str, &str)>, i: int) -> bool {
    &&& 0 <= i < keys.len()
    &&& has_later_duplicate(keys, i)
    &&& forall|p: int| 0 <= p < i ==> !#[trigger] has_later_duplicate(keys, p)
}

/// The earliest position whose key occurs again later, if any.
pub open spec fn first_duplicate(keys: Seq<(&str, &str)>) -> Option<int> {
    if has_duplicate(keys) {
        Some(choose|i: int| is_first_duplicate(keys, i))
    } else {
        None
    }
}

/// The scratch pass after a temporary index of `bytes` was granted as
/// `live` and released again.
pub open spec fn reserved_and_released(before: PreflightScratch, after: PreflightScratch, live: u64) -> bool {
    &&& after.spec_limits() == before.spec_limits()
    &&& after.admitted() == before.admitted()
    &&& after.live() == before.live()
    &&& after.peak() == (if live > before.peak() {
        live
    } else {
        before.peak()
    })
}

/// The scratch need of a duplicate index of `n` entries of type `K`: none
/// below two entries.
pub open spec fn unique_need<K>(n: nat) -> nat {
    if n < 2 {
        0
    } else {
        n * vstd::layout::size_of::<K>()
    }
}

/// The earliest position of `keys` whose key occurs again later.
fn scan_first_duplicate(keys: &[(&str, &str)]) -> (r: Option<usize>)
    ensures
        match r {
            Some(i) => is_first_duplicate(keys@, i as int),
            None => !has_duplicate(keys@),
        },
{
    let mut i: usize = 0;
    while i < keys.len()
        invariant
            i <= keys@.len(),
            forall|p: int| 0 <= p < i ==> !#[trigger] has_later_duplicate(keys@, p),
        decreases keys@.len() - i,
    {
        let mut j: usize = i + 1;
        while j < keys.len()
            invariant
                i < keys@.len(),
                i + 1 <= j <= keys@.len(),
                forall|p: int| 0 <= p < i ==> !#[trigger] has_later_duplicate(keys@, p),
                forall|q: int| i < q < j ==> key_bytes(#[trigger] keys@[q]) != key_bytes(keys@[i as int]),
            decreases keys@.len() - j,
        {
            let (a0, a1) = keys[i];
            let (b0, b1) = keys[j];
            if str_equal(a0, b0) && str_equal(a1, b1) {
                proof {
                    assert(key_bytes(keys@[j as int]) == key_bytes(keys@[i as int]));
                    assert(has_later_duplicate(keys@, i as int));
                }
                return Some(i);
            }
            j = j + 1;
        }
        i = i + 1;
    }
    None
}

/// Reserves scratch room for `keys.len()` index entries of type `K`, as the
/// duplicate index would hold them, finds the earliest position whose key
/// occurs again later, and returns the room. Fewer than two keys need no index.
pub fn first_duplicate_index<K>(keys: &[(&str, &str)], scratch: &mut PreflightScratch) -> (r: Result<
    Option<usize>,
    DiagnosticBundle,
>)
    ensures
        keys@.len() < 2 ==> r == Ok::<Option<usize>, DiagnosticBundle>(None) && *final(scratch) == *old(scratch),
        keys@.len() >= 2 ==> match scratch_request(
            old(scratch).spec_limits(),
            old(scratch).admitted(),
            old(scratch).live(),
            (keys@.len() * vstd::layout::size_of::<K>()) as int,
        ) {
            Err((d, l, o)) => (r matches Err(b) && b.is_limit_error(d, l, o)) && final(scratch).live()
                == old(scratch).live() && final(scratch).peak() == old(scratch).peak(),
            Ok(live) => reserved_and_released(*old(scratch), *final(scratch), live) && peak_lifted(
                *old(scratch),
                *final(scratch),
                unique_need::<K>(keys@.len()),
            ) && match first_duplicate(
                keys@,
            ) {
                Some(i) => r == Ok::<Option<usize>, DiagnosticBundle>(Some(i as usize)),
                None => r == Ok::<Option<usize>, DiagnosticBundle>(None),
            },
        },
        scratch_restored(*old(scratch), *final(scratch)),
{
    if keys.len() < 2 {
        return Ok(None);
    }
    let bytes = scratch.reserve::<K>(keys.len())?;
    let found = scan_first_duplicate(keys);
    scratch.release(bytes);
    proof {
        if let Some(i) = found {
            let k = choose|k: int| is_first_duplicate(keys@, k);
            assert(is_first_duplicate(keys@, k));
            if k < i {
                assert(!has_later_duplicate(keys@, k));
            }
            if i < k {
                assert(!has_later_duplicate(keys@, i as int));
            }
        }
    }
    Ok(found)
}

/// Reserves scratch room for `keys.len()` index entries of type `K` and
/// requires the keys to be pairwise distinct.
pub fn ensure_unique_by<K>(
    keys: &[(&str, &str)],
    field: &str,
    expected_key: &str,
    scratch: &mut PreflightScratch,
) -> (r: Result<(), DiagnosticBundle>)
    ensures
        keys@.len() < 2 ==> r is Ok && *final(scratch) == *old(scratch),
        keys@.len() >= 2 ==> match scratch_request(
            old(scratch).spec_limits(),
            old(scratch).admitted(),
            old(scratch).live(),
            (keys@.len() * vstd::layout::size_of::<K>()) as int,
        ) {
            Err((d, l, o)) => (r matches Err(b) && b.is_limit_error(d, l, o)) && final(scratch).live()
                == old(scratch).live() && final(scratch).peak() == old(scratch).peak(),
            Ok(live) => reserved_and_released(*old(scratch), *final(scratch), live) && peak_lifted(
                *old(scratch),
                *final(scratch),
                unique_need::<K>(keys@.len()),
            ) && if has_duplicate(
                keys@,
            ) {
                r matches Err(b) && b.is_semantic_error(
                    field@,
                    RoadEditingInputViolation::DuplicateValue,
                    expected_key@,
                )
            } else {
                r is Ok
            },
        },
        scratch_restored(*old(scratch), *final(scratch)),
{
    if keys.len() < 2 {
        return Ok(());
    }
    let bytes = scratch.reserve::<K>(keys.len())?;
    let found = scan_first_duplicate(keys);
    scratch.release(bytes);
    if found.is_some() {
        return Err(semantic_error(field, RoadEditingInputViolation::DuplicateValue, expected_key));
    }
    Ok(())
}

/// A failed preflight stage: a limit `Ok((dimension, limit, observed))`, or a
/// semantic violation `Err((field, violation))`.
pub type StageFailure = Result<(CompileLimitDimension, u64, u64), (Seq<char>, RoadEditingInputViolation)>;

/// Whether `b` is the diagnostic of `f` for the document `expected_key`.
pub open spec fn stage_reports(b: DiagnosticBundle, f: StageFailure, expected_key: Seq<char>) -> bool {
    match f {
        Ok((d, l, o)) => b.is_limit_error(d, l, o),
        Err((field, v)) => b.is_semantic_error(field, v, expected_key),
    }
}

/// Runs `step` over `items` in order, each with its position, stopping at the
/// first failure.
pub open spec fn fold_steps<T>(
    c: RoadEditingPreflightCounts,
    items: Seq<T>,
    step: spec_fn(RoadEditingPreflightCounts, int, T) -> Result<RoadEditingPreflightCounts, StageFailure>,
) -> Result<RoadEditingPreflightCounts, StageFailure>
    decreases items.len(),
{
    if items.len() == 0 {
        Ok(c)
    } else {
        match fold_steps(c, items.drop_last(), step) {
            Err(f) => Err(f),
            Ok(c1) => step(c1, items.len() - 1, items.last()),
        }
    }
}

/// One more item extends a fold by one step.
pub proof fn lemma_fold_extend<T>(
    c: RoadEditingPreflightCounts,
    items: Seq<T>,
    step: spec_fn(RoadEditingPreflightCounts, int, T) -> Result<RoadEditingPreflightCounts, StageFailure>,
    k: int,
)
    requires
        0 <= k < items.len(),
    ensures
        fold_steps(c, items.take(k + 1), step) == match fold_steps(c, items.take(k), step) {
            Err(f) => Err(f),
            Ok(c1) => step(c1, k, items[k]),
        },
{
    assert(items.take(k + 1).drop_last() =~= items.take(k));
}

/// Once a fold fails, later items change nothing.
pub proof fn lemma_fold_stops<T>(
    c: RoadEditingPreflightCounts,
    items: Seq<T>,
    step: spec_fn(RoadEditingPreflightCounts, int, T) -> Result<RoadEditingPreflightCounts, StageFailure>,
    k: int,
)
    requires
        0 <= k <= items.len(),
        fold_steps(c, items.take(k), step) is Err,
    ensures
        fold_steps(c, items, step) == fold_steps(c, items.take(k), step),
    decreases items.len(),
{
    if k == items.len() {
        assert(items.take(k) =~= items);
    } else {
        assert(items.drop_last().take(k) =~= items.take(k));
        lemma_fold_stops(c, items.drop_last(), step, k);
    }
}

/// A fold over all items is the fold over their full prefix.
pub proof fn lemma_fold_all<T>(
    c: RoadEditingPreflightCounts,
    items: Seq<T>,
    step: spec_fn(RoadEditingPreflightCounts, int, T) -> Result<RoadEditingPreflightCounts, StageFailure>,
)
    ensures
        fold_steps(c, items.take(items.len() as int), step) == fold_steps(c, items, step),
{
    assert(items.take(items.len() as int) =~= items);
}

/// Charges one token at `field`.
pub open spec fn token_step(c: RoadEditingPreflightCounts, s: Seq<u8>, limit: u64, field: Seq<char>) -> Result<
    RoadEditingPreflightCounts,
    StageFailure,
> {
    match token_violation_spec(s, limit, true) {
        Some(v) => Err(Err((field, v))),
        None => Ok(c.with_string(s.len() as int)),
    }
}

/// Charges an optional canvas selection token.
pub open spec fn canvas_step(c: RoadEditingPreflightCounts, value: Option<&str>, limit: u64) -> Result<
    RoadEditingPreflightCounts,
    StageFailure,
> {
    match value {
        None => Ok(c),
        Some(v) => token_step(c, v.spec_bytes(), limit, "canvasSelection"@),
    }
}

/// Charges one wire reference at `field`.
pub open spec fn reference_step(
    c: RoadEditingPreflightCounts,
    s: Seq<u8>,
    component_count: u8,
    allow_qualified: bool,
    namespace: Seq<u8>,
    imports: Seq<&str>,
    limit: u64,
    field: Seq<char>,
) -> Result<RoadEditingPreflightCounts, StageFailure> {
    let (c1, e) = charge_reference_spec(c, s, component_count, allow_qualified, namespace, imports, limit);
    match e {
        None => Ok(c1),
        Some(v) => Err(Err((field, v))),
    }
}

/// Requires a portable signal time at `field`.
pub open spec fn signal_time_step(c: RoadEditingPreflightCounts, value: u64, allow_zero: bool, field: Seq<char>) -> Result<
    RoadEditingPreflightCounts,
    StageFailure,
> {
    if (allow_zero || value != 0) && value <= MAX_PORTABLE_SIGNAL_TIME_MS {
        Ok(c)
    } else {
        Err(Err((field, RoadEditingInputViolation::InvalidCombination)))
    }
}

/// Two strings of `values` have the same bytes.
pub open spec fn strs_repeat(values: Seq<&str>) -> bool {
    exists|i: int, j: int| 0 <= i < j < values.len() && values[i].spec_bytes() == values[j].spec_bytes()
}

/// Two references of `values` name the same target read in `namespace`.
pub open spec fn references_repeat(values: Seq<&str>, namespace: Seq<u8>) -> bool {
    exists|i: int, j: int|
        0 <= i < j < values.len() && reference_parts_spec(values[i].spec_bytes(), namespace)
            == reference_parts_spec(values[j].spec_bytes(), namespace)
}

/// The outcome of requiring `n` keys of type `K` to be distinct, `repeat`
/// telling whether two are equal: fewer than two keys need no index;
/// otherwise the index needs room in the scratch pass.
pub open spec fn unique_step<K>(n: nat, repeat: bool, scratch: PreflightScratch, field: Seq<char>) -> Option<
    StageFailure,
> {
    if n < 2 {
        None
    } else {
        match scratch_request(
            scratch.spec_limits(),
            scratch.admitted(),
            scratch.live(),
            (n * vstd::layout::size_of::<K>()) as int,
        ) {
            Err(l) => Some(Ok(l)),
            Ok(_) => if repeat {
                Some(Err((field, RoadEditingInputViolation::DuplicateValue)))
            } else {
                None
            },
        }
    }
}

/// `after` holds the limits and live bytes of `before`, with a peak no lower.
pub open spec fn scratch_restored(before: PreflightScratch, after: PreflightScratch) -> bool {
    &&& after.spec_limits() == before.spec_limits()
    &&& after.admitted() == before.admitted()
    &&& after.live() == before.live()
    &&& before.peak() <= after.peak()
}

/// Requires the strings of `values` to be distinct, reserving room for their
/// index of `&str` keys in `scratch`.
pub fn ensure_unique_strings(
    values: &[&str],
    field: &str,
    expected_key: &str,
    scratch: &mut PreflightScratch,
) -> (r: Result<(), DiagnosticBundle>)
    ensures
        match unique_step::<&str>(values@.len(), strs_repeat(values@), *old(scratch), field@) {
            None => r is Ok,
            Some(f) => r matches Err(b) && stage_reports(b, f, expected_key@),
        },
        scratch_restored(*old(scratch), *final(scratch)),
        r is Ok ==> peak_lifted(*old(scratch), *final(scratch), unique_need::<&str>(values@.len())),
{
    if values.len() < 2 {
        return Ok(());
    }
    let bytes = scratch.reserve::<&str>(values.len())?;
    let ghost s1 = *scratch;
    let mut i: usize = 0;
    while i < values.len()
        invariant
            i <= values@.len(),
            *scratch == s1,
            s1.live() >= bytes,
            s1.live() - bytes == old(scratch).live(),
            s1.spec_limits() == old(scratch).spec_limits(),
            s1.admitted() == old(scratch).admitted(),
            old(scratch).peak() <= s1.peak(),
            scratch_request(
                old(scratch).spec_limits(),
                old(scratch).admitted(),
                old(scratch).live(),
                (values@.len() * vstd::layout::size_of::<&str>()) as int,
            ) is Ok,
            forall|a: int, b: int|
                0 <= a < b < values@.len() && a < i ==> values@[a].spec_bytes() != values@[b].spec_bytes(),
        decreases values@.len() - i,
    {
        let mut j: usize = i + 1;
        while j < values.len()
            invariant
                i < values@.len(),
                i + 1 <= j <= values@.len(),
                *scratch == s1,
                s1.live() >= bytes,
                s1.live() - bytes == old(scratch).live(),
                s1.spec_limits() == old(scratch).spec_limits(),
                s1.admitted() == old(scratch).admitted(),
                old(scratch).peak() <= s1.peak(),
                scratch_request(
                    old(scratch).spec_limits(),
                    old(scratch).admitted(),
                    old(scratch).live(),
                    (values@.len() * vstd::layout::size_of::<&str>()) as int,
                ) is Ok,
                forall|a: int, b: int|
                    0 <= a < b < values@.len() && a < i ==> values@[a].spec_bytes() != values@[b].spec_bytes(),
                forall|b: int| i < b < j ==> values@[i as int].spec_bytes() != values@[b].spec_bytes(),
            decreases values@.len() - j,
        {
            if str_equal(values[i], values[j]) {
                scratch.release(bytes);
                return Err(semantic_error(field, RoadEditingInputViolation::DuplicateValue, expected_key));
            }
            j = j + 1;
        }
        i = i + 1;
    }
    scratch.release(bytes);
    Ok(())
}

/// Requires the references of `values` to name distinct targets read in
/// `namespace`, reserving room for their index of `(namespace, key path)`
/// keys in `scratch`.
pub fn ensure_unique_references(
    values: &[&str],
    namespace: &str,
    field: &str,
    expected_key: &str,
    scratch: &mut PreflightScratch,
) -> (r: Result<(), DiagnosticBundle>)
    ensures
        match unique_step::<(&str, &str)>(
            values@.len(),
            references_repeat(values@, namespace.spec_bytes()),
            *old(scratch),
            field@,
        ) {
            None => r is Ok,
            Some(f) => r matches Err(b) && stage_reports(b, f, expected_key@),
        },
        scratch_restored(*old(scratch), *final(scratch)),
        r is Ok ==> peak_lifted(*old(scratch), *final(scratch), unique_need::<(&str, &str)>(values@.len())),
{
    if values.len() < 2 {
        return Ok(());
    }
    let bytes = scratch.reserve::<(&str, &str)>(values.len())?;
    let ghost s1 = *scratch;
    let ghost ns = namespace.spec_bytes();
    let mut i: usize = 0;
    while i < values.len()
        invariant
            i <= values@.len(),
            ns == namespace.spec_bytes(),
            *scratch == s1,
            s1.live() >= bytes,
            s1.live() - bytes == old(scratch).live(),
            s1.spec_limits() == old(scratch).spec_limits(),
            s1.admitted() == old(scratch).admitted(),
            old(scratch).peak() <= s1.peak(),
            scratch_request(
                old(scratch).spec_limits(),
                old(scratch).admitted(),
                old(scratch).live(),
                (values@.len() * vstd::layout::size_of::<(&str, &str)>()) as int,
            ) is Ok,
            forall|a: int, b: int|
                0 <= a < b < values@.len() && a < i ==> reference_parts_spec(values@[a].spec_bytes(), ns)
                    != reference_parts_spec(values@[b].spec_bytes(), ns),
        decreases values@.len() - i,
    {
        let mut j: usize = i + 1;
        while j < values.len()
            invariant
                i < values@.len(),
                i + 1 <= j <= values@.len(),
                ns == namespace.spec_bytes(),
                *scratch == s1,
                s1.live() >= bytes,
                s1.live() - bytes == old(scratch).live(),
                s1.spec_limits() == old(scratch).spec_limits(),
                s1.admitted() == old(scratch).admitted(),
                old(scratch).peak() <= s1.peak(),
                scratch_request(
                    old(scratch).spec_limits(),
                    old(scratch).admitted(),
                    old(scratch).live(),
                    (values@.len() * vstd::layout::size_of::<(&str, &str)>()) as int,
                ) is Ok,
                forall|a: int, b: int|
                    0 <= a < b < values@.len() && a < i ==> reference_parts_spec(values@[a].spec_bytes(), ns)
                        != reference_parts_spec(values@[b].spec_bytes(), ns),
                forall|b: int|
                    i < b < j ==> reference_parts_spec(values@[i as int].spec_bytes(), ns) != reference_parts_spec(
                        values@[b].spec_bytes(),
                        ns,
                    ),
            decreases values@.len() - j,
        {
            if references_equal(values[i], values[j], namespace) {
                scratch.release(bytes);
                return Err(semantic_error(field, RoadEditingInputViolation::DuplicateValue, expected_key));
            }
            j = j + 1;
        }
        i = i + 1;
    }
    scratch.release(bytes);
    Ok(())
}

/// The check of a reference vector at `field`: non-empty when asked, within
/// the relation limit when it is a relation, with distinct targets when
/// asked; then counted as relation occurrences and each reference charged.
pub open spec fn reference_vector_step(
    c: RoadEditingPreflightCounts,
    values: Seq<&str>,
    component_count: u8,
    field: Seq<char>,
    non_empty: bool,
    unique: bool,
    relation: bool,
    namespace: Seq<u8>,
    imports: Seq<&str>,
    scratch: PreflightScratch,
) -> Result<RoadEditingPreflightCounts, StageFailure> {
    let limits = scratch.spec_limits();
    let limit = limits.spec_value(CompileLimitDimension::SingleStringBytes);
    let n = values.len();
    let relation_limit = limits.spec_value(CompileLimitDimension::RelationOccurrenceCount);
    let observed = sat_add(c.relation_occurrence_count, n as int);
    if non_empty && n == 0 {
        Err(Err((field, RoadEditingInputViolation::EmptyCollection)))
    } else if relation && observed > relation_limit {
        Err(Ok((CompileLimitDimension::RelationOccurrenceCount, relation_limit, observed)))
    } else if unique && unique_step::<(&str, &str)>(n, references_repeat(values, namespace), scratch, field) is Some {
        Err(unique_step::<(&str, &str)>(n, references_repeat(values, namespace), scratch, field)->Some_0)
    } else {
        let c1 = if relation {
            RoadEditingPreflightCounts { relation_occurrence_count: observed, ..c }
        } else {
            c
        };
        fold_steps(
            c1,
            values,
            |c: RoadEditingPreflightCounts, i: int, v: &str|
                reference_step(c, v.spec_bytes(), component_count, true, namespace, imports, limit, field),
        )
    }
}

/// The scratch need of a reference vector of `n` values: the duplicate
/// index when the targets must be distinct.
pub open spec fn reference_vector_need(n: nat, unique: bool) -> nat {
    if unique {
        unique_need::<(&str, &str)>(n)
    } else {
        0
    }
}

/// A reference vector check reads only the limits and the live bytes of the
/// scratch pass.
pub proof fn lemma_reference_vector_step_restored(
    c: RoadEditingPreflightCounts,
    values: Seq<&str>,
    component_count: u8,
    field: Seq<char>,
    non_empty: bool,
    namespace: Seq<u8>,
    imports: Seq<&str>,
    a: PreflightScratch,
    b: PreflightScratch,
)
    requires
        scratch_restored(a, b),
    ensures
        reference_vector_step(c, values, component_count, field, non_empty, true, true, namespace, imports, a)
            == reference_vector_step(c, values, component_count, field, non_empty, true, true, namespace, imports, b),
{
}

/// Checks and charges a reference vector; see [`reference_vector_step`].
pub fn validate_reference_vector(
    usage: &mut RoadEditingPreflightCounts,
    values: &[&str],
    component_count: u8,
    field: &str,
    non_empty: bool,
    unique: bool,
    relation: bool,
    namespace: &str,
    imports: &[&str],
    scratch: &mut PreflightScratch,
    expected_key: &str,
) -> (r: Result<(), DiagnosticBundle>)
    ensures
        match reference_vector_step(
            *old(usage),
            values@,
            component_count,
            field@,
            non_empty,
            unique,
            relation,
            namespace.spec_bytes(),
            imports@,
            *old(scratch),
        ) {
            Ok(c) => r is Ok && *final(usage) == c,
            Err(f) => r matches Err(b) && stage_reports(b, f, expected_key@),
        },
        scratch_restored(*old(scratch), *final(scratch)),
        r is Ok ==> peak_lifted(*old(scratch), *final(scratch), reference_vector_need(values@.len(), unique)),
{
    if non_empty && values.len() == 0 {
        return Err(semantic_error(field, RoadEditingInputViolation::EmptyCollection, expected_key));
    }
    let limits = *scratch.limits();
    if relation {
        usage.require_relation_capacity(values.len(), &limits)?;
    }
    if unique {
        ensure_unique_references(values, namespace, field, expected_key, scratch)?;
    }
    if relation {
        usage.charge_relation(values.len());
    }
    let ghost limit = limits.spec_value(CompileLimitDimension::SingleStringBytes);
    let ghost step = |c: RoadEditingPreflightCounts, i: int, v: &str|
        reference_step(c, v.spec_bytes(), component_count, true, namespace.spec_bytes(), imports@, limit, field@);
    let ghost start = *usage;
    assert(reference_vector_step(
        *old(usage),
        values@,
        component_count,
        field@,
        non_empty,
        unique,
        relation,
        namespace.spec_bytes(),
        imports@,
        *old(scratch),
    ) == fold_steps(start, values@, step));
    let ghost s1 = *scratch;
    let mut i: usize = 0;
    while i < values.len()
        invariant
            i <= values@.len(),
            *scratch == s1,
            scratch_restored(*old(scratch), s1),
            peak_lifted(*old(scratch), s1, reference_vector_need(values@.len(), unique)),
            reference_vector_step(
                *old(usage),
                values@,
                component_count,
                field@,
                non_empty,
                unique,
                relation,
                namespace.spec_bytes(),
                imports@,
                *old(scratch),
            ) == fold_steps(start, values@, step),
            limit == limits.spec_value(CompileLimitDimension::SingleStringBytes),
            step == (|c: RoadEditingPreflightCounts, i: int, v: &str|
                reference_step(c, v.spec_bytes(), component_count, true, namespace.spec_bytes(), imports@, limit, field@)),
            fold_steps(start, values@.take(i as int), step) == Ok::<RoadEditingPreflightCounts, StageFailure>(*usage),
        decreases values@.len() - i,
    {
        proof {
            lemma_fold_extend(start, values@, step, i as int);
        }
        match usage.charge_reference(values[i], component_count, true, field, namespace, imports, &limits, expected_key) {
            Ok(()) => {},
            Err(e) => {
                proof {
                    lemma_fold_stops(start, values@, step, i + 1);
                }
                return Err(e);
            },
        }
        i = i + 1;
    }
    proof {
        lemma_fold_all(start, values@, step);
    }
    Ok(())
}

} // verus!
