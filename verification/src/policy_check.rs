//! Field preflight of the right-of-way policy sets of a verified source: the
//! policy tables must carry no field unknown to this version, their keys and
//! texts are charged, their references checked, their relations counted.

use vstd::prelude::*;
use vstd::string::StringSliceAdditionalSpecFns;

use crate::declaration::EntityKind;
use crate::diagnostic::{DiagnosticBundle, RoadEditingInputViolation};
use crate::limits::{CompileLimitDimension, CompileLimits};
use crate::preflight::{
    fold_steps, lemma_fold_all, lemma_fold_extend, lemma_fold_stops, non_empty_text_violation_spec,
    reference_step, sat_add, semantic_error, stage_reports, strs_repeat, token_step, RoadEditingPreflightCounts,
    StageFailure,
};
use crate::scratch::limit_error;
use crate::split::str_equal;

verus! {

/// Some field at or past `known` is present.
pub open spec fn has_unknown_field(slots: Seq<u16>, known: nat) -> bool {
    exists|i: int| known <= i < slots.len() && slots[i] != 0
}

/// A table must carry no field past the `known` fields of this version.
pub open spec fn closed_step(c: RoadEditingPreflightCounts, slots: Seq<u16>, known: nat) -> Result<
    RoadEditingPreflightCounts,
    StageFailure,
> {
    if has_unknown_field(slots, known) {
        Err(Err(("unknownField"@, RoadEditingInputViolation::InvalidCombination)))
    } else {
        Ok(c)
    }
}

/// Requires the table with field slots `slots` to carry no field past the
/// first `known`.
pub fn closed_table(slots: &[u16], known: usize, key: &str) -> (r: Result<(), DiagnosticBundle>)
    ensures
        !has_unknown_field(slots@, known as nat) ==> r is Ok,
        has_unknown_field(slots@, known as nat) ==> (r matches Err(b) && b.is_semantic_error(
            "unknownField"@,
            RoadEditingInputViolation::InvalidCombination,
            key@,
        )),
{
    let mut i: usize = known;
    while i < slots.len()
        invariant
            known <= i,
            i <= slots@.len() || slots@.len() <= known,
            forall|j: int| known <= j < i && j < slots@.len() ==> slots@[j] == 0,
        decreases slots@.len() - i,
    {
        if slots[i] != 0 {
            return Err(semantic_error("unknownField", RoadEditingInputViolation::InvalidCombination, key));
        }
        i = i + 1;
    }
    Ok(())
}

/// Counts a free text of at most the single-string limit.
pub open spec fn text_step(c: RoadEditingPreflightCounts, s: Seq<u8>, limit: u64) -> Result<
    RoadEditingPreflightCounts,
    StageFailure,
> {
    if s.len() > limit {
        Err(Ok((CompileLimitDimension::SingleStringBytes, limit, s.len() as u64)))
    } else {
        Ok(c.with_string(s.len() as int))
    }
}

/// Counts a non-empty text at `field`.
pub open spec fn non_empty_text_step(c: RoadEditingPreflightCounts, s: Seq<u8>, limit: u64, field: Seq<char>) -> Result<
    RoadEditingPreflightCounts,
    StageFailure,
> {
    match non_empty_text_violation_spec(s, limit) {
        Some(v) => Err(Err((field, v))),
        None => Ok(c.with_string(s.len() as int)),
    }
}

/// The counts with `n` more relation occurrences.
pub open spec fn with_relations(c: RoadEditingPreflightCounts, n: int) -> RoadEditingPreflightCounts {
    RoadEditingPreflightCounts { relation_occurrence_count: sat_add(c.relation_occurrence_count, n), ..c }
}

/// The counts with `n` more typed AST records.
pub open spec fn with_records(c: RoadEditingPreflightCounts, n: int) -> RoadEditingPreflightCounts {
    RoadEditingPreflightCounts { typed_ast_record_count: sat_add(c.typed_ast_record_count, n), ..c }
}

/// Charges each token of `values` at `field`, in order.
pub open spec fn token_list_step(c: RoadEditingPreflightCounts, values: Seq<&str>, limit: u64, field: Seq<char>) -> Result<
    RoadEditingPreflightCounts,
    StageFailure,
> {
    fold_steps(c, values, |c: RoadEditingPreflightCounts, i: int, v: &str| token_step(c, v.spec_bytes(), limit, field))
}

/// Charges each reference of `values` at `field`, in order.
pub open spec fn reference_list_step(
    c: RoadEditingPreflightCounts,
    values: Seq<&str>,
    component_count: u8,
    namespace: Seq<u8>,
    imports: Seq<&str>,
    limit: u64,
    field: Seq<char>,
) -> Result<RoadEditingPreflightCounts, StageFailure> {
    fold_steps(
        c,
        values,
        |c: RoadEditingPreflightCounts, i: int, v: &str|
            reference_step(c, v.spec_bytes(), component_count, true, namespace, imports, limit, field),
    )
}

/// Optional participant classes: when present, a non-empty list of class
/// references.
pub open spec fn classes_step(
    c: RoadEditingPreflightCounts,
    classes: Option<Seq<&str>>,
    namespace: Seq<u8>,
    imports: Seq<&str>,
    limit: u64,
) -> Result<RoadEditingPreflightCounts, StageFailure> {
    match classes {
        None => Ok(c),
        Some(v) => if v.len() == 0 {
            Err(Err(("policyRule.participantClasses"@, RoadEditingInputViolation::EmptyCollection)))
        } else {
            reference_list_step(c, v, 1, namespace, imports, limit, "policyRule.participantClasses"@)
        },
    }
}

/// The view of optional participant classes.
pub open spec fn classes_view(classes: Option<Vec<&str>>) -> Option<Seq<&str>> {
    match classes {
        None => None,
        Some(v) => Some(v@),
    }
}

/// The single-string limit of `limits`.
pub open spec fn single_string_limit(limits: CompileLimits) -> u64 {
    limits.spec_value(CompileLimitDimension::SingleStringBytes)
}

/// Counts a free text of at most the single-string limit; see [`text_step`].
pub fn charge_text(usage: &mut RoadEditingPreflightCounts, value: &str, limits: &CompileLimits) -> (r: Result<
    (),
    DiagnosticBundle,
>)
    ensures
        match text_step(*old(usage), value.spec_bytes(), single_string_limit(*limits)) {
            Ok(c) => r is Ok && *final(usage) == c,
            Err(Ok((d, l, o))) => r matches Err(b) && b.is_limit_error(d, l, o),
            Err(Err(_)) => false,
        },
{
    let observed = value.as_bytes().len() as u64;
    let limit = limits.value(CompileLimitDimension::SingleStringBytes);
    if observed > limit {
        return Err(limit_error(CompileLimitDimension::SingleStringBytes, limit, observed));
    }
    usage.string_item_count = usage.string_item_count.saturating_add(1);
    usage.total_string_bytes = usage.total_string_bytes.saturating_add(observed);
    Ok(())
}

/// Charges each token of `values` at `field`; see [`token_list_step`].
pub fn charge_token_list(
    usage: &mut RoadEditingPreflightCounts,
    values: &[&str],
    field: &str,
    limits: &CompileLimits,
    key: &str,
) -> (r: Result<(), DiagnosticBundle>)
    ensures
        match token_list_step(*old(usage), values@, single_string_limit(*limits), field@) {
            Ok(c) => r is Ok && *final(usage) == c,
            Err(f) => r matches Err(b) && stage_reports(b, f, key@),
        },
{
    let ghost limit = single_string_limit(*limits);
    let ghost step = |c: RoadEditingPreflightCounts, i: int, v: &str| token_step(c, v.spec_bytes(), limit, field@);
    let ghost start = *usage;
    let mut i: usize = 0;
    while i < values.len()
        invariant
            i <= values@.len(),
            start == *old(usage),
            limit == single_string_limit(*limits),
            step == (|c: RoadEditingPreflightCounts, i: int, v: &str| token_step(c, v.spec_bytes(), limit, field@)),
            fold_steps(start, values@.take(i as int), step) == Ok::<RoadEditingPreflightCounts, StageFailure>(*usage),
        decreases values@.len() - i,
    {
        proof {
            lemma_fold_extend(start, values@, step, i as int);
        }
        match usage.charge_token(values[i], field, limits, key) {
            Ok(()) => {},
            Err(e) => {
                proof {
                    lemma_fold_stops(start, values@, step, i + 1);
                }
                return Err(e);
            },
        }
        i = i + 1;
    }
    proof {
        lemma_fold_all(start, values@, step);
    }
    Ok(())
}

/// Charges each reference of `values` at `field`; see [`reference_list_step`].
pub fn charge_reference_list(
    usage: &mut RoadEditingPreflightCounts,
    values: &[&str],
    component_count: u8,
    field: &str,
    namespace: &str,
    imports: &[&str],
    limits: &CompileLimits,
    key: &str,
) -> (r: Result<(), DiagnosticBundle>)
    ensures
        match reference_list_step(
            *old(usage),
            values@,
            component_count,
            namespace.spec_bytes(),
            imports@,
            single_string_limit(*limits),
            field@,
        ) {
            Ok(c) => r is Ok && *final(usage) == c,
            Err(f) => r matches Err(b) && stage_reports(b, f, key@),
        },
{
    let ghost limit = single_string_limit(*limits);
    let ghost step = |c: RoadEditingPreflightCounts, i: int, v: &str|
        reference_step(c, v.spec_bytes(), component_count, true, namespace.spec_bytes(), imports@, limit, field@);
    let ghost start = *usage;
    let mut i: usize = 0;
    while i < values.len()
        invariant
            i <= values@.len(),
            start == *old(usage),
            limit == single_string_limit(*limits),
            step == (|c: RoadEditingPreflightCounts, i: int, v: &str|
                reference_step(c, v.spec_bytes(), component_count, true, namespace.spec_bytes(), imports@, limit, field@)),
            fold_steps(start, values@.take(i as int), step) == Ok::<RoadEditingPreflightCounts, StageFailure>(*usage),
        decreases values@.len() - i,
    {
        proof {
            lemma_fold_extend(start, values@, step, i as int);
        }
        match usage.charge_reference(values[i], component_count, true, field, namespace, imports, limits, key) {
            Ok(()) => {},
            Err(e) => {
                proof {
                    lemma_fold_stops(start, values@, step, i + 1);
                }
                return Err(e);
            },
        }
        i = i + 1;
    }
    proof {
        lemma_fold_all(start, values@, step);
    }
    Ok(())
}

/// Checks optional participant classes; see [`classes_step`].
pub fn charge_classes(
    usage: &mut RoadEditingPreflightCounts,
    classes: &Option<Vec<&str>>,
    namespace: &str,
    imports: &[&str],
    limits: &CompileLimits,
    key: &str,
) -> (r: Result<(), DiagnosticBundle>)
    ensures
        match classes_step(*old(usage), classes_view(*classes), namespace.spec_bytes(), imports@, single_string_limit(*limits)) {
            Ok(c) => r is Ok && *final(usage) == c,
            Err(f) => r matches Err(b) && stage_reports(b, f, key@),
        },
{
    match classes {
        None => Ok(()),
        Some(values) => {
            if values.len() == 0 {
                return Err(
                    semantic_error("policyRule.participantClasses", RoadEditingInputViolation::EmptyCollection, key),
                );
            }
            charge_reference_list(
                usage,
                values.as_slice(),
                1,
                "policyRule.participantClasses",
                namespace,
                imports,
                limits,
                key,
            )
        },
    }
}

/// A policy evidence entry: its field slots, key, locator and optional
/// description.
#[derive(Clone, Debug)]
pub struct PolicyEvidenceFields<'a> {
    pub slots: Vec<u16>,
    pub evidence_key: &'a str,
    pub locator: &'a str,
    pub description: Option<&'a str>,
}

/// A gap acceptance profile: its field slots, key, parameter version and the
/// presence of its three millisecond scalars.
#[derive(Clone, Debug)]
pub struct PolicyGapProfileFields<'a> {
    pub slots: Vec<u16>,
    pub profile_key: &'a str,
    pub parameter_version: &'a str,
    pub minimum_lead_gap_ms: Option<u64>,
    pub minimum_lag_gap_ms: Option<u64>,
    pub clearance_buffer_ms: Option<u64>,
}

/// A stream rule: its field slots, key, stream, optional participant classes,
/// priority, yield targets, optional gap profile key and evidence keys.
#[derive(Clone, Debug)]
pub struct PolicyStreamRuleFields<'a> {
    pub slots: Vec<u16>,
    pub rule_key: &'a str,
    pub stream: &'a str,
    pub participant_classes: Option<Vec<&'a str>>,
    pub priority: Option<i32>,
    pub yield_to_streams: Vec<&'a str>,
    pub gap_profile_key: Option<&'a str>,
    pub evidence_keys: Vec<&'a str>,
}

/// A gate rule: its field slots, key, gate, optional participant classes,
/// whether the wire holds an interpretation and a prohibition code that
/// each name a known value, and its evidence keys.
#[derive(Clone, Debug)]
pub struct PolicyGateRuleFields<'a> {
    pub slots: Vec<u16>,
    pub rule_key: &'a str,
    pub gate: &'a str,
    pub participant_classes: Option<Vec<&'a str>>,
    pub has_known_interpretation: bool,
    pub has_known_prohibition: bool,
    pub evidence_keys: Vec<&'a str>,
}

/// Checks and charges one evidence entry.
pub open spec fn evidence_step(c: RoadEditingPreflightCounts, e: PolicyEvidenceFields, limit: u64) -> Result<
    RoadEditingPreflightCounts,
    StageFailure,
> {
    match closed_step(c, e.slots@, 3) {
        Err(f) => Err(f),
        Ok(c0) => match token_step(c0, e.evidence_key.spec_bytes(), limit, "policyEvidence.key"@) {
            Err(f) => Err(f),
            Ok(c1) => match non_empty_text_step(c1, e.locator.spec_bytes(), limit, "policyEvidence.locator"@) {
                Err(f) => Err(f),
                Ok(c2) => {
                    let c3 = match e.description {
                        None => Ok(c2),
                        Some(d) => text_step(c2, d.spec_bytes(), limit),
                    };
                    match c3 {
                        Err(f) => Err(f),
                        Ok(c4) => Ok(with_relations(c4, 3 + if e.description is Some { 1int } else { 0int })),
                    }
                },
            },
        },
    }
}

/// Checks and charges one gap profile.
pub open spec fn gap_profile_step(c: RoadEditingPreflightCounts, g: PolicyGapProfileFields, limit: u64) -> Result<
    RoadEditingPreflightCounts,
    StageFailure,
> {
    match closed_step(c, g.slots@, 5) {
        Err(f) => Err(f),
        Ok(c0) => match token_step(c0, g.profile_key.spec_bytes(), limit, "policyGapProfile.key"@) {
            Err(f) => Err(f),
            Ok(c1) => match non_empty_text_step(
                c1,
                g.parameter_version.spec_bytes(),
                limit,
                "policyGapProfile.parameterVersion"@,
            ) {
                Err(f) => Err(f),
                Ok(c2) => if g.minimum_lead_gap_ms is None || g.minimum_lag_gap_ms is None
                    || g.clearance_buffer_ms is None {
                    Err(Err(("policyGapProfile.requiredScalar"@, RoadEditingInputViolation::InvalidCombination)))
                } else {
                    Ok(with_relations(c2, 6))
                },
            },
        },
    }
}

/// The relation occurrences of a stream rule.
pub open spec fn stream_rule_relations(r: PolicyStreamRuleFields) -> int {
    6 + (if r.participant_classes is Some { 1int } else { 0int }) + (if r.gap_profile_key is Some {
        1int
    } else {
        0int
    }) + (match r.participant_classes {
        Some(v) => v@.len() as int,
        None => 0int,
    }) + r.yield_to_streams@.len() + r.evidence_keys@.len()
}

/// Checks and charges one stream rule.
pub open spec fn stream_rule_step(
    c: RoadEditingPreflightCounts,
    r: PolicyStreamRuleFields,
    namespace: Seq<u8>,
    imports: Seq<&str>,
    limit: u64,
) -> Result<RoadEditingPreflightCounts, StageFailure> {
    match closed_step(c, r.slots@, 7) {
        Err(f) => Err(f),
        Ok(c0) => match token_step(c0, r.rule_key.spec_bytes(), limit, "policyStreamRule.key"@) {
            Err(f) => Err(f),
            Ok(c1) => match reference_step(
                c1,
                r.stream.spec_bytes(),
                2,
                true,
                namespace,
                imports,
                limit,
                "policyStreamRule.stream"@,
            ) {
                Err(f) => Err(f),
                Ok(c2) => match classes_step(c2, classes_view(r.participant_classes), namespace, imports, limit) {
                    Err(f) => Err(f),
                    Ok(c3) => if r.priority is None || (r.yield_to_streams@.len() == 0) != (r.gap_profile_key is None) {
                        Err(
                            Err(
                                (
                                    "policyStreamRule.requiredScalarOrGap"@,
                                    RoadEditingInputViolation::InvalidCombination,
                                ),
                            ),
                        )
                    } else {
                        match reference_list_step(
                            c3,
                            r.yield_to_streams@,
                            2,
                            namespace,
                            imports,
                            limit,
                            "policyStreamRule.yieldTo"@,
                        ) {
                            Err(f) => Err(f),
                            Ok(c4) => {
                                let c5 = match r.gap_profile_key {
                                    None => Ok(c4),
                                    Some(g) => token_step(c4, g.spec_bytes(), limit, "policyStreamRule.gap"@),
                                };
                                match c5 {
                                    Err(f) => Err(f),
                                    Ok(c6) => match token_list_step(
                                        c6,
                                        r.evidence_keys@,
                                        limit,
                                        "policyStreamRule.evidence"@,
                                    ) {
                                        Err(f) => Err(f),
                                        Ok(c7) => Ok(with_relations(c7, stream_rule_relations(r))),
                                    },
                                }
                            },
                        }
                    },
                },
            },
        },
    }
}

/// The relation occurrences of a gate rule.
pub open spec fn gate_rule_relations(r: PolicyGateRuleFields) -> int {
    6 + (if r.participant_classes is Some { 1int } else { 0int }) + (match r.participant_classes {
        Some(v) => v@.len() as int,
        None => 0int,
    }) + r.evidence_keys@.len()
}

/// Checks and charges one gate rule.
pub open spec fn gate_rule_step(
    c: RoadEditingPreflightCounts,
    r: PolicyGateRuleFields,
    namespace: Seq<u8>,
    imports: Seq<&str>,
    limit: u64,
) -> Result<RoadEditingPreflightCounts, StageFailure> {
    match closed_step(c, r.slots@, 6) {
        Err(f) => Err(f),
        Ok(c0) => match token_step(c0, r.rule_key.spec_bytes(), limit, "policyGateRule.key"@) {
            Err(f) => Err(f),
            Ok(c1) => match reference_step(
                c1,
                r.gate.spec_bytes(),
                4,
                true,
                namespace,
                imports,
                limit,
                "policyGateRule.gate"@,
            ) {
                Err(f) => Err(f),
                Ok(c2) => match classes_step(c2, classes_view(r.participant_classes), namespace, imports, limit) {
                    Err(f) => Err(f),
                    Ok(c3) => if !r.has_known_interpretation || !r.has_known_prohibition {
                        Err(Err(("policyGateRule.requiredEnum"@, RoadEditingInputViolation::InvalidCombination)))
                    } else {
                        match token_list_step(c3, r.evidence_keys@, limit, "policyGateRule.evidence"@) {
                            Err(f) => Err(f),
                            Ok(c4) => Ok(with_relations(c4, gate_rule_relations(r))),
                        }
                    },
                },
            },
        },
    }
}

/// Two saturating additions of non-negative amounts are one addition of
/// their sum.
pub proof fn lemma_sat_add_split(a: u64, x: int, y: int)
    requires
        0 <= x,
        0 <= y,
    ensures
        sat_add(sat_add(a, x), y) == sat_add(a, x + y),
{
}

/// Checks and charges one evidence entry; see [`evidence_step`].
pub fn check_policy_evidence(
    usage: &mut RoadEditingPreflightCounts,
    e: &PolicyEvidenceFields,
    limits: &CompileLimits,
    key: &str,
) -> (r: Result<(), DiagnosticBundle>)
    ensures
        match evidence_step(*old(usage), *e, single_string_limit(*limits)) {
            Ok(c) => r is Ok && *final(usage) == c,
            Err(f) => r matches Err(b) && stage_reports(b, f, key@),
        },
{
    closed_table(e.slots.as_slice(), 3, key)?;
    usage.charge_token(e.evidence_key, "policyEvidence.key", limits, key)?;
    usage.charge_non_empty_text(e.locator, "policyEvidence.locator", limits, key)?;
    if let Some(description) = e.description {
        charge_text(usage, description, limits)?;
    }
    usage.charge_relation(if e.description.is_some() {
        4
    } else {
        3
    });
    Ok(())
}

/// Checks and charges one gap profile; see [`gap_profile_step`].
pub fn check_policy_gap_profile(
    usage: &mut RoadEditingPreflightCounts,
    g: &PolicyGapProfileFields,
    limits: &CompileLimits,
    key: &str,
) -> (r: Result<(), DiagnosticBundle>)
    ensures
        match gap_profile_step(*old(usage), *g, single_string_limit(*limits)) {
            Ok(c) => r is Ok && *final(usage) == c,
            Err(f) => r matches Err(b) && stage_reports(b, f, key@),
        },
{
    closed_table(g.slots.as_slice(), 5, key)?;
    usage.charge_token(g.profile_key, "policyGapProfile.key", limits, key)?;
    usage.charge_non_empty_text(g.parameter_version, "policyGapProfile.parameterVersion", limits, key)?;
    if g.minimum_lead_gap_ms.is_none() || g.minimum_lag_gap_ms.is_none() || g.clearance_buffer_ms.is_none() {
        return Err(
            semantic_error("policyGapProfile.requiredScalar", RoadEditingInputViolation::InvalidCombination, key),
        );
    }
    usage.charge_relation(6);
    Ok(())
}

/// Checks and charges one stream rule; see [`stream_rule_step`].
pub fn check_policy_stream_rule(
    usage: &mut RoadEditingPreflightCounts,
    rule: &PolicyStreamRuleFields,
    namespace: &str,
    imports: &[&str],
    limits: &CompileLimits,
    key: &str,
) -> (r: Result<(), DiagnosticBundle>)
    ensures
        match stream_rule_step(*old(usage), *rule, namespace.spec_bytes(), imports@, single_string_limit(*limits)) {
            Ok(c) => r is Ok && *final(usage) == c,
            Err(f) => r matches Err(b) && stage_reports(b, f, key@),
        },
{
    closed_table(rule.slots.as_slice(), 7, key)?;
    usage.charge_token(rule.rule_key, "policyStreamRule.key", limits, key)?;
    usage.charge_reference(rule.stream, 2, true, "policyStreamRule.stream", namespace, imports, limits, key)?;
    charge_classes(usage, &rule.participant_classes, namespace, imports, limits, key)?;
    if rule.priority.is_none() || (rule.yield_to_streams.len() == 0) != rule.gap_profile_key.is_none() {
        return Err(
            semantic_error("policyStreamRule.requiredScalarOrGap", RoadEditingInputViolation::InvalidCombination, key),
        );
    }
    charge_reference_list(
        usage,
        rule.yield_to_streams.as_slice(),
        2,
        "policyStreamRule.yieldTo",
        namespace,
        imports,
        limits,
        key,
    )?;
    if let Some(gap) = rule.gap_profile_key {
        usage.charge_token(gap, "policyStreamRule.gap", limits, key)?;
    }
    charge_token_list(usage, rule.evidence_keys.as_slice(), "policyStreamRule.evidence", limits, key)?;
    let ghost a = usage.relation_occurrence_count;
    let flags: usize = 6 + (if rule.participant_classes.is_some() {
        1
    } else {
        0
    }) + (if rule.gap_profile_key.is_some() {
        1
    } else {
        0
    });
    let class_count: usize = match &rule.participant_classes {
        Some(v) => v.len(),
        None => 0,
    };
    usage.charge_relation(flags);
    usage.charge_relation(class_count);
    usage.charge_relation(rule.yield_to_streams.len());
    usage.charge_relation(rule.evidence_keys.len());
    proof {
        lemma_sat_add_split(a, flags as int, class_count as int);
        lemma_sat_add_split(a, flags + class_count, rule.yield_to_streams@.len() as int);
        lemma_sat_add_split(a, flags + class_count + rule.yield_to_streams@.len(), rule.evidence_keys@.len() as int);
    }
    Ok(())
}

/// Checks and charges one gate rule; see [`gate_rule_step`].
pub fn check_policy_gate_rule(
    usage: &mut RoadEditingPreflightCounts,
    rule: &PolicyGateRuleFields,
    namespace: &str,
    imports: &[&str],
    limits: &CompileLimits,
    key: &str,
) -> (r: Result<(), DiagnosticBundle>)
    ensures
        match gate_rule_step(*old(usage), *rule, namespace.spec_bytes(), imports@, single_string_limit(*limits)) {
            Ok(c) => r is Ok && *final(usage) == c,
            Err(f) => r matches Err(b) && stage_reports(b, f, key@),
        },
{
    closed_table(rule.slots.as_slice(), 6, key)?;
    usage.charge_token(rule.rule_key, "policyGateRule.key", limits, key)?;
    usage.charge_reference(rule.gate, 4, true, "policyGateRule.gate", namespace, imports, limits, key)?;
    charge_classes(usage, &rule.participant_classes, namespace, imports, limits, key)?;
    if !rule.has_known_interpretation || !rule.has_known_prohibition {
        return Err(semantic_error("policyGateRule.requiredEnum", RoadEditingInputViolation::InvalidCombination, key));
    }
    charge_token_list(usage, rule.evidence_keys.as_slice(), "policyGateRule.evidence", limits, key)?;
    let ghost a = usage.relation_occurrence_count;
    let flags: usize = if rule.participant_classes.is_some() {
        7
    } else {
        6
    };
    let class_count: usize = match &rule.participant_classes {
        Some(v) => v.len(),
        None => 0,
    };
    usage.charge_relation(flags);
    usage.charge_relation(class_count);
    usage.charge_relation(rule.evidence_keys.len());
    proof {
        lemma_sat_add_split(a, flags as int, class_count as int);
        lemma_sat_add_split(a, flags + class_count, rule.evidence_keys@.len() as int);
    }
    Ok(())
}

/// A right-of-way policy set: its field slots, key, regulation (field
/// slots, jurisdiction, version, optional source), optional canvas selection,
/// evidence, gap profiles, stream rules and gate rules.
#[derive(Clone, Debug)]
pub struct RightOfWayPolicyFields<'a> {
    pub slots: Vec<u16>,
    pub policy_set_key: &'a str,
    pub regulation_slots: Vec<u16>,
    pub jurisdiction: &'a str,
    pub version: &'a str,
    pub source: Option<&'a str>,
    pub canvas_selection: Option<&'a str>,
    pub evidence: Vec<PolicyEvidenceFields<'a>>,
    pub gap_profiles: Vec<PolicyGapProfileFields<'a>>,
    pub stream_rules: Vec<PolicyStreamRuleFields<'a>>,
    pub gate_rules: Vec<PolicyGateRuleFields<'a>>,
}

/// A regulation text is valid when it is non-empty, as a regulation identity
/// requires.
pub open spec fn regulation_text_valid(s: Seq<u8>) -> bool {
    s.len() > 0
}

/// Checks and counts one regulation text.
pub open spec fn regulation_text_step(c: RoadEditingPreflightCounts, s: Seq<u8>, limit: u64) -> Result<
    RoadEditingPreflightCounts,
    StageFailure,
> {
    if !regulation_text_valid(s) {
        Err(Err(("regulation"@, RoadEditingInputViolation::InvalidCombination)))
    } else {
        text_step(c, s, limit)
    }
}

/// Checks and counts the jurisdiction, the version and the optional source
/// of a regulation, in that order.
pub open spec fn regulation_step(c: RoadEditingPreflightCounts, p: RightOfWayPolicyFields, limit: u64) -> Result<
    RoadEditingPreflightCounts,
    StageFailure,
> {
    match regulation_text_step(c, p.jurisdiction.spec_bytes(), limit) {
        Err(f) => Err(f),
        Ok(c1) => match regulation_text_step(c1, p.version.spec_bytes(), limit) {
            Err(f) => Err(f),
            Ok(c2) => match p.source {
                None => Ok(c2),
                Some(s) => regulation_text_step(c2, s.spec_bytes(), limit),
            },
        },
    }
}

/// The rules of a policy set, checked in order: evidence, gap profiles,
/// stream rules, gate rules.
pub open spec fn policy_rules_step(
    c: RoadEditingPreflightCounts,
    p: RightOfWayPolicyFields,
    namespace: Seq<u8>,
    imports: Seq<&str>,
    limit: u64,
) -> Result<RoadEditingPreflightCounts, StageFailure> {
    match fold_steps(c, p.evidence@, |c: RoadEditingPreflightCounts, i: int, e: PolicyEvidenceFields| evidence_step(c, e, limit)) {
        Err(f) => Err(f),
        Ok(c1) => match fold_steps(
            c1,
            p.gap_profiles@,
            |c: RoadEditingPreflightCounts, i: int, g: PolicyGapProfileFields| gap_profile_step(c, g, limit),
        ) {
            Err(f) => Err(f),
            Ok(c2) => match fold_steps(
                c2,
                p.stream_rules@,
                |c: RoadEditingPreflightCounts, i: int, r: PolicyStreamRuleFields|
                    stream_rule_step(c, r, namespace, imports, limit),
            ) {
                Err(f) => Err(f),
                Ok(c3) => fold_steps(
                    c3,
                    p.gate_rules@,
                    |c: RoadEditingPreflightCounts, i: int, r: PolicyGateRuleFields|
                        gate_rule_step(c, r, namespace, imports, limit),
                ),
            },
        },
    }
}

/// Checks and charges one policy set: its tables closed, its declaration and
/// key, its regulation and canvas texts, its relations and records, then its
/// rules.
pub open spec fn policy_step(
    c: RoadEditingPreflightCounts,
    p: RightOfWayPolicyFields,
    namespace: Seq<u8>,
    imports: Seq<&str>,
    limit: u64,
) -> Result<RoadEditingPreflightCounts, StageFailure> {
    match closed_step(c, p.slots@, 7) {
        Err(f) => Err(f),
        Ok(c0) => match closed_step(c0, p.regulation_slots@, 3) {
            Err(f) => Err(f),
            Ok(c1) => match token_step(
                with_records(c1.with_declaration(EntityKind::RightOfWayPolicySet), 1),
                p.policy_set_key.spec_bytes(),
                limit,
                "policy.policySetKey"@,
            ) {
                Err(f) => Err(f),
                Ok(c2) => match regulation_step(c2, p, limit) {
                    Err(f) => Err(f),
                    Ok(c3) => {
                        let c4 = match p.canvas_selection {
                            None => Ok(c3),
                            Some(v) => text_step(c3, v.spec_bytes(), limit),
                        };
                        match c4 {
                            Err(f) => Err(f),
                            Ok(c5) => policy_rules_step(
                                with_records(
                                    with_relations(c5, 3 + if p.source is Some { 1int } else { 0int }),
                                    (p.evidence@.len() + p.gap_profiles@.len() + p.stream_rules@.len()
                                        + p.gate_rules@.len()) as int,
                                ),
                                p,
                                namespace,
                                imports,
                                limit,
                            ),
                        }
                    },
                }
            },
        },
    }
}

/// Whether `value` is a valid regulation text.
pub fn valid_regulation_text(value: &str) -> (r: bool)
    ensures
        r == regulation_text_valid(value.spec_bytes()),
{
    value.as_bytes().len() > 0
}

/// Checks and counts one regulation text; see [`regulation_text_step`].
fn check_regulation_text(usage: &mut RoadEditingPreflightCounts, value: &str, limits: &CompileLimits, key: &str) -> (r:
    Result<(), DiagnosticBundle>)
    ensures
        match regulation_text_step(*old(usage), value.spec_bytes(), single_string_limit(*limits)) {
            Ok(c) => r is Ok && *final(usage) == c,
            Err(f) => r matches Err(b) && stage_reports(b, f, key@),
        },
{
    if !valid_regulation_text(value) {
        return Err(semantic_error("regulation", RoadEditingInputViolation::InvalidCombination, key));
    }
    charge_text(usage, value, limits)
}

/// Checks the evidence, gap profiles, stream rules and gate rules of a policy
/// set; see [`policy_rules_step`].
fn check_policy_rules(
    usage: &mut RoadEditingPreflightCounts,
    p: &RightOfWayPolicyFields,
    namespace: &str,
    imports: &[&str],
    limits: &CompileLimits,
    key: &str,
) -> (r: Result<(), DiagnosticBundle>)
    ensures
        match policy_rules_step(*old(usage), *p, namespace.spec_bytes(), imports@, single_string_limit(*limits)) {
            Ok(c) => r is Ok && *final(usage) == c,
            Err(f) => r matches Err(b) && stage_reports(b, f, key@),
        },
{
    let ghost limit = single_string_limit(*limits);
    let ghost ns = namespace.spec_bytes();
    let ghost estep = |c: RoadEditingPreflightCounts, i: int, e: PolicyEvidenceFields| evidence_step(c, e, limit);
    let ghost start = *usage;
    let mut i: usize = 0;
    while i < p.evidence.len()
        invariant
            i <= p.evidence@.len(),
            start == *old(usage),
            limit == single_string_limit(*limits),
            estep == (|c: RoadEditingPreflightCounts, i: int, e: PolicyEvidenceFields| evidence_step(c, e, limit)),
            fold_steps(start, p.evidence@.take(i as int), estep) == Ok::<RoadEditingPreflightCounts, StageFailure>(*usage),
        decreases p.evidence@.len() - i,
    {
        proof {
            lemma_fold_extend(start, p.evidence@, estep, i as int);
        }
        match check_policy_evidence(usage, &p.evidence[i], limits, key) {
            Ok(()) => {},
            Err(e) => {
                proof {
                    lemma_fold_stops(start, p.evidence@, estep, i + 1);
                }
                return Err(e);
            },
        }
        i = i + 1;
    }
    proof {
        lemma_fold_all(start, p.evidence@, estep);
    }
    let ghost gstep = |c: RoadEditingPreflightCounts, i: int, g: PolicyGapProfileFields| gap_profile_step(c, g, limit);
    let ghost c1 = *usage;
    let mut i: usize = 0;
    while i < p.gap_profiles.len()
        invariant
            i <= p.gap_profiles@.len(),
            limit == single_string_limit(*limits),
            fold_steps(start, p.evidence@, estep) == Ok::<RoadEditingPreflightCounts, StageFailure>(c1),
            start == *old(usage),
            estep == (|c: RoadEditingPreflightCounts, i: int, e: PolicyEvidenceFields| evidence_step(c, e, limit)),
            gstep == (|c: RoadEditingPreflightCounts, i: int, g: PolicyGapProfileFields| gap_profile_step(c, g, limit)),
            fold_steps(c1, p.gap_profiles@.take(i as int), gstep) == Ok::<RoadEditingPreflightCounts, StageFailure>(*usage),
        decreases p.gap_profiles@.len() - i,
    {
        proof {
            lemma_fold_extend(c1, p.gap_profiles@, gstep, i as int);
        }
        match check_policy_gap_profile(usage, &p.gap_profiles[i], limits, key) {
            Ok(()) => {},
            Err(e) => {
                proof {
                    lemma_fold_stops(c1, p.gap_profiles@, gstep, i + 1);
                }
                return Err(e);
            },
        }
        i = i + 1;
    }
    proof {
        lemma_fold_all(c1, p.gap_profiles@, gstep);
    }
    let ghost sstep = |c: RoadEditingPreflightCounts, i: int, r: PolicyStreamRuleFields|
        stream_rule_step(c, r, ns, imports@, limit);
    let ghost c2 = *usage;
    let mut i: usize = 0;
    while i < p.stream_rules.len()
        invariant
            i <= p.stream_rules@.len(),
            limit == single_string_limit(*limits),
            ns == namespace.spec_bytes(),
            fold_steps(start, p.evidence@, estep) == Ok::<RoadEditingPreflightCounts, StageFailure>(c1),
            fold_steps(c1, p.gap_profiles@, gstep) == Ok::<RoadEditingPreflightCounts, StageFailure>(c2),
            start == *old(usage),
            estep == (|c: RoadEditingPreflightCounts, i: int, e: PolicyEvidenceFields| evidence_step(c, e, limit)),
            gstep == (|c: RoadEditingPreflightCounts, i: int, g: PolicyGapProfileFields| gap_profile_step(c, g, limit)),
            sstep == (|c: RoadEditingPreflightCounts, i: int, r: PolicyStreamRuleFields|
                stream_rule_step(c, r, ns, imports@, limit)),
            fold_steps(c2, p.stream_rules@.take(i as int), sstep) == Ok::<RoadEditingPreflightCounts, StageFailure>(*usage),
        decreases p.stream_rules@.len() - i,
    {
        proof {
            lemma_fold_extend(c2, p.stream_rules@, sstep, i as int);
        }
        match check_policy_stream_rule(usage, &p.stream_rules[i], namespace, imports, limits, key) {
            Ok(()) => {},
            Err(e) => {
                proof {
                    lemma_fold_stops(c2, p.stream_rules@, sstep, i + 1);
                }
                return Err(e);
            },
        }
        i = i + 1;
    }
    proof {
        lemma_fold_all(c2, p.stream_rules@, sstep);
    }
    let ghost rstep = |c: RoadEditingPreflightCounts, i: int, r: PolicyGateRuleFields|
        gate_rule_step(c, r, ns, imports@, limit);
    let ghost c3 = *usage;
    let mut i: usize = 0;
    while i < p.gate_rules.len()
        invariant
            i <= p.gate_rules@.len(),
            limit == single_string_limit(*limits),
            ns == namespace.spec_bytes(),
            fold_steps(start, p.evidence@, estep) == Ok::<RoadEditingPreflightCounts, StageFailure>(c1),
            fold_steps(c1, p.gap_profiles@, gstep) == Ok::<RoadEditingPreflightCounts, StageFailure>(c2),
            fold_steps(c2, p.stream_rules@, sstep) == Ok::<RoadEditingPreflightCounts, StageFailure>(c3),
            start == *old(usage),
            estep == (|c: RoadEditingPreflightCounts, i: int, e: PolicyEvidenceFields| evidence_step(c, e, limit)),
            gstep == (|c: RoadEditingPreflightCounts, i: int, g: PolicyGapProfileFields| gap_profile_step(c, g, limit)),
            sstep == (|c: RoadEditingPreflightCounts, i: int, r: PolicyStreamRuleFields|
                stream_rule_step(c, r, ns, imports@, limit)),
            rstep == (|c: RoadEditingPreflightCounts, i: int, r: PolicyGateRuleFields|
                gate_rule_step(c, r, ns, imports@, limit)),
            fold_steps(c3, p.gate_rules@.take(i as int), rstep) == Ok::<RoadEditingPreflightCounts, StageFailure>(*usage),
        decreases p.gate_rules@.len() - i,
    {
        proof {
            lemma_fold_extend(c3, p.gate_rules@, rstep, i as int);
        }
        match check_policy_gate_rule(usage, &p.gate_rules[i], namespace, imports, limits, key) {
            Ok(()) => {},
            Err(e) => {
                proof {
                    lemma_fold_stops(c3, p.gate_rules@, rstep, i + 1);
                }
                return Err(e);
            },
        }
        i = i + 1;
    }
    proof {
        lemma_fold_all(c3, p.gate_rules@, rstep);
    }
    Ok(())
}

/// Checks and charges one policy set; see [`policy_step`].
pub fn check_policy_set(
    usage: &mut RoadEditingPreflightCounts,
    p: &RightOfWayPolicyFields,
    namespace: &str,
    imports: &[&str],
    limits: &CompileLimits,
    key: &str,
) -> (r: Result<(), DiagnosticBundle>)
    ensures
        match policy_step(*old(usage), *p, namespace.spec_bytes(), imports@, single_string_limit(*limits)) {
            Ok(c) => r is Ok && *final(usage) == c,
            Err(f) => r matches Err(b) && stage_reports(b, f, key@),
        },
{
    closed_table(p.slots.as_slice(), 7, key)?;
    closed_table(p.regulation_slots.as_slice(), 3, key)?;
    usage.charge_declaration(EntityKind::RightOfWayPolicySet);
    usage.typed_ast_record_count = usage.typed_ast_record_count.saturating_add(1);
    usage.charge_token(p.policy_set_key, "policy.policySetKey", limits, key)?;
    check_regulation_text(usage, p.jurisdiction, limits, key)?;
    check_regulation_text(usage, p.version, limits, key)?;
    if let Some(source) = p.source {
        check_regulation_text(usage, source, limits, key)?;
    }
    if let Some(canvas) = p.canvas_selection {
        charge_text(usage, canvas, limits)?;
    }
    usage.charge_relation(if p.source.is_some() {
        4
    } else {
        3
    });
    let ghost a = usage.typed_ast_record_count;
    usage.typed_ast_record_count = usage.typed_ast_record_count.saturating_add(p.evidence.len() as u64);
    usage.typed_ast_record_count = usage.typed_ast_record_count.saturating_add(p.gap_profiles.len() as u64);
    usage.typed_ast_record_count = usage.typed_ast_record_count.saturating_add(p.stream_rules.len() as u64);
    usage.typed_ast_record_count = usage.typed_ast_record_count.saturating_add(p.gate_rules.len() as u64);
    proof {
        lemma_sat_add_split(a, p.evidence@.len() as int, p.gap_profiles@.len() as int);
        lemma_sat_add_split(a, (p.evidence@.len() + p.gap_profiles@.len()) as int, p.stream_rules@.len() as int);
        lemma_sat_add_split(
            a,
            (p.evidence@.len() + p.gap_profiles@.len() + p.stream_rules@.len()) as int,
            p.gate_rules@.len() as int,
        );
    }
    check_policy_rules(usage, p, namespace, imports, limits, key)
}

/// The keys of the policy sets.
pub open spec fn policy_keys<'a>(ps: Seq<RightOfWayPolicyFields<'a>>) -> Seq<&'a str> {
    ps.map_values(|p: RightOfWayPolicyFields<'a>| p.policy_set_key)
}

/// The pairwise key comparisons among `n` policy sets, `n (n - 1) / 2`, with
/// the product held at `u64::MAX`.
pub open spec fn pair_comparisons(n: nat) -> u64 {
    let m: int = if n == 0 {
        0
    } else {
        n - 1
    };
    let product: int = if n * m > u64::MAX {
        u64::MAX as int
    } else {
        n * m
    };
    (product / 2) as u64
}

/// The outcome of the policy stage: the root and movement tables closed; the
/// pairwise key comparisons within the relation limit; distinct policy set
/// keys; then each policy set in order.
#[verifier::opaque]
pub open spec fn policies_outcome(
    c: RoadEditingPreflightCounts,
    root_slots: Seq<u16>,
    movement_slots: Seq<Vec<u16>>,
    policies: Seq<RightOfWayPolicyFields>,
    namespace: Seq<u8>,
    imports: Seq<&str>,
    limits: CompileLimits,
) -> Result<RoadEditingPreflightCounts, StageFailure> {
    let limit = single_string_limit(limits);
    let relation_limit = limits.spec_value(CompileLimitDimension::RelationOccurrenceCount);
    let comparisons = pair_comparisons(policies.len());
    match closed_step(c, root_slots, 30) {
        Err(f) => Err(f),
        Ok(c0) => match fold_steps(c0, movement_slots, |c: RoadEditingPreflightCounts, i: int, m: Vec<u16>| closed_step(c, m@, 6)) {
            Err(f) => Err(f),
            Ok(c1) => if comparisons > relation_limit {
                Err(Ok((CompileLimitDimension::RelationOccurrenceCount, relation_limit, comparisons)))
            } else if strs_repeat(policy_keys(policies)) {
                Err(Err(("rightOfWayPolicySets.policySetKey"@, RoadEditingInputViolation::DuplicateValue)))
            } else {
                fold_steps(
                    c1,
                    policies,
                    |c: RoadEditingPreflightCounts, i: int, p: RightOfWayPolicyFields| policy_step(c, p, namespace, imports, limit),
                )
            },
        },
    }
}

/// A check that runs before any policy set is charged fails: an unknown
/// field in the root or a movement table, more pairwise key comparisons than
/// the relation limit, or a repeated policy set key.
pub open spec fn policy_prechecks_fail(
    root_slots: Seq<u16>,
    movement_slots: Seq<Vec<u16>>,
    policies: Seq<RightOfWayPolicyFields>,
    limits: CompileLimits,
) -> bool {
    ||| has_unknown_field(root_slots, 30)
    ||| exists|i: int| 0 <= i < movement_slots.len() && has_unknown_field(#[trigger] movement_slots[i]@, 6)
    ||| pair_comparisons(policies.len()) > limits.spec_value(CompileLimitDimension::RelationOccurrenceCount)
    ||| strs_repeat(policy_keys(policies))
}

/// Whether two policy sets share a key, by pairwise comparison without an
/// index.
fn repeated_policy_key(ps: &[RightOfWayPolicyFields]) -> (r: bool)
    ensures
        r == strs_repeat(policy_keys(ps@)),
{
    let ghost keys = policy_keys(ps@);
    let mut i: usize = 0;
    while i < ps.len()
        invariant
            i <= ps@.len(),
            keys == policy_keys(ps@),
            keys.len() == ps@.len(),
            forall|a: int, b: int| 0 <= a < b < keys.len() && a < i ==> keys[a].spec_bytes() != keys[b].spec_bytes(),
        decreases ps@.len() - i,
    {
        let mut j: usize = i + 1;
        while j < ps.len()
            invariant
                i < ps@.len(),
                i + 1 <= j <= ps@.len(),
                keys == policy_keys(ps@),
                keys.len() == ps@.len(),
                forall|a: int, b: int| 0 <= a < b < keys.len() && a < i ==> keys[a].spec_bytes() != keys[b].spec_bytes(),
                forall|b: int| i < b < j ==> keys[i as int].spec_bytes() != keys[b].spec_bytes(),
            decreases ps@.len() - j,
        {
            if str_equal(ps[i].policy_set_key, ps[j].policy_set_key) {
                proof {
                    assert(keys[i as int] == ps@[i as int].policy_set_key);
                    assert(keys[j as int] == ps@[j as int].policy_set_key);
                }
                return true;
            }
            j = j + 1;
        }
        i = i + 1;
    }
    false
}

/// Checks and charges the right-of-way policy sets; see
/// [`policies_outcome`].
#[verifier::rlimit(40)]
pub fn validate_policies(
    usage: &mut RoadEditingPreflightCounts,
    root_slots: &[u16],
    movement_slots: &[Vec<u16>],
    policies: &[RightOfWayPolicyFields],
    namespace: &str,
    imports: &[&str],
    limits: &CompileLimits,
    key: &str,
) -> (r: Result<(), DiagnosticBundle>)
    ensures
        match policies_outcome(*old(usage), root_slots@, movement_slots@, policies@, namespace.spec_bytes(), imports@, *limits) {
            Ok(c) => r is Ok && *final(usage) == c,
            Err(f) => r matches Err(b) && stage_reports(b, f, key@),
        },
        policy_prechecks_fail(root_slots@, movement_slots@, policies@, *limits) ==> r is Err && *final(usage)
            == *old(usage),
{
    proof {
        reveal(policies_outcome);
    }
    closed_table(root_slots, 30, key)?;
    let ghost mstep = |c: RoadEditingPreflightCounts, i: int, m: Vec<u16>| closed_step(c, m@, 6);
    let ghost start = *usage;
    let mut i: usize = 0;
    while i < movement_slots.len()
        invariant
            i <= movement_slots@.len(),
            start == *old(usage),
            mstep == (|c: RoadEditingPreflightCounts, i: int, m: Vec<u16>| closed_step(c, m@, 6)),
            fold_steps(start, movement_slots@.take(i as int), mstep) == Ok::<RoadEditingPreflightCounts, StageFailure>(*usage),
            *usage == *old(usage),
            !has_unknown_field(root_slots@, 30),
            forall|j: int| 0 <= j < i ==> !has_unknown_field(#[trigger] movement_slots@[j]@, 6),
        decreases movement_slots@.len() - i,
    {
        proof {
            lemma_fold_extend(start, movement_slots@, mstep, i as int);
        }
        match closed_table(movement_slots[i].as_slice(), 6, key) {
            Ok(()) => {},
            Err(e) => {
                proof {
                    reveal(policies_outcome);
                    lemma_fold_stops(start, movement_slots@, mstep, i + 1);
                }
                return Err(e);
            },
        }
        i = i + 1;
    }
    proof {
        lemma_fold_all(start, movement_slots@, mstep);
    }
    let n = policies.len() as u64;
    let m = n.saturating_sub(1);
    let product = match n.checked_mul(m) {
        Some(v) => v,
        None => u64::MAX,
    };
    let comparisons = product / 2;
    let relation_limit = limits.value(CompileLimitDimension::RelationOccurrenceCount);
    if comparisons > relation_limit {
        return Err(limit_error(CompileLimitDimension::RelationOccurrenceCount, relation_limit, comparisons));
    }
    if repeated_policy_key(policies) {
        return Err(semantic_error("rightOfWayPolicySets.policySetKey", RoadEditingInputViolation::DuplicateValue, key));
    }
    let ghost limit = single_string_limit(*limits);
    let ghost pstep = |c: RoadEditingPreflightCounts, i: int, p: RightOfWayPolicyFields|
        policy_step(c, p, namespace.spec_bytes(), imports@, limit);
    let ghost middle = *usage;
    proof {
        assert(!policy_prechecks_fail(root_slots@, movement_slots@, policies@, *limits));
    }
    let mut i: usize = 0;
    while i < policies.len()
        invariant
            i <= policies@.len(),
            !policy_prechecks_fail(root_slots@, movement_slots@, policies@, *limits),
            limit == single_string_limit(*limits),
            policies_outcome(*old(usage), root_slots@, movement_slots@, policies@, namespace.spec_bytes(), imports@, *limits)
                == fold_steps(middle, policies@, pstep),
            pstep == (|c: RoadEditingPreflightCounts, i: int, p: RightOfWayPolicyFields|
                policy_step(c, p, namespace.spec_bytes(), imports@, limit)),
            fold_steps(middle, policies@.take(i as int), pstep) == Ok::<RoadEditingPreflightCounts, StageFailure>(*usage),
        decreases policies@.len() - i,
    {
        proof {
            lemma_fold_extend(middle, policies@, pstep, i as int);
        }
        match check_policy_set(usage, &policies[i], namespace, imports, limits, key) {
            Ok(()) => {},
            Err(e) => {
                proof {
                    reveal(policies_outcome);
                    lemma_fold_stops(middle, policies@, pstep, i + 1);
                }
                return Err(e);
            },
        }
        i = i + 1;
    }
    proof {
        lemma_fold_all(middle, policies@, pstep);
    }
    Ok(())
}

} // verus!
