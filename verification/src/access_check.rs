//! Field preflight of the access tables of a verified source: participant
//! classes, access rules with their regulations, and vehicle profiles.

use vstd::prelude::*;
use vstd::string::StringSliceAdditionalSpecFns;

use crate::declaration::EntityKind;
use crate::diagnostic::{DiagnosticBundle, RoadEditingInputViolation};
use crate::limits::CompileLimits;
use crate::policy_check::{non_empty_text_step, single_string_limit, with_records};
use crate::preflight::{
    canvas_step, ensure_unique_strings, fold_steps, invalid_combination, lemma_fold_all, lemma_fold_extend,
    lemma_fold_stops, lemma_reference_vector_step_restored, reference_step, reference_vector_step,
    scratch_restored, semantic_error, stage_reports, strs_repeat, token_step, unique_need, unique_step, reference_vector_need,
    validate_reference_vector, RoadEditingPreflightCounts, StageFailure,
};
use crate::scratch::{lemma_max_need_all, lemma_max_need_extend, max_nat, max_need, peak_lifted, PreflightScratch};

verus! {

/// A participant class: its key, optional parent class, canvas selection.
#[derive(Clone, Copy, Debug)]
pub struct ParticipantClassFields<'a> {
    pub participant_class_key: &'a str,
    pub extends: Option<&'a str>,
    pub canvas_selection: Option<&'a str>,
}

/// The kind of target of an access rule as the wire carries it.
#[derive(Clone, Copy, Debug, PartialEq, Eq, Structural)]
pub enum WireAccessTargetKind {
    LaneEdge,
    LaneGroup,
    RoadSection,
    ManeuverPath,
    Other(u8),
}

/// The effect of an access rule as the wire carries it.
#[derive(Clone, Copy, Debug, PartialEq, Eq, Structural)]
pub enum WireAccessEffect {
    Allow,
    Deny,
    Other(u8),
}

/// The regulation of an access rule: jurisdiction, version, optional source.
#[derive(Clone, Copy, Debug)]
pub struct AccessRegulationFields<'a> {
    pub jurisdiction: &'a str,
    pub version: &'a str,
    pub source: Option<&'a str>,
}

/// An access rule: its key, target, effect, participant classes, optional
/// regulation, canvas selection.
#[derive(Clone, Debug)]
pub struct AccessRuleFields<'a> {
    pub access_rule_key: &'a str,
    pub target_kind: WireAccessTargetKind,
    pub target_reference: &'a str,
    pub effect: WireAccessEffect,
    pub participant_classes: Vec<&'a str>,
    pub regulation: Option<AccessRegulationFields<'a>>,
    pub canvas_selection: Option<&'a str>,
}

/// A vehicle profile: its key, participant class, the verdict of the
/// driver-model parameter rules (the field and violation of the first
/// broken rule), canvas selection.
#[derive(Clone, Copy, Debug)]
pub struct VehicleProfileFields<'a> {
    pub vehicle_profile_key: &'a str,
    pub participant_class: &'a str,
    pub iidm_violation: Option<(&'a str, RoadEditingInputViolation)>,
    pub canvas_selection: Option<&'a str>,
}

/// Checks and charges one participant class.
pub open spec fn participant_class_step(
    c: RoadEditingPreflightCounts,
    x: ParticipantClassFields,
    namespace: Seq<u8>,
    imports: Seq<&str>,
    limit: u64,
) -> Result<RoadEditingPreflightCounts, StageFailure> {
    match token_step(
        c.with_declaration(EntityKind::ParticipantClass),
        x.participant_class_key.spec_bytes(),
        limit,
        "participantClass.participantClassKey"@,
    ) {
        Err(f) => Err(f),
        Ok(c1) => {
            let c2 = match x.extends {
                None => Ok(c1),
                Some(p) => reference_step(c1, p.spec_bytes(), 1, true, namespace, imports, limit, "participantClass.extends"@),
            };
            match c2 {
                Err(f) => Err(f),
                Ok(c3) => canvas_step(c3, x.canvas_selection, limit),
            }
        },
    }
}

/// The reference depth of an access target, if the kind is known.
pub open spec fn target_depth(kind: WireAccessTargetKind) -> Option<u8> {
    match kind {
        WireAccessTargetKind::LaneEdge => Some(1),
        WireAccessTargetKind::LaneGroup => Some(3),
        WireAccessTargetKind::RoadSection => Some(2),
        WireAccessTargetKind::ManeuverPath => Some(3),
        WireAccessTargetKind::Other(_) => None,
    }
}

/// Counts an access regulation: one record, then its texts.
pub open spec fn access_regulation_step(c: RoadEditingPreflightCounts, g: AccessRegulationFields, limit: u64) -> Result<
    RoadEditingPreflightCounts,
    StageFailure,
> {
    match non_empty_text_step(with_records(c, 1), g.jurisdiction.spec_bytes(), limit, "accessRegulation.jurisdiction"@) {
        Err(f) => Err(f),
        Ok(c1) => match non_empty_text_step(c1, g.version.spec_bytes(), limit, "accessRegulation.version"@) {
            Err(f) => Err(f),
            Ok(c2) => match g.source {
                None => Ok(c2),
                Some(s) => non_empty_text_step(c2, s.spec_bytes(), limit, "accessRegulation.source"@),
            },
        },
    }
}

/// Checks and charges one access rule.
pub open spec fn access_rule_step(
    c: RoadEditingPreflightCounts,
    x: AccessRuleFields,
    namespace: Seq<u8>,
    imports: Seq<&str>,
    scratch: PreflightScratch,
) -> Result<RoadEditingPreflightCounts, StageFailure> {
    let limit = single_string_limit(scratch.spec_limits());
    match token_step(
        c.with_declaration(EntityKind::AccessRule),
        x.access_rule_key.spec_bytes(),
        limit,
        "accessRule.accessRuleKey"@,
    ) {
        Err(f) => Err(f),
        Ok(c1) => match target_depth(x.target_kind) {
            None => Err(Err(("accessRule.targetKind"@, RoadEditingInputViolation::InvalidCombination))),
            Some(depth) => match reference_step(
                c1,
                x.target_reference.spec_bytes(),
                depth,
                true,
                namespace,
                imports,
                limit,
                "accessRule.targetReference"@,
            ) {
                Err(f) => Err(f),
                Ok(c2) => if x.effect is Other {
                    Err(Err(("accessRule.effect"@, RoadEditingInputViolation::InvalidCombination)))
                } else {
                    match reference_vector_step(
                        c2,
                        x.participant_classes@,
                        1,
                        "accessRule.participantClasses"@,
                        true,
                        true,
                        true,
                        namespace,
                        imports,
                        scratch,
                    ) {
                        Err(f) => Err(f),
                        Ok(c3) => {
                            let c4 = match x.regulation {
                                None => Ok(c3),
                                Some(g) => access_regulation_step(c3, g, limit),
                            };
                            match c4 {
                                Err(f) => Err(f),
                                Ok(c5) => canvas_step(c5, x.canvas_selection, limit),
                            }
                        },
                    }
                },
            },
        },
    }
}

/// Checks and charges one vehicle profile.
pub open spec fn vehicle_profile_step(
    c: RoadEditingPreflightCounts,
    x: VehicleProfileFields,
    namespace: Seq<u8>,
    imports: Seq<&str>,
    limit: u64,
) -> Result<RoadEditingPreflightCounts, StageFailure> {
    match token_step(
        with_records(c.with_declaration(EntityKind::VehicleProfile), 1),
        x.vehicle_profile_key.spec_bytes(),
        limit,
        "vehicleProfile.vehicleProfileKey"@,
    ) {
        Err(f) => Err(f),
        Ok(c1) => match reference_step(
            c1,
            x.participant_class.spec_bytes(),
            1,
            true,
            namespace,
            imports,
            limit,
            "vehicleProfile.participantClass"@,
        ) {
            Err(f) => Err(f),
            Ok(c2) => match x.iidm_violation {
                Some((field, v)) => Err(Err((field@, v))),
                None => canvas_step(c2, x.canvas_selection, limit),
            },
        },
    }
}

/// The keys of the participant classes.
pub open spec fn class_keys<'a>(xs: Seq<ParticipantClassFields<'a>>) -> Seq<&'a str> {
    xs.map_values(|x: ParticipantClassFields<'a>| x.participant_class_key)
}

/// The keys of the access rules.
pub open spec fn rule_keys<'a>(xs: Seq<AccessRuleFields<'a>>) -> Seq<&'a str> {
    xs.map_values(|x: AccessRuleFields<'a>| x.access_rule_key)
}

/// The keys of the vehicle profiles.
pub open spec fn profile_keys<'a>(xs: Seq<VehicleProfileFields<'a>>) -> Seq<&'a str> {
    xs.map_values(|x: VehicleProfileFields<'a>| x.vehicle_profile_key)
}

/// Distinct participant class keys, then each class in order.
pub open spec fn classes_outcome(
    c: RoadEditingPreflightCounts,
    xs: Seq<ParticipantClassFields>,
    namespace: Seq<u8>,
    imports: Seq<&str>,
    scratch: PreflightScratch,
) -> Result<RoadEditingPreflightCounts, StageFailure> {
    let limit = single_string_limit(scratch.spec_limits());
    match unique_step::<&str>(xs.len(), strs_repeat(class_keys(xs)), scratch, "participantClasses.participantClassKey"@) {
        Some(f) => Err(f),
        None => fold_steps(
            c,
            xs,
            |c: RoadEditingPreflightCounts, i: int, x: ParticipantClassFields|
                participant_class_step(c, x, namespace, imports, limit),
        ),
    }
}

/// Distinct access rule keys, then each rule in order.
pub open spec fn rules_outcome(
    c: RoadEditingPreflightCounts,
    xs: Seq<AccessRuleFields>,
    namespace: Seq<u8>,
    imports: Seq<&str>,
    scratch: PreflightScratch,
) -> Result<RoadEditingPreflightCounts, StageFailure> {
    match unique_step::<&str>(xs.len(), strs_repeat(rule_keys(xs)), scratch, "accessRules.accessRuleKey"@) {
        Some(f) => Err(f),
        None => fold_steps(
            c,
            xs,
            |c: RoadEditingPreflightCounts, i: int, x: AccessRuleFields| access_rule_step(c, x, namespace, imports, scratch),
        ),
    }
}

/// Distinct vehicle profile keys, then each profile in order.
pub open spec fn profiles_outcome(
    c: RoadEditingPreflightCounts,
    xs: Seq<VehicleProfileFields>,
    namespace: Seq<u8>,
    imports: Seq<&str>,
    scratch: PreflightScratch,
) -> Result<RoadEditingPreflightCounts, StageFailure> {
    let limit = single_string_limit(scratch.spec_limits());
    match unique_step::<&str>(xs.len(), strs_repeat(profile_keys(xs)), scratch, "vehicleProfiles.vehicleProfileKey"@) {
        Some(f) => Err(f),
        None => fold_steps(
            c,
            xs,
            |c: RoadEditingPreflightCounts, i: int, x: VehicleProfileFields|
                vehicle_profile_step(c, x, namespace, imports, limit),
        ),
    }
}

/// The outcome of the access stage: participant classes, access rules,
/// vehicle profiles.
#[verifier::opaque]
pub open spec fn access_outcome(
    c: RoadEditingPreflightCounts,
    classes: Seq<ParticipantClassFields>,
    rules: Seq<AccessRuleFields>,
    profiles: Seq<VehicleProfileFields>,
    namespace: Seq<u8>,
    imports: Seq<&str>,
    scratch: PreflightScratch,
) -> Result<RoadEditingPreflightCounts, StageFailure> {
    match classes_outcome(c, classes, namespace, imports, scratch) {
        Err(f) => Err(f),
        Ok(c1) => match rules_outcome(c1, rules, namespace, imports, scratch) {
            Err(f) => Err(f),
            Ok(c2) => profiles_outcome(c2, profiles, namespace, imports, scratch),
        },
    }
}

/// Access rule checks read only the limits and the live bytes of the
/// scratch pass.
proof fn lemma_rules_restored(
    c: RoadEditingPreflightCounts,
    xs: Seq<AccessRuleFields>,
    namespace: Seq<u8>,
    imports: Seq<&str>,
    a: PreflightScratch,
    b: PreflightScratch,
)
    requires
        scratch_restored(a, b),
    ensures
        rules_outcome(c, xs, namespace, imports, a) == rules_outcome(c, xs, namespace, imports, b),
        forall|c: RoadEditingPreflightCounts, x: AccessRuleFields|
            #[trigger] access_rule_step(c, x, namespace, imports, a) == access_rule_step(c, x, namespace, imports, b),
{
    assert forall|c: RoadEditingPreflightCounts, x: AccessRuleFields|
        #[trigger] access_rule_step(c, x, namespace, imports, a) == access_rule_step(c, x, namespace, imports, b) by {
        assert forall|c2: RoadEditingPreflightCounts|
            reference_vector_step(c2, x.participant_classes@, 1, "accessRule.participantClasses"@, true, true, true, namespace, imports, a)
                == #[trigger] reference_vector_step(c2, x.participant_classes@, 1, "accessRule.participantClasses"@, true, true, true, namespace, imports, b) by {
            lemma_reference_vector_step_restored(c2, x.participant_classes@, 1, "accessRule.participantClasses"@, true, namespace, imports, a, b);
        }
    }
    assert((|c: RoadEditingPreflightCounts, i: int, x: AccessRuleFields| access_rule_step(c, x, namespace, imports, a))
        =~= (|c: RoadEditingPreflightCounts, i: int, x: AccessRuleFields| access_rule_step(c, x, namespace, imports, b)));
}

/// Checks and charges one participant class; see [`participant_class_step`].
pub fn check_participant_class(
    usage: &mut RoadEditingPreflightCounts,
    x: &ParticipantClassFields,
    namespace: &str,
    imports: &[&str],
    limits: &CompileLimits,
    key: &str,
) -> (r: Result<(), DiagnosticBundle>)
    ensures
        match participant_class_step(*old(usage), *x, namespace.spec_bytes(), imports@, single_string_limit(*limits)) {
            Ok(c) => r is Ok && *final(usage) == c,
            Err(f) => r matches Err(b) && stage_reports(b, f, key@),
        },
{
    usage.charge_declaration(EntityKind::ParticipantClass);
    usage.charge_token(x.participant_class_key, "participantClass.participantClassKey", limits, key)?;
    if let Some(parent) = x.extends {
        usage.charge_reference(parent, 1, true, "participantClass.extends", namespace, imports, limits, key)?;
    }
    usage.charge_canvas(x.canvas_selection, limits, key)
}

/// Counts an access regulation; see [`access_regulation_step`].
pub fn check_access_regulation(
    usage: &mut RoadEditingPreflightCounts,
    g: &AccessRegulationFields,
    limits: &CompileLimits,
    key: &str,
) -> (r: Result<(), DiagnosticBundle>)
    ensures
        match access_regulation_step(*old(usage), *g, single_string_limit(*limits)) {
            Ok(c) => r is Ok && *final(usage) == c,
            Err(f) => r matches Err(b) && stage_reports(b, f, key@),
        },
{
    usage.typed_ast_record_count = usage.typed_ast_record_count.saturating_add(1);
    usage.charge_non_empty_text(g.jurisdiction, "accessRegulation.jurisdiction", limits, key)?;
    usage.charge_non_empty_text(g.version, "accessRegulation.version", limits, key)?;
    if let Some(source) = g.source {
        usage.charge_non_empty_text(source, "accessRegulation.source", limits, key)?;
    }
    Ok(())
}

/// Checks and charges one access rule; see [`access_rule_step`].
pub fn check_access_rule(
    usage: &mut RoadEditingPreflightCounts,
    x: &AccessRuleFields,
    namespace: &str,
    imports: &[&str],
    scratch: &mut PreflightScratch,
    key: &str,
) -> (r: Result<(), DiagnosticBundle>)
    ensures
        match access_rule_step(*old(usage), *x, namespace.spec_bytes(), imports@, *old(scratch)) {
            Ok(c) => r is Ok && *final(usage) == c,
            Err(f) => r matches Err(b) && stage_reports(b, f, key@),
        },
        scratch_restored(*old(scratch), *final(scratch)),
        r is Ok ==> peak_lifted(*old(scratch), *final(scratch), access_rule_need()(*x)),
{
    let limits = *scratch.limits();
    usage.charge_declaration(EntityKind::AccessRule);
    usage.charge_token(x.access_rule_key, "accessRule.accessRuleKey", &limits, key)?;
    let depth: u8 = match x.target_kind {
        WireAccessTargetKind::LaneEdge => 1,
        WireAccessTargetKind::LaneGroup => 3,
        WireAccessTargetKind::RoadSection => 2,
        WireAccessTargetKind::ManeuverPath => 3,
        WireAccessTargetKind::Other(_) => {
            return Err(invalid_combination("accessRule.targetKind", key));
        },
    };
    usage.charge_reference(x.target_reference, depth, true, "accessRule.targetReference", namespace, imports, &limits, key)?;
    if let WireAccessEffect::Other(_) = x.effect {
        return Err(invalid_combination("accessRule.effect", key));
    }
    validate_reference_vector(
        usage,
        x.participant_classes.as_slice(),
        1,
        "accessRule.participantClasses",
        true,
        true,
        true,
        namespace,
        imports,
        scratch,
        key,
    )?;
    if let Some(g) = &x.regulation {
        check_access_regulation(usage, g, &limits, key)?;
    }
    usage.charge_canvas(x.canvas_selection, &limits, key)
}

/// The scratch need of one access rule: the index of its participant
/// classes.
pub open spec fn access_rule_need<'a>() -> spec_fn(AccessRuleFields<'a>) -> nat {
    |x: AccessRuleFields<'a>| reference_vector_need(x.participant_classes@.len(), true)
}

/// The scratch need of the access rules: the index of their keys, or the
/// need of one rule.
pub open spec fn access_rules_need(xs: Seq<AccessRuleFields>) -> nat {
    max_nat(unique_need::<&str>(xs.len()), max_need(xs, access_rule_need()))
}

/// The scratch need of the access stage: the index of the class keys, the
/// rules, or the index of the profile keys.
pub open spec fn access_need(
    classes: Seq<ParticipantClassFields>,
    rules: Seq<AccessRuleFields>,
    profiles: Seq<VehicleProfileFields>,
) -> nat {
    max_nat(max_nat(unique_need::<&str>(classes.len()), access_rules_need(rules)), unique_need::<&str>(profiles.len()))
}

/// Checks and charges one vehicle profile; see [`vehicle_profile_step`].
pub fn check_vehicle_profile(
    usage: &mut RoadEditingPreflightCounts,
    x: &VehicleProfileFields,
    namespace: &str,
    imports: &[&str],
    limits: &CompileLimits,
    key: &str,
) -> (r: Result<(), DiagnosticBundle>)
    ensures
        match vehicle_profile_step(*old(usage), *x, namespace.spec_bytes(), imports@, single_string_limit(*limits)) {
            Ok(c) => r is Ok && *final(usage) == c,
            Err(f) => r matches Err(b) && stage_reports(b, f, key@),
        },
{
    usage.charge_declaration(EntityKind::VehicleProfile);
    usage.typed_ast_record_count = usage.typed_ast_record_count.saturating_add(1);
    usage.charge_token(x.vehicle_profile_key, "vehicleProfile.vehicleProfileKey", limits, key)?;
    usage.charge_reference(x.participant_class, 1, true, "vehicleProfile.participantClass", namespace, imports, limits, key)?;
    if let Some((field, v)) = x.iidm_violation {
        return Err(semantic_error(field, v, key));
    }
    usage.charge_canvas(x.canvas_selection, limits, key)
}

/// Checks and charges the participant classes; see [`classes_outcome`].
pub fn validate_participant_classes(
    usage: &mut RoadEditingPreflightCounts,
    xs: &[ParticipantClassFields],
    namespace: &str,
    imports: &[&str],
    scratch: &mut PreflightScratch,
    key: &str,
) -> (r: Result<(), DiagnosticBundle>)
    ensures
        match classes_outcome(*old(usage), xs@, namespace.spec_bytes(), imports@, *old(scratch)) {
            Ok(c) => r is Ok && *final(usage) == c,
            Err(f) => r matches Err(b) && stage_reports(b, f, key@),
        },
        scratch_restored(*old(scratch), *final(scratch)),
        r is Ok ==> peak_lifted(*old(scratch), *final(scratch), unique_need::<&str>(xs@.len())),
{
    let ghost s0 = *scratch;
    let limits = *scratch.limits();
    let mut keys: Vec<&str> = Vec::new();
    let mut j: usize = 0;
    while j < xs.len()
        invariant
            j <= xs@.len(),
            keys@ == class_keys(xs@.take(j as int)),
        decreases xs@.len() - j,
    {
        keys.push(xs[j].participant_class_key);
        proof {
            assert(class_keys(xs@.take(j + 1)) =~= class_keys(xs@.take(j as int)).push(xs@[j as int].participant_class_key));
        }
        j = j + 1;
    }
    proof {
        assert(xs@.take(j as int) =~= xs@);
    }
    ensure_unique_strings(keys.as_slice(), "participantClasses.participantClassKey", key, scratch)?;
    let ghost limit = single_string_limit(limits);
    let ghost step = |c: RoadEditingPreflightCounts, i: int, x: ParticipantClassFields|
        participant_class_step(c, x, namespace.spec_bytes(), imports@, limit);
    let ghost start = *usage;
    let mut i: usize = 0;
    while i < xs.len()
        invariant
            i <= xs@.len(),
            s0 == *old(scratch),
            start == *old(usage),
            limits == s0.spec_limits(),
            limit == single_string_limit(limits),
            scratch_restored(s0, *scratch),
            classes_outcome(start, xs@, namespace.spec_bytes(), imports@, s0) == fold_steps(start, xs@, step),
            step == (|c: RoadEditingPreflightCounts, i: int, x: ParticipantClassFields|
                participant_class_step(c, x, namespace.spec_bytes(), imports@, limit)),
            fold_steps(start, xs@.take(i as int), step) == Ok::<RoadEditingPreflightCounts, StageFailure>(*usage),
        decreases xs@.len() - i,
    {
        proof {
            lemma_fold_extend(start, xs@, step, i as int);
        }
        match check_participant_class(usage, &xs[i], namespace, imports, &limits, key) {
            Ok(()) => {},
            Err(e) => {
                proof {
                    lemma_fold_stops(start, xs@, step, i + 1);
                }
                return Err(e);
            },
        }
        i = i + 1;
    }
    proof {
        lemma_fold_all(start, xs@, step);
    }
    Ok(())
}

/// Checks and charges the access rules; see [`rules_outcome`].
pub fn validate_access_rules(
    usage: &mut RoadEditingPreflightCounts,
    xs: &[AccessRuleFields],
    namespace: &str,
    imports: &[&str],
    scratch: &mut PreflightScratch,
    key: &str,
) -> (r: Result<(), DiagnosticBundle>)
    ensures
        match rules_outcome(*old(usage), xs@, namespace.spec_bytes(), imports@, *old(scratch)) {
            Ok(c) => r is Ok && *final(usage) == c,
            Err(f) => r matches Err(b) && stage_reports(b, f, key@),
        },
        scratch_restored(*old(scratch), *final(scratch)),
        r is Ok ==> peak_lifted(*old(scratch), *final(scratch), access_rules_need(xs@)),
{
    let ghost s0 = *scratch;
    let mut keys: Vec<&str> = Vec::new();
    let mut j: usize = 0;
    while j < xs.len()
        invariant
            j <= xs@.len(),
            keys@ == rule_keys(xs@.take(j as int)),
        decreases xs@.len() - j,
    {
        keys.push(xs[j].access_rule_key);
        proof {
            assert(rule_keys(xs@.take(j + 1)) =~= rule_keys(xs@.take(j as int)).push(xs@[j as int].access_rule_key));
        }
        j = j + 1;
    }
    proof {
        assert(xs@.take(j as int) =~= xs@);
    }
    ensure_unique_strings(keys.as_slice(), "accessRules.accessRuleKey", key, scratch)?;
    let ghost s1 = *scratch;
    let ghost step = |c: RoadEditingPreflightCounts, i: int, x: AccessRuleFields|
        access_rule_step(c, x, namespace.spec_bytes(), imports@, s0);
    let ghost start = *usage;
    let mut i: usize = 0;
    while i < xs.len()
        invariant
            i <= xs@.len(),
            s0 == *old(scratch),
            start == *old(usage),
            scratch_restored(s0, *scratch),
            scratch_restored(s0, s1),
            peak_lifted(s1, *scratch, max_need(xs@.take(i as int), access_rule_need())),
            rules_outcome(start, xs@, namespace.spec_bytes(), imports@, s0) == fold_steps(start, xs@, step),
            step == (|c: RoadEditingPreflightCounts, i: int, x: AccessRuleFields|
                access_rule_step(c, x, namespace.spec_bytes(), imports@, s0)),
            fold_steps(start, xs@.take(i as int), step) == Ok::<RoadEditingPreflightCounts, StageFailure>(*usage),
        decreases xs@.len() - i,
    {
        proof {
            lemma_fold_extend(start, xs@, step, i as int);
            lemma_rules_restored(*usage, xs@, namespace.spec_bytes(), imports@, s0, *scratch);
            lemma_max_need_extend(xs@, access_rule_need(), i as int);
        }
        match check_access_rule(usage, &xs[i], namespace, imports, scratch, key) {
            Ok(()) => {},
            Err(e) => {
                proof {
                    lemma_fold_stops(start, xs@, step, i + 1);
                }
                return Err(e);
            },
        }
        i = i + 1;
    }
    proof {
        lemma_fold_all(start, xs@, step);
        lemma_max_need_all(xs@, access_rule_need());
    }
    Ok(())
}

/// Checks and charges the vehicle profiles; see [`profiles_outcome`].
pub fn validate_vehicle_profiles(
    usage: &mut RoadEditingPreflightCounts,
    xs: &[VehicleProfileFields],
    namespace: &str,
    imports: &[&str],
    scratch: &mut PreflightScratch,
    key: &str,
) -> (r: Result<(), DiagnosticBundle>)
    ensures
        match profiles_outcome(*old(usage), xs@, namespace.spec_bytes(), imports@, *old(scratch)) {
            Ok(c) => r is Ok && *final(usage) == c,
            Err(f) => r matches Err(b) && stage_reports(b, f, key@),
        },
        scratch_restored(*old(scratch), *final(scratch)),
        r is Ok ==> peak_lifted(*old(scratch), *final(scratch), unique_need::<&str>(xs@.len())),
{
    let ghost s0 = *scratch;
    let limits = *scratch.limits();
    let mut keys: Vec<&str> = Vec::new();
    let mut j: usize = 0;
    while j < xs.len()
        invariant
            j <= xs@.len(),
            keys@ == profile_keys(xs@.take(j as int)),
        decreases xs@.len() - j,
    {
        keys.push(xs[j].vehicle_profile_key);
        proof {
            assert(profile_keys(xs@.take(j + 1)) =~= profile_keys(xs@.take(j as int)).push(xs@[j as int].vehicle_profile_key));
        }
        j = j + 1;
    }
    proof {
        assert(xs@.take(j as int) =~= xs@);
    }
    ensure_unique_strings(keys.as_slice(), "vehicleProfiles.vehicleProfileKey", key, scratch)?;
    let ghost limit = single_string_limit(limits);
    let ghost step = |c: RoadEditingPreflightCounts, i: int, x: VehicleProfileFields|
        vehicle_profile_step(c, x, namespace.spec_bytes(), imports@, limit);
    let ghost start = *usage;
    let mut i: usize = 0;
    while i < xs.len()
        invariant
            i <= xs@.len(),
            s0 == *old(scratch),
            start == *old(usage),
            limits == s0.spec_limits(),
            limit == single_string_limit(limits),
            scratch_restored(s0, *scratch),
            profiles_outcome(start, xs@, namespace.spec_bytes(), imports@, s0) == fold_steps(start, xs@, step),
            step == (|c: RoadEditingPreflightCounts, i: int, x: VehicleProfileFields|
                vehicle_profile_step(c, x, namespace.spec_bytes(), imports@, limit)),
            fold_steps(start, xs@.take(i as int), step) == Ok::<RoadEditingPreflightCounts, StageFailure>(*usage),
        decreases xs@.len() - i,
    {
        proof {
            lemma_fold_extend(start, xs@, step, i as int);
        }
        match check_vehicle_profile(usage, &xs[i], namespace, imports, &limits, key) {
            Ok(()) => {},
            Err(e) => {
                proof {
                    lemma_fold_stops(start, xs@, step, i + 1);
                }
                return Err(e);
            },
        }
        i = i + 1;
    }
    proof {
        lemma_fold_all(start, xs@, step);
    }
    Ok(())
}

/// Checks and charges the participant classes, the access rules and the
/// vehicle profiles; see [`access_outcome`].
pub fn validate_access_and_profiles(
    usage: &mut RoadEditingPreflightCounts,
    classes: &[ParticipantClassFields],
    rules: &[AccessRuleFields],
    profiles: &[VehicleProfileFields],
    namespace: &str,
    imports: &[&str],
    scratch: &mut PreflightScratch,
    key: &str,
) -> (r: Result<(), DiagnosticBundle>)
    ensures
        match access_outcome(*old(usage), classes@, rules@, profiles@, namespace.spec_bytes(), imports@, *old(scratch)) {
            Ok(c) => r is Ok && *final(usage) == c,
            Err(f) => r matches Err(b) && stage_reports(b, f, key@),
        },
        scratch_restored(*old(scratch), *final(scratch)),
        r is Ok ==> peak_lifted(*old(scratch), *final(scratch), access_need(classes@, rules@, profiles@)),
{
    proof {
        reveal(access_outcome);
    }
    let ghost s0 = *scratch;
    validate_participant_classes(usage, classes, namespace, imports, scratch, key)?;
    proof {
        lemma_rules_restored(*usage, rules@, namespace.spec_bytes(), imports@, s0, *scratch);
    }
    validate_access_rules(usage, rules, namespace, imports, scratch, key)?;
    validate_vehicle_profiles(usage, profiles, namespace, imports, scratch, key)
}

/// The access outcome reads only the limits and the live bytes of the
/// scratch pass.
pub proof fn lemma_access_outcome_restored(
    c: RoadEditingPreflightCounts,
    classes: Seq<ParticipantClassFields>,
    rules: Seq<AccessRuleFields>,
    profiles: Seq<VehicleProfileFields>,
    namespace: Seq<u8>,
    imports: Seq<&str>,
    a: PreflightScratch,
    b: PreflightScratch,
)
    requires
        scratch_restored(a, b),
    ensures
        access_outcome(c, classes, rules, profiles, namespace, imports, a) == access_outcome(
            c,
            classes,
            rules,
            profiles,
            namespace,
            imports,
            b,
        ),
{
    reveal(access_outcome);
    if let Ok(c1) = classes_outcome(c, classes, namespace, imports, a) {
        lemma_rules_restored(c1, rules, namespace, imports, a, b);
    }
}

} // verus!
