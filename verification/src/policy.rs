//! Right-of-way policy inputs: evidence entries, gap profiles and the sorted,
//! checked evidence keys that policy rules cite.

use vstd::prelude::*;
use vstd::string::StringSliceAdditionalSpecFns;

use crate::diagnostic::{DiagnosticBundle, RoadEditingInputViolation, SourceTextViolation};
use crate::rules::{input_error, strings_are_unique, strings_unique, validate_non_empty_text, validate_token};
use crate::text::{string_bytes, token_violation_spec};

verus! {

broadcast use vstd::seq_lib::group_to_multiset_ensures;

/// A piece of right-of-way evidence: a stable key, a locator of the external
/// source and an optional description.
#[derive(Clone, Debug, PartialEq, Eq)]
pub struct PolicyEvidenceInput {
    key: String,
    locator: String,
    description: Option<String>,
}

impl PolicyEvidenceInput {
    pub closed spec fn key_view(&self) -> Seq<char> {
        self.key@
    }

    pub closed spec fn locator_view(&self) -> Seq<char> {
        self.locator@
    }

    pub closed spec fn description_view(&self) -> Option<Seq<char>> {
        match self.description {
            Some(d) => Some(d@),
            None => None,
        }
    }

    /// Checks the key as an identity token and the locator as non-empty text;
    /// the description is kept as given.
    pub fn try_new(key: &str, locator: &str, description: Option<String>) -> (r: Result<Self, DiagnosticBundle>)
        ensures
            match token_violation_spec(key.spec_bytes(), u64::MAX, true) {
                Some(v) => r matches Err(b) && b.is_input_error("policyEvidence.key"@, v),
                None => if locator@.len() == 0 {
                    r matches Err(b) && b.is_input_error(
                        "policyEvidence.locator"@,
                        RoadEditingInputViolation::InvalidText(SourceTextViolation::Empty),
                    )
                } else {
                    r matches Ok(e) && e.key_view() == key@ && e.locator_view() == locator@
                        && e.description_view() == match description {
                        Some(d) => Some(d@),
                        None => None::<Seq<char>>,
                    }
                },
            },
    {
        validate_token(key, "policyEvidence.key")?;
        validate_non_empty_text(locator, "policyEvidence.locator")?;
        Ok(PolicyEvidenceInput { key: String::from_str(key), locator: String::from_str(locator), description })
    }

    /// The evidence key.
    pub fn key(&self) -> (r: &str)
        ensures
            r@ == self.key_view(),
    {
        self.key.as_str()
    }

    /// The locator of the external source.
    pub fn locator(&self) -> (r: &str)
        ensures
            r@ == self.locator_view(),
    {
        self.locator.as_str()
    }

    /// The optional description.
    pub fn description(&self) -> (r: Option<&str>)
        ensures
            match self.description_view() {
                None => r is None,
                Some(d) => r matches Some(s) && s@ == d,
            },
    {
        match &self.description {
            Some(d) => Some(d.as_str()),
            None => None,
        }
    }
}

/// Named, versioned gap-acceptance parameters: minimum lead gap, minimum lag
/// gap and clearance buffer, in milliseconds.
#[derive(Clone, Debug, PartialEq, Eq)]
pub struct PolicyGapProfileInput {
    key: String,
    parameter_version: String,
    minimum_lead_gap_ms: u64,
    minimum_lag_gap_ms: u64,
    clearance_buffer_ms: u64,
}

impl PolicyGapProfileInput {
    pub closed spec fn key_view(&self) -> Seq<char> {
        self.key@
    }

    pub closed spec fn version_view(&self) -> Seq<char> {
        self.parameter_version@
    }

    /// The three millisecond parameters: lead gap, lag gap, clearance buffer.
    pub closed spec fn gaps(&self) -> (u64, u64, u64) {
        (self.minimum_lead_gap_ms, self.minimum_lag_gap_ms, self.clearance_buffer_ms)
    }

    /// Checks the key as an identity token and the parameter version as
    /// non-empty text; the millisecond values are kept as given.
    pub fn try_new(
        key: &str,
        parameter_version: &str,
        minimum_lead_gap_ms: u64,
        minimum_lag_gap_ms: u64,
        clearance_buffer_ms: u64,
    ) -> (r: Result<Self, DiagnosticBundle>)
        ensures
            match token_violation_spec(key.spec_bytes(), u64::MAX, true) {
                Some(v) => r matches Err(b) && b.is_input_error("policyGapProfile.key"@, v),
                None => if parameter_version@.len() == 0 {
                    r matches Err(b) && b.is_input_error(
                        "policyGapProfile.parameterVersion"@,
                        RoadEditingInputViolation::InvalidText(SourceTextViolation::Empty),
                    )
                } else {
                    r matches Ok(g) && g.key_view() == key@ && g.version_view() == parameter_version@ && g.gaps() == (
                        minimum_lead_gap_ms,
                        minimum_lag_gap_ms,
                        clearance_buffer_ms,
                    )
                },
            },
    {
        validate_token(key, "policyGapProfile.key")?;
        validate_non_empty_text(parameter_version, "policyGapProfile.parameterVersion")?;
        Ok(
            PolicyGapProfileInput {
                key: String::from_str(key),
                parameter_version: String::from_str(parameter_version),
                minimum_lead_gap_ms,
                minimum_lag_gap_ms,
                clearance_buffer_ms,
            },
        )
    }

    /// The gap profile key.
    pub fn key(&self) -> (r: &str)
        ensures
            r@ == self.key_view(),
    {
        self.key.as_str()
    }

    /// The parameter version.
    pub fn parameter_version(&self) -> (r: &str)
        ensures
            r@ == self.version_view(),
    {
        self.parameter_version.as_str()
    }

    /// The minimum lead gap, lag gap and clearance buffer, in milliseconds.
    pub fn gap_milliseconds(&self) -> (r: (u64, u64, u64))
        ensures
            r == self.gaps(),
    {
        (self.minimum_lead_gap_ms, self.minimum_lag_gap_ms, self.clearance_buffer_ms)
    }
}

/// Byte-lexicographic order: `a` sorts strictly before `b`.
pub open spec fn bytes_lt(a: Seq<u8>, b: Seq<u8>) -> bool
    decreases a.len(),
{
    if a.len() == 0 {
        b.len() > 0
    } else if b.len() == 0 {
        false
    } else if a[0] != b[0] {
        a[0] < b[0]
    } else {
        bytes_lt(a.skip(1), b.skip(1))
    }
}

/// The order is transitive.
pub proof fn lemma_bytes_lt_transitive(a: Seq<u8>, b: Seq<u8>, c: Seq<u8>)
    requires
        bytes_lt(a, b),
        bytes_lt(b, c),
    ensures
        bytes_lt(a, c),
    decreases a.len(),
{
    if a.len() > 0 && b.len() > 0 && c.len() > 0 && a[0] == b[0] && b[0] == c[0] {
        lemma_bytes_lt_transitive(a.skip(1), b.skip(1), c.skip(1));
    }
}

/// The order is irreflexive.
pub proof fn lemma_bytes_lt_irreflexive(a: Seq<u8>)
    ensures
        !bytes_lt(a, a),
    decreases a.len(),
{
    if a.len() > 0 {
        lemma_bytes_lt_irreflexive(a.skip(1));
    }
}

/// Distinct byte strings are ordered one way or the other.
pub proof fn lemma_bytes_lt_total(a: Seq<u8>, b: Seq<u8>)
    requires
        a != b,
    ensures
        bytes_lt(a, b) || bytes_lt(b, a),
    decreases a.len(),
{
    if a.len() > 0 && b.len() > 0 && a[0] == b[0] {
        if a.skip(1) == b.skip(1) {
            assert(a =~= seq![a[0]] + a.skip(1));
            assert(b =~= seq![b[0]] + b.skip(1));
        }
        lemma_bytes_lt_total(a.skip(1), b.skip(1));
    } else if a.len() == 0 && b.len() == 0 {
        assert(a =~= b);
    }
}

/// Whether `a` sorts strictly before `b` by bytes.
fn str_lt(a: &str, b: &str) -> (r: bool)
    ensures
        r == bytes_lt(a.spec_bytes(), b.spec_bytes()),
{
    let x = a.as_bytes();
    let y = b.as_bytes();
    proof {
        assert(x@.skip(0) =~= x@);
        assert(y@.skip(0) =~= y@);
    }
    let mut i: usize = 0;
    while i < x.len() && i < y.len()
        invariant
            i <= x@.len(),
            i <= y@.len(),
            x@ == a.spec_bytes(),
            y@ == b.spec_bytes(),
            bytes_lt(x@, y@) == bytes_lt(x@.skip(i as int), y@.skip(i as int)),
        decreases x@.len() - i,
    {
        if x[i] != y[i] {
            return x[i] < y[i];
        }
        proof {
            assert(x@.skip(i as int).skip(1) =~= x@.skip(i + 1));
            assert(y@.skip(i as int).skip(1) =~= y@.skip(i + 1));
        }
        i = i + 1;
    }
    i == x.len() && i < y.len()
}

/// `values` is strictly increasing by bytes.
pub open spec fn strictly_sorted(values: Seq<String>) -> bool {
    forall|i: int, j: int|
        0 <= i < j < values.len() ==> bytes_lt(string_bytes(#[trigger] values[i]@), string_bytes(#[trigger] values[j]@))
}

/// `k` is the first key of `values` that breaks the identity-token rule.
pub open spec fn is_first_bad_key(values: Seq<String>, k: int) -> bool {
    &&& 0 <= k < values.len()
    &&& token_violation_spec(string_bytes(values[k]@), u64::MAX, true) is Some
    &&& forall|j: int|
        0 <= j < k ==> token_violation_spec(string_bytes(#[trigger] values[j]@), u64::MAX, true) is None
}

/// Some key of `values` breaks the identity-token rule.
pub open spec fn has_bad_key(values: Seq<String>) -> bool {
    exists|k: int|
        0 <= k < values.len() && token_violation_spec(string_bytes(#[trigger] values[k]@), u64::MAX, true) is Some
}

/// The violation of the first key that breaks the identity-token rule.
pub open spec fn first_bad_key_violation(values: Seq<String>) -> RoadEditingInputViolation {
    let k = choose|k: int| is_first_bad_key(values, k);
    token_violation_spec(string_bytes(values[k]@), u64::MAX, true)->Some_0
}

proof fn lemma_first_bad_key_unique(values: Seq<String>, k: int)
    requires
        is_first_bad_key(values, k),
    ensures
        has_bad_key(values),
        first_bad_key_violation(values) == token_violation_spec(string_bytes(values[k]@), u64::MAX, true)->Some_0,
{
    let p = choose|p: int| is_first_bad_key(values, p);
    assert(is_first_bad_key(values, p));
    if p < k {
        assert(token_violation_spec(string_bytes(values[p]@), u64::MAX, true) is None);
    }
    if k < p {
        assert(token_violation_spec(string_bytes(values[k]@), u64::MAX, true) is None);
    }
}

/// Checks each evidence key as an identity token, in order, requires them to
/// be distinct, and returns them sorted by bytes.
pub fn evidence_keys(values: Vec<String>) -> (r: Result<Vec<String>, DiagnosticBundle>)
    ensures
        has_bad_key(values@) ==> (r matches Err(b) && b.is_input_error(
            "policyRule.evidenceKeys"@,
            first_bad_key_violation(values@),
        )),
        !has_bad_key(values@) && !strings_unique(values@) ==> (r matches Err(b) && b.is_input_error(
            "policyRule.evidenceKeys"@,
            RoadEditingInputViolation::DuplicateValue,
        )),
        !has_bad_key(values@) && strings_unique(values@) ==> (r matches Ok(sorted)
            && sorted@.to_multiset() == values@.to_multiset() && strictly_sorted(sorted@)),
{
    let mut i: usize = 0;
    while i < values.len()
        invariant
            i <= values@.len(),
            forall|j: int|
                0 <= j < i ==> token_violation_spec(string_bytes(#[trigger] values@[j]@), u64::MAX, true) is None,
        decreases values@.len() - i,
    {
        match validate_token(values[i].as_str(), "policyRule.evidenceKeys") {
            Ok(()) => {},
            Err(e) => {
                proof {
                    lemma_first_bad_key_unique(values@, i as int);
                }
                return Err(e);
            },
        }
        i = i + 1;
    }
    if !strings_are_unique(values.as_slice()) {
        return Err(input_error("policyRule.evidenceKeys", RoadEditingInputViolation::DuplicateValue));
    }
    Ok(sort_distinct(values))
}

/// Sorts distinct strings by bytes.
fn sort_distinct(values: Vec<String>) -> (r: Vec<String>)
    requires
        strings_unique(values@),
    ensures
        r@.to_multiset() == values@.to_multiset(),
        strictly_sorted(r@),
{
    let ghost original = values@;
    let mut rest = values;
    let mut out: Vec<String> = Vec::new();
    while rest.len() > 0
        invariant
            out@.to_multiset().add(rest@.to_multiset()) == original.to_multiset(),
            strictly_sorted(out@),
            strings_unique(rest@),
            forall|a: int, b: int|
                0 <= a < out@.len() && 0 <= b < rest@.len() ==> bytes_lt(
                    string_bytes(#[trigger] out@[a]@),
                    string_bytes(#[trigger] rest@[b]@),
                ),
        decreases rest@.len(),
    {
        let mut m: usize = 0;
        let mut k: usize = 1;
        while k < rest.len()
            invariant
                0 < rest@.len(),
                m < k <= rest@.len(),
                strings_unique(rest@),
                forall|j: int| 0 <= j < k && j != m ==> bytes_lt(string_bytes(rest@[m as int]@), string_bytes(#[trigger] rest@[j]@)),
            decreases rest@.len() - k,
        {
            if str_lt(rest[k].as_str(), rest[m].as_str()) {
                proof {
                    assert forall|j: int| 0 <= j < k + 1 && j != k implies bytes_lt(
                        string_bytes(rest@[k as int]@),
                        string_bytes(#[trigger] rest@[j]@),
                    ) by {
                        if j != m {
                            lemma_bytes_lt_transitive(
                                string_bytes(rest@[k as int]@),
                                string_bytes(rest@[m as int]@),
                                string_bytes(rest@[j]@),
                            );
                        }
                    }
                }
                m = k;
            } else {
                proof {
                    assert(rest@[k as int]@ != rest@[m as int]@);
                    if string_bytes(rest@[k as int]@) == string_bytes(rest@[m as int]@) {
                        crate::text::lemma_bytes_equal_chars(rest@[k as int]@, rest@[m as int]@);
                    }
                    lemma_bytes_lt_total(string_bytes(rest@[k as int]@), string_bytes(rest@[m as int]@));
                }
            }
            k = k + 1;
        }
        let ghost before = rest@;
        let least = rest.remove(m);
        proof {
            assert(before.remove(m as int).to_multiset() == before.to_multiset().remove(before[m as int]));
            assert forall|a: int, b: int| 0 <= a < b < rest@.len() implies rest@[a]@ != rest@[b]@ by {
                let a0 = if a < m { a } else { a + 1 };
                let b0 = if b < m { b } else { b + 1 };
                assert(rest@[a] == before[a0]);
                assert(rest@[b] == before[b0]);
            }
        }
        let ghost out_before = out@;
        out.push(least);
        proof {
            assert forall|a: int, b: int|
                0 <= a < b < out@.len() implies bytes_lt(
                string_bytes(#[trigger] out@[a]@),
                string_bytes(#[trigger] out@[b]@),
            ) by {
                if b == out@.len() - 1 {
                    assert(out@[a] == out_before[a]);
                    assert(out@[b] == before[m as int]);
                } else {
                    assert(out@[a] == out_before[a]);
                    assert(out@[b] == out_before[b]);
                }
            }
            assert forall|a: int, b: int|
                0 <= a < out@.len() && 0 <= b < rest@.len() implies bytes_lt(
                string_bytes(#[trigger] out@[a]@),
                string_bytes(#[trigger] rest@[b]@),
            ) by {
                let b0 = if b < m { b } else { b + 1 };
                assert(rest@[b] == before[b0]);
                if a == out@.len() - 1 {
                    assert(out@[a] == before[m as int]);
                } else {
                    assert(out@[a] == out_before[a]);
                }
            }
            assert(out@.to_multiset() == out_before.to_multiset().insert(before[m as int]));
            assert(out@.to_multiset().add(rest@.to_multiset()) =~= original.to_multiset());
        }
    }
    proof {
        assert(rest@.to_multiset() =~= vstd::multiset::Multiset::empty());
        assert(out@.to_multiset().add(rest@.to_multiset()) =~= out@.to_multiset());
    }
    out
}

} // verus!
