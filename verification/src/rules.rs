//! Shared first-party input rules: identity tokens, visible text, collections
//! and the borrowed parsing of wire reference spellings `ns::a>b>c`.

use vstd::prelude::*;
use vstd::slice::slice_subrange;
use vstd::string::StringExecFns;
use vstd::string::StringSliceAdditionalSpecFns;
use vstd::string::StrSliceExecFns;
use vstd::utf8::is_ascii_chars_encode_utf8;

use crate::diagnostic::{
    Diagnostic, DiagnosticBundle, DiagnosticPayload, RoadEditingInputViolation, SourceTextViolation,
};
use crate::text::{
    all_ascii, find_double_colon, first_double_colon, has_double_colon,
    lemma_ascii_str, lemma_first_double_colon_unique, lemma_valid_token_ascii, token_violation,
    token_violation_in, token_violation_spec, visible_ascii_violation, visible_ascii_violation_spec,
};

verus! {

/// Byte bound of one reference component (namespace or key path segment).
pub const MAX_COMPONENT_BYTES: u64 = 53;
/// Byte bound of a complete wire reference spelling.
pub const MAX_REFERENCE_BYTES: u64 = 270;

/// The `>`-separated pieces of `s` that start at `start`, scanning from `i`.
pub open spec fn split_from(s: Seq<u8>, start: int, i: int) -> Seq<Seq<u8>>
    decreases s.len() - i,
{
    if i < s.len() {
        if s[i] == 62 {
            seq![s.subrange(start, i)] + split_from(s, i + 1, i + 1)
        } else {
            split_from(s, start, i + 1)
        }
    } else {
        seq![s.subrange(start, s.len() as int)]
    }
}

/// The `>`-separated components of a key path (`str::split('>')`).
pub open spec fn split_components(s: Seq<u8>) -> Seq<Seq<u8>> {
    split_from(s, 0, 0)
}

/// A key-path component is a token of at most 53 bytes without `::`.
pub open spec fn component_valid(c: Seq<u8>) -> bool {
    token_violation_spec(c, MAX_COMPONENT_BYTES, true) is None
}

/// `k` is the first key-path component that fails the component rule.
pub open spec fn is_first_bad_component(cs: Seq<Seq<u8>>, k: int) -> bool {
    &&& 0 <= k < cs.len()
    &&& !component_valid(cs[k])
    &&& forall|j: int| 0 <= j < k ==> component_valid(#[trigger] cs[j])
}

/// Some key-path component fails the component rule.
pub open spec fn has_bad_component(cs: Seq<Seq<u8>>) -> bool {
    exists|k: int| 0 <= k < cs.len() && !component_valid(#[trigger] cs[k])
}

/// The position of the first failing key-path component.
pub open spec fn first_bad_component(cs: Seq<Seq<u8>>) -> int {
    choose|k: int| is_first_bad_component(cs, k)
}

proof fn lemma_first_bad_component_unique(cs: Seq<Seq<u8>>, k: int)
    requires
        is_first_bad_component(cs, k),
    ensures
        has_bad_component(cs),
        first_bad_component(cs) == k,
{
    assert(!component_valid(cs[k]));
    let m = first_bad_component(cs);
    assert(is_first_bad_component(cs, m));
    if m < k {
        assert(component_valid(cs[m]));
    }
    if k < m {
        assert(component_valid(cs[k]));
    }
}

/// `n` counted in a saturating `u8`.
pub open spec fn saturating_u8(n: nat) -> u8 {
    if n > 255 {
        255
    } else {
        n as u8
    }
}

/// The outcome of checking the key path `kp` for `expected` components.
pub open spec fn key_path_spec(kp: Seq<u8>, expected: u8) -> Result<(), RoadEditingInputViolation> {
    let cs = split_components(kp);
    if has_bad_component(cs) {
        Err(token_violation_spec(cs[first_bad_component(cs)], MAX_COMPONENT_BYTES, true)->0)
    } else if saturating_u8(cs.len()) != expected {
        Err(RoadEditingInputViolation::InvalidReferenceDepth { expected, actual: saturating_u8(cs.len()) })
    } else {
        Ok(())
    }
}

/// The outcome of validating the wire reference `s`: the optional namespace
/// and the key path on success, the first violation otherwise.
pub open spec fn wire_reference_spec(s: Seq<u8>, expected: u8, allow_qualified: bool) -> Result<
    (Option<Seq<u8>>, Seq<u8>),
    RoadEditingInputViolation,
> {
    if s.len() > MAX_REFERENCE_BYTES {
        Err(
            RoadEditingInputViolation::InvalidText(
                SourceTextViolation::TooLong { limit: MAX_REFERENCE_BYTES, observed: s.len() as u64 },
            ),
        )
    } else if has_double_colon(s) {
        let i = first_double_colon(s);
        let ns = s.take(i);
        let kp = s.skip(i + 2);
        if !allow_qualified {
            Err(RoadEditingInputViolation::InvalidCombination)
        } else if has_double_colon(kp) {
            Err(
                RoadEditingInputViolation::InvalidText(
                    SourceTextViolation::ReservedDelimiter {
                        byte_index: (i + 2 + first_double_colon(kp)) as u64,
                    },
                ),
            )
        } else if token_violation_spec(ns, MAX_COMPONENT_BYTES, true) is Some {
            Err(token_violation_spec(ns, MAX_COMPONENT_BYTES, true)->0)
        } else {
            match key_path_spec(kp, expected) {
                Ok(()) => Ok((Some(ns), kp)),
                Err(e) => Err(e),
            }
        }
    } else {
        match key_path_spec(s, expected) {
            Ok(()) => Ok((None, s)),
            Err(e) => Err(e),
        }
    }
}

/// A validated borrowed wire reference: optional namespace plus key path.
#[derive(Clone, Copy, Debug, PartialEq, Eq)]
pub struct ValidatedReference<'a> {
    namespace: Option<&'a str>,
    key_path: &'a str,
}

impl<'a> ValidatedReference<'a> {
    #[verifier::type_invariant]
    closed spec fn inv(self) -> bool {
        &&& all_ascii(self.key_path.spec_bytes())
        &&& self.namespace matches Some(ns) ==> all_ascii(ns.spec_bytes())
    }

    /// Bytes of the namespace prefix, if any.
    pub closed spec fn namespace_bytes(self) -> Option<Seq<u8>> {
        match self.namespace {
            Some(ns) => Some(ns.spec_bytes()),
            None => None,
        }
    }

    /// Bytes of the owner key path.
    pub closed spec fn key_path_bytes(self) -> Seq<u8> {
        self.key_path.spec_bytes()
    }

    /// The optional authoring-namespace prefix.
    pub fn namespace(self) -> (r: Option<&'a str>)
        ensures
            r is Some <==> self.namespace_bytes() is Some,
            r matches Some(ns) ==> ns.spec_bytes() == self.namespace_bytes()->0,
    {
        self.namespace
    }

    /// The components of the owner key path, in order.
    pub fn key_components(self) -> (r: Vec<&'a str>)
        ensures
            r@.len() == split_components(self.key_path_bytes()).len(),
            forall|k: int|
                0 <= k < r@.len() ==> #[trigger] r@[k].spec_bytes() == split_components(
                    self.key_path_bytes(),
                )[k],
    {
        proof {
            use_type_invariant(self);
        }
        split_ascii(self.key_path)
    }
}

/// Substring `[from, to)` of an ASCII string, with its bytes.
fn ascii_substring<'a>(value: &'a str, from: usize, to: usize) -> (r: &'a str)
    requires
        all_ascii(value.spec_bytes()),
        from <= to <= value.spec_bytes().len(),
    ensures
        r.spec_bytes() == value.spec_bytes().subrange(from as int, to as int),
        all_ascii(r.spec_bytes()),
{
    proof {
        lemma_ascii_str(value);
    }
    let r = value.substring_ascii(from, to);
    proof {
        is_ascii_chars_encode_utf8(r@);
        assert(r.spec_bytes() =~= value.spec_bytes().subrange(from as int, to as int));
    }
    r
}

/// Splits an ASCII string at every `>`.
fn split_ascii<'a>(value: &'a str) -> (r: Vec<&'a str>)
    requires
        all_ascii(value.spec_bytes()),
    ensures
        r@.len() == split_components(value.spec_bytes()).len(),
        forall|k: int|
            0 <= k < r@.len() ==> #[trigger] r@[k].spec_bytes() == split_components(
                value.spec_bytes(),
            )[k],
{
    let bytes = value.as_bytes();
    let ghost s = bytes@;
    let mut out: Vec<&'a str> = Vec::new();
    let mut start: usize = 0;
    let mut i: usize = 0;
    while i < bytes.len()
        invariant
            s == bytes@,
            s == value.spec_bytes(),
            all_ascii(s),
            start <= i <= s.len(),
            split_components(s) == out@.map_values(|p: &str| p.spec_bytes()) + split_from(
                s,
                start as int,
                i as int,
            ),
        decreases s.len() - i,
    {
        if bytes[i] == 62 {
            let piece = ascii_substring(value, start, i);
            let ghost before = out@.map_values(|p: &str| p.spec_bytes());
            out.push(piece);
            proof {
                assert(out@.map_values(|p: &str| p.spec_bytes()) =~= before.push(piece.spec_bytes()));
                assert(split_from(s, start as int, i as int) == seq![s.subrange(start as int, i as int)]
                    + split_from(s, i + 1, i + 1));
            }
            start = i + 1;
        }
        i = i + 1;
    }
    let piece = ascii_substring(value, start, bytes.len());
    let ghost before = out@.map_values(|p: &str| p.spec_bytes());
    out.push(piece);
    proof {
        assert(out@.map_values(|p: &str| p.spec_bytes()) =~= before.push(piece.spec_bytes()));
        assert(split_components(s) =~= out@.map_values(|p: &str| p.spec_bytes()));
        assert forall|k: int| 0 <= k < out@.len() implies #[trigger] out@[k].spec_bytes()
            == split_components(s)[k] by {
            assert(out@.map_values(|p: &str| p.spec_bytes())[k] == out@[k].spec_bytes());
        }
    }
    out
}

/// Checks every `>`-separated component of a key path and the component count.
fn check_key_path(kp: &[u8], expected: u8) -> (r: Result<(), RoadEditingInputViolation>)
    ensures
        r == key_path_spec(kp@, expected),
        r is Ok ==> all_ascii(kp@),
{
    let ghost s = kp@;
    let mut start: usize = 0;
    let mut i: usize = 0;
    let mut count: u8 = 0;
    let ghost mut done: Seq<Seq<u8>> = seq![];
    while i < kp.len()
        invariant
            s == kp@,
            start <= i <= s.len(),
            split_components(s) == done + split_from(s, start as int, i as int),
            forall|k: int| 0 <= k < done.len() ==> component_valid(#[trigger] done[k]),
            count == saturating_u8(done.len()),
            all_ascii(s.take(start as int)),
        decreases s.len() - i,
    {
        if kp[i] == 62 {
            let piece = slice_subrange(kp, start, i);
            proof {
                assert(split_from(s, start as int, i as int) == seq![s.subrange(start as int, i as int)]
                    + split_from(s, i + 1, i + 1));
            }
            if let Some(violation) = token_violation_in(piece, MAX_COMPONENT_BYTES, true) {
                proof {
                    let cs = split_components(s);
                    assert(cs[done.len() as int] == piece@);
                    assert forall|j: int| 0 <= j < done.len() implies component_valid(#[trigger] cs[j]) by {
                        assert(cs[j] == done[j]);
                    }
                    lemma_first_bad_component_unique(cs, done.len() as int);
                }
                return Err(violation);
            }
            proof {
                lemma_valid_token_ascii(piece@, MAX_COMPONENT_BYTES, true);
                assert forall|j: int| 0 <= j < i + 1 implies #[trigger] s.take(i + 1)[j] < 128 by {
                    if j < start {
                        assert(s.take(i + 1)[j] == s.take(start as int)[j]);
                    } else if j < i {
                        assert(s.take(i + 1)[j] == piece@[j - start]);
                    }
                }
                assert(done.push(piece@) + split_from(s, i + 1, i + 1) =~= done + (seq![piece@]
                    + split_from(s, i + 1, i + 1)));
                done = done.push(piece@);
            }
            count = if count < 255 { count + 1 } else { 255 };
            start = i + 1;
        }
        i = i + 1;
    }
    let piece = slice_subrange(kp, start, kp.len());
    proof {
        assert(split_from(s, start as int, i as int) == seq![s.subrange(start as int, s.len() as int)]);
    }
    if let Some(violation) = token_violation_in(piece, MAX_COMPONENT_BYTES, true) {
        proof {
            let cs = split_components(s);
            assert(cs[done.len() as int] == piece@);
            assert forall|j: int| 0 <= j < done.len() implies component_valid(#[trigger] cs[j]) by {
                assert(cs[j] == done[j]);
            }
            lemma_first_bad_component_unique(cs, done.len() as int);
        }
        return Err(violation);
    }
    count = if count < 255 { count + 1 } else { 255 };
    proof {
        let cs = split_components(s);
        lemma_valid_token_ascii(piece@, MAX_COMPONENT_BYTES, true);
        assert(cs =~= done.push(piece@));
        assert(!has_bad_component(cs)) by {
            assert forall|k: int| 0 <= k < cs.len() implies component_valid(#[trigger] cs[k]) by {
                if k < done.len() {
                    assert(cs[k] == done[k]);
                }
            }
        }
        assert forall|j: int| 0 <= j < s.len() implies #[trigger] s[j] < 128 by {
            if j < start {
                assert(s[j] == s.take(start as int)[j]);
            } else {
                assert(s[j] == piece@[j - start]);
            }
        }
    }
    if count != expected {
        return Err(RoadEditingInputViolation::InvalidReferenceDepth { expected, actual: count });
    }
    Ok(())
}

/// Validates the byte bound, the optional namespace qualification and the exact
/// key depth of a wire reference, returning its borrowed parts.
pub fn validate_wire_reference<'a>(
    value: &'a str,
    expected_key_component_count: u8,
    allow_qualified: bool,
) -> (r: Result<ValidatedReference<'a>, RoadEditingInputViolation>)
    ensures
        match wire_reference_spec(value.spec_bytes(), expected_key_component_count, allow_qualified) {
            Ok((ns, kp)) => r matches Ok(v) && v.namespace_bytes() == ns && v.key_path_bytes() == kp,
            Err(e) => r == Err::<ValidatedReference<'a>, RoadEditingInputViolation>(e),
        },
{
    let bytes = value.as_bytes();
    let ghost s = bytes@;
    let len = bytes.len();
    let observed_wire_bytes = len as u64;
    if observed_wire_bytes > MAX_REFERENCE_BYTES {
        return Err(
            RoadEditingInputViolation::InvalidText(
                SourceTextViolation::TooLong {
                    limit: MAX_REFERENCE_BYTES,
                    observed: observed_wire_bytes,
                },
            ),
        );
    }
    match find_double_colon(bytes) {
        Some(i) => {
            proof {
                lemma_first_double_colon_unique(s, i as int);
            }
            if !allow_qualified {
                return Err(RoadEditingInputViolation::InvalidCombination);
            }
            let key_bytes = slice_subrange(bytes, i + 2, len);
            proof {
                assert(key_bytes@ =~= s.skip(i + 2));
            }
            if let Some(j) = find_double_colon(key_bytes) {
                proof {
                    lemma_first_double_colon_unique(key_bytes@, j as int);
                }
                return Err(
                    RoadEditingInputViolation::InvalidText(
                        SourceTextViolation::ReservedDelimiter { byte_index: (i + 2 + j) as u64 },
                    ),
                );
            }
            let namespace_bytes = slice_subrange(bytes, 0, i);
            proof {
                assert(namespace_bytes@ =~= s.take(i as int));
            }
            if let Some(violation) = token_violation_in(namespace_bytes, MAX_COMPONENT_BYTES, true) {
                return Err(violation);
            }
            match check_key_path(key_bytes, expected_key_component_count) {
                Err(e) => return Err(e),
                Ok(()) => {},
            }
            proof {
                lemma_valid_token_ascii(namespace_bytes@, MAX_COMPONENT_BYTES, true);
                assert forall|j: int| 0 <= j < s.len() implies #[trigger] s[j] < 128 by {
                    if j < i {
                        assert(s[j] == namespace_bytes@[j]);
                    } else if j >= i + 2 {
                        assert(s[j] == key_bytes@[j - i - 2]);
                    }
                }
            }
            let namespace = ascii_substring(value, 0, i);
            let key_path = ascii_substring(value, i + 2, len);
            proof {
                assert(namespace.spec_bytes() =~= s.take(i as int));
                assert(key_path.spec_bytes() =~= s.skip(i + 2));
            }
            Ok(ValidatedReference { namespace: Some(namespace), key_path })
        },
        None => {
            match check_key_path(bytes, expected_key_component_count) {
                Err(e) => return Err(e),
                Ok(()) => {},
            }
            Ok(ValidatedReference { namespace: None, key_path: value })
        },
    }
}

/// The single input diagnostic for `field` with `violation`.
pub fn input_error(field: &str, violation: RoadEditingInputViolation) -> (r: DiagnosticBundle)
    ensures
        r.is_input_error(field@, violation),
{
    DiagnosticBundle::single(
        Diagnostic {
            payload: DiagnosticPayload::InvalidRoadEditingInput {
                field: String::from_str(field),
                violation,
            },
        },
    )
}

/// Validates an identity token (no length bound beyond `u64`, no `::`).
pub fn validate_token(value: &str, field: &str) -> (r: Result<(), DiagnosticBundle>)
    ensures
        match token_violation_spec(value.spec_bytes(), u64::MAX, true) {
            None => r is Ok,
            Some(v) => r matches Err(b) && b.is_input_error(field@, v),
        },
{
    if let Some(violation) = token_violation(value, u64::MAX, true) {
        return Err(input_error(field, violation));
    }
    Ok(())
}

/// Validates non-empty visible ASCII text.
pub fn validate_visible_ascii(value: &str, field: &str) -> (r: Result<(), DiagnosticBundle>)
    ensures
        match visible_ascii_violation_spec(value.spec_bytes(), u64::MAX) {
            None => r is Ok,
            Some(v) => r matches Err(b) && b.is_input_error(field@, v),
        },
{
    if let Some(violation) = visible_ascii_violation(value, u64::MAX) {
        return Err(input_error(field, violation));
    }
    Ok(())
}

/// Validates that text is not empty.
pub fn validate_non_empty_text(value: &str, field: &str) -> (r: Result<(), DiagnosticBundle>)
    ensures
        value@.len() == 0 ==> (r matches Err(b) && b.is_input_error(
            field@,
            RoadEditingInputViolation::InvalidText(SourceTextViolation::Empty),
        )),
        value@.len() != 0 ==> r is Ok,
{
    if value.is_empty() {
        return Err(
            input_error(field, RoadEditingInputViolation::InvalidText(SourceTextViolation::Empty)),
        );
    }
    Ok(())
}

/// Requires a non-empty collection.
pub fn require_non_empty<T>(values: &[T], field: &str) -> (r: Result<(), DiagnosticBundle>)
    ensures
        values@.len() == 0 ==> (r matches Err(b) && b.is_input_error(
            field@,
            RoadEditingInputViolation::EmptyCollection,
        )),
        values@.len() != 0 ==> r is Ok,
{
    if values.len() == 0 {
        return Err(input_error(field, RoadEditingInputViolation::EmptyCollection));
    }
    Ok(())
}

/// No two strings of `values` are equal.
pub open spec fn strings_unique(values: Seq<String>) -> bool {
    forall|i: int, j: int| 0 <= i < j < values.len() ==> values[i]@ != values[j]@
}

/// Whether no two strings of `values` are equal.
pub fn strings_are_unique(values: &[String]) -> (r: bool)
    ensures
        r == strings_unique(values@),
{
    let mut i: usize = 0;
    while i < values.len()
        invariant
            i <= values@.len(),
            forall|a: int, b: int| 0 <= a < b < values@.len() && a < i ==> values@[a]@ != values@[b]@,
        decreases values@.len() - i,
    {
        let mut j: usize = i + 1;
        while j < values.len()
            invariant
                i < values@.len(),
                i + 1 <= j <= values@.len(),
                forall|a: int, b: int| 0 <= a < b < values@.len() && a < i ==> values@[a]@ != values@[b]@,
                forall|b: int| i < b < j ==> values@[i as int]@ != values@[b]@,
            decreases values@.len() - j,
        {
            if values[i] == values[j] {
                return false;
            }
            j = j + 1;
        }
        i = i + 1;
    }
    true
}

/// Requires pairwise distinct strings.
pub fn require_unique_strings(values: &[String], field: &str) -> (r: Result<(), DiagnosticBundle>)
    ensures
        strings_unique(values@) ==> r is Ok,
        !strings_unique(values@) ==> (r matches Err(b) && b.is_input_error(
            field@,
            RoadEditingInputViolation::DuplicateValue,
        )),
{
    if !strings_are_unique(values) {
        return Err(input_error(field, RoadEditingInputViolation::DuplicateValue));
    }
    Ok(())
}

} // verus!
