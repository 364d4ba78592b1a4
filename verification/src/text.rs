//! Byte-level text rules shared by module headers, identity tokens and wire
//! references. Every rule is stated over the UTF-8 bytes of the text.

use vstd::prelude::*;

use vstd::string::StringSliceAdditionalSpecFns;
use vstd::utf8::*;

use crate::diagnostic::{RoadEditingInputViolation, SourceTextViolation};

verus! {

/// A byte below 128.
pub open spec fn is_ascii_byte(b: u8) -> bool {
    b < 128
}

/// An ASCII digit or letter.
pub open spec fn is_ascii_alphanumeric(b: u8) -> bool {
    ||| 48 <= b <= 57
    ||| 65 <= b <= 90
    ||| 97 <= b <= 122
}

/// Letters, digits and the token punctuation `. _ : / -`.
pub open spec fn is_token_byte(b: u8) -> bool {
    ||| is_ascii_alphanumeric(b)
    ||| b == 46
    ||| b == 95
    ||| b == 58
    ||| b == 47
    ||| b == 45
}

/// ASCII graphic characters and the space.
pub open spec fn is_visible_byte(b: u8) -> bool {
    32 <= b <= 126
}

/// The ASCII byte rule as a predicate.
pub open spec fn ascii_pred() -> spec_fn(u8) -> bool {
    |b: u8| is_ascii_byte(b)
}

/// The token byte rule as a predicate.
pub open spec fn token_pred() -> spec_fn(u8) -> bool {
    |b: u8| is_token_byte(b)
}

/// The visible byte rule as a predicate.
pub open spec fn visible_pred() -> spec_fn(u8) -> bool {
    |b: u8| is_visible_byte(b)
}

/// `i` is the first position of `s` whose byte fails `p`.
pub open spec fn is_first_failure(s: Seq<u8>, p: spec_fn(u8) -> bool, i: int) -> bool {
    &&& 0 <= i < s.len()
    &&& !p(s[i])
    &&& forall|j: int| 0 <= j < i ==> p(#[trigger] s[j])
}

/// Some byte of `s` fails `p`.
pub open spec fn has_failure(s: Seq<u8>, p: spec_fn(u8) -> bool) -> bool {
    exists|i: int| 0 <= i < s.len() && !p(#[trigger] s[i])
}

/// The first position of `s` whose byte fails `p` (meaningful when one fails).
pub open spec fn first_failure(s: Seq<u8>, p: spec_fn(u8) -> bool) -> int {
    choose|i: int| is_first_failure(s, p, i)
}

/// `i` is the first position at which `s` holds the delimiter `::`.
pub open spec fn is_first_double_colon(s: Seq<u8>, i: int) -> bool {
    &&& 0 <= i && i + 1 < s.len()
    &&& s[i] == 58 && s[i + 1] == 58
    &&& forall|j: int| 0 <= j < i ==> !(#[trigger] s[j] == 58 && s[j + 1] == 58)
}

/// `s` holds the delimiter `::`.
pub open spec fn has_double_colon(s: Seq<u8>) -> bool {
    exists|i: int| 0 <= i && i + 1 < s.len() && #[trigger] s[i] == 58 && s[i + 1] == 58
}

/// The position of the first delimiter `::` of `s`.
pub open spec fn first_double_colon(s: Seq<u8>) -> int {
    choose|i: int| is_first_double_colon(s, i)
}

/// The first failing position is the one `first_failure` picks.
pub proof fn lemma_first_failure_unique(s: Seq<u8>, p: spec_fn(u8) -> bool, i: int)
    requires
        is_first_failure(s, p, i),
    ensures
        has_failure(s, p),
        first_failure(s, p) == i,
        is_first_failure(s, p, first_failure(s, p)),
{
    assert(!p(s[i]));
    let k = first_failure(s, p);
    assert(is_first_failure(s, p, k));
    if k < i {
        assert(p(s[k]));
    }
    if i < k {
        assert(p(s[i]));
    }
}

/// The first delimiter is the one `first_double_colon` picks.
pub proof fn lemma_first_double_colon_unique(s: Seq<u8>, i: int)
    requires
        is_first_double_colon(s, i),
    ensures
        has_double_colon(s),
        first_double_colon(s) == i,
{
    assert(s[i] == 58 && s[i + 1] == 58);
    let k = first_double_colon(s);
    assert(is_first_double_colon(s, k));
    if k < i {
        assert(!(s[k] == 58 && s[k + 1] == 58));
    }
    if i < k {
        assert(!(s[i] == 58 && s[i + 1] == 58));
    }
}

/// The UTF-8 bytes of an owned string with characters `s`.
pub open spec fn string_bytes(s: Seq<char>) -> Seq<u8> {
    encode_utf8(s)
}

/// Every byte of `s` is ASCII.
pub open spec fn all_ascii(s: Seq<u8>) -> bool {
    forall|j: int| 0 <= j < s.len() ==> #[trigger] s[j] < 128
}

/// A character sequence whose UTF-8 encoding has only ASCII bytes is ASCII.
pub proof fn lemma_ascii_bytes_ascii_chars(chars: Seq<char>)
    requires
        all_ascii(encode_utf8(chars)),
    ensures
        is_ascii_chars(chars),
    decreases chars.len(),
{
    if chars.len() > 0 {
        let c0 = chars[0] as u32;
        let rest = chars.drop_first();
        let head = encode_scalar(c0);
        assert(encode_utf8(chars) == head + encode_utf8(rest));
        assert(head.len() >= 1);
        assert(encode_utf8(chars)[0] == head[0]);
        if !has_width_1_encoding(c0) {
            let x = ((c0 >> 6) & 0x1F) as u8;
            let y = ((c0 >> 12) & 0x0F) as u8;
            let z = ((c0 >> 18) & 0x7) as u8;
            assert((0xC0u8 | x) >= 128 && (0xE0u8 | y) >= 128 && (0xF0u8 | z) >= 128) by (bit_vector);
            assert(head[0] >= 128);
        }
        assert forall|j: int| 0 <= j < encode_utf8(rest).len() implies #[trigger] encode_utf8(rest)[j] < 128 by {
            assert(encode_utf8(chars)[head.len() + j] == encode_utf8(rest)[j]);
        }
        lemma_ascii_bytes_ascii_chars(rest);
        assert forall|i: int| 0 <= i < chars.len() implies '\0' <= #[trigger] chars[i] <= '\u{7f}' by {
            if i > 0 {
                assert(chars[i] == rest[i - 1]);
            } else {
                if !has_width_1_encoding(c0) {
                    assert(encode_utf8(chars)[0] < 128);
                }
                lemma_ascii_char_range(chars[i]);
            }
        }
    }
}

proof fn lemma_ascii_char_range(c: char)
    requires
        (c as u32) <= 0x7f,
    ensures
        '\0' <= c <= '\u{7f}',
{
}

/// A string slice whose bytes are all ASCII is ASCII, and its characters are its bytes.
pub proof fn lemma_ascii_str(value: &str)
    requires
        all_ascii(value.spec_bytes()),
    ensures
        value.is_ascii(),
        value@.len() == value.spec_bytes().len(),
        forall|i: int| 0 <= i < value@.len() ==> #[trigger] value@[i] as u8 == value.spec_bytes()[i],
{
    lemma_ascii_bytes_ascii_chars(value@);
    is_ascii_chars_encode_utf8(value@);
}

/// A token without violation is non-empty ASCII.
pub proof fn lemma_valid_token_ascii(s: Seq<u8>, limit: u64, forbid: bool)
    requires
        token_violation_spec(s, limit, forbid) is None,
    ensures
        all_ascii(s),
        s.len() > 0,
        s.len() <= limit,
        !has_failure(s, token_pred()),
        forbid ==> !has_double_colon(s),
{
    assert forall|j: int| 0 <= j < s.len() implies #[trigger] s[j] < 128 by {
        assert((ascii_pred())(s[j]));
    }
}

/// Texts with equal UTF-8 bytes are equal.
pub proof fn lemma_bytes_equal_chars(a: Seq<char>, b: Seq<char>)
    requires
        encode_utf8(a) == encode_utf8(b),
    ensures
        a == b,
{
    vstd::utf8::encode_utf8_decode_utf8(a);
    vstd::utf8::encode_utf8_decode_utf8(b);
}

/// The rule for externally supplied tokens (namespaces, document keys): non-empty,
/// at most `limit` bytes, ASCII, a letter or digit first, then token bytes.
pub open spec fn external_token_violation_spec(s: Seq<u8>, limit: u64) -> Option<SourceTextViolation> {
    if s.len() == 0 {
        Some(SourceTextViolation::Empty)
    } else if s.len() > limit {
        Some(SourceTextViolation::TooLong { limit, observed: s.len() as u64 })
    } else if has_failure(s, ascii_pred()) {
        Some(SourceTextViolation::NonAscii { byte_index: first_failure(s, ascii_pred()) as u64 })
    } else if !is_ascii_alphanumeric(s[0]) {
        Some(SourceTextViolation::InvalidFirstByte { byte: s[0] })
    } else if has_failure(s, token_pred()) {
        Some(
            SourceTextViolation::InvalidTokenByte {
                byte_index: first_failure(s, token_pred()) as u64,
                byte: s[first_failure(s, token_pred())],
            },
        )
    } else {
        None
    }
}

/// The rule for free metadata text: non-empty, at most `limit` bytes, ASCII.
pub open spec fn common_text_violation_spec(s: Seq<u8>, limit: u64) -> Option<SourceTextViolation> {
    if s.len() == 0 {
        Some(SourceTextViolation::Empty)
    } else if s.len() > limit {
        Some(SourceTextViolation::TooLong { limit, observed: s.len() as u64 })
    } else if has_failure(s, ascii_pred()) {
        Some(SourceTextViolation::NonAscii { byte_index: first_failure(s, ascii_pred()) as u64 })
    } else {
        None
    }
}

/// The identity-token rule: the external token rule, and, when asked, no `::`.
pub open spec fn token_violation_spec(s: Seq<u8>, limit: u64, forbid_qualification: bool) -> Option<
    RoadEditingInputViolation,
> {
    match external_token_violation_spec(s, limit) {
        Some(v) => Some(RoadEditingInputViolation::InvalidText(v)),
        None => if forbid_qualification && has_double_colon(s) {
            Some(
                RoadEditingInputViolation::InvalidText(
                    SourceTextViolation::ReservedDelimiter {
                        byte_index: first_double_colon(s) as u64,
                    },
                ),
            )
        } else {
            None
        },
    }
}

/// The bytes an identity token may hold: ASCII letters and digits and the
/// punctuation `.` `_` `:` `/` `-`.
pub open spec fn token_alphabet(b: u8) -> bool {
    (48 <= b && b <= 57) || (65 <= b && b <= 90) || (97 <= b && b <= 122) || b == 45 || b == 46 || b == 47 || b == 58
        || b == 95
}

/// An accepted identity token is non-empty, within `limit` bytes, starts with
/// an ASCII letter or digit and holds only bytes of the token alphabet; when
/// qualification is forbidden it holds no `::`.
pub proof fn law_accepted_tokens_use_the_token_alphabet(s: Seq<u8>, limit: u64, forbid_qualification: bool)
    requires
        token_violation_spec(s, limit, forbid_qualification) is None,
    ensures
        0 < s.len() <= limit,
        (48 <= s[0] <= 57) || (65 <= s[0] <= 90) || (97 <= s[0] <= 122),
        forall|i: int| 0 <= i < s.len() ==> token_alphabet(#[trigger] s[i]),
        forbid_qualification ==> forall|i: int| 0 <= i && i + 1 < s.len() ==> !(#[trigger] s[i] == 58 && s[i + 1] == 58),
{
    assert forall|i: int| 0 <= i < s.len() implies token_alphabet(#[trigger] s[i]) by {
        assert((token_pred())(s[i]));
    }
}

/// The visible-ASCII rule: non-empty, at most `limit` bytes, every byte a graphic
/// ASCII character or space; the first offending byte is reported as a control
/// byte when it is ASCII and as non-ASCII otherwise.
pub open spec fn visible_ascii_violation_spec(s: Seq<u8>, limit: u64) -> Option<RoadEditingInputViolation> {
    if s.len() == 0 {
        Some(RoadEditingInputViolation::InvalidText(SourceTextViolation::Empty))
    } else if s.len() > limit {
        Some(
            RoadEditingInputViolation::InvalidText(
                SourceTextViolation::TooLong { limit, observed: s.len() as u64 },
            ),
        )
    } else if has_failure(s, visible_pred()) {
        let i = first_failure(s, visible_pred());
        if is_ascii_byte(s[i]) {
            Some(
                RoadEditingInputViolation::InvalidText(
                    SourceTextViolation::ControlByte { byte_index: i as u64, byte: s[i] },
                ),
            )
        } else {
            Some(
                RoadEditingInputViolation::InvalidText(
                    SourceTextViolation::NonAscii { byte_index: i as u64 },
                ),
            )
        }
    } else {
        None
    }
}

/// Position of the first byte of `bytes` that is not ASCII.
fn find_non_ascii(bytes: &[u8]) -> (r: Option<usize>)
    ensures
        r matches Some(i) ==> is_first_failure(bytes@, ascii_pred(), i as int),
        r is None ==> !has_failure(bytes@, ascii_pred()),
{
    let mut i: usize = 0;
    while i < bytes.len()
        invariant
            i <= bytes@.len(),
            forall|j: int| 0 <= j < i ==> (ascii_pred())(#[trigger] bytes@[j]),
        decreases bytes@.len() - i,
    {
        if bytes[i] >= 128 {
            return Some(i);
        }
        i = i + 1;
    }
    None
}

/// Position of the first byte of `bytes` that is not a token byte.
fn find_non_token(bytes: &[u8]) -> (r: Option<usize>)
    ensures
        r matches Some(i) ==> is_first_failure(bytes@, token_pred(), i as int),
        r is None ==> !has_failure(bytes@, token_pred()),
{
    let mut i: usize = 0;
    while i < bytes.len()
        invariant
            i <= bytes@.len(),
            forall|j: int| 0 <= j < i ==> (token_pred())(#[trigger] bytes@[j]),
        decreases bytes@.len() - i,
    {
        let b = bytes[i];
        let ok = (48 <= b && b <= 57) || (65 <= b && b <= 90) || (97 <= b && b <= 122) || b == 46
            || b == 95 || b == 58 || b == 47 || b == 45;
        if !ok {
            return Some(i);
        }
        i = i + 1;
    }
    None
}

/// Position of the first byte of `bytes` that is neither graphic ASCII nor space.
fn find_non_visible(bytes: &[u8]) -> (r: Option<usize>)
    ensures
        r matches Some(i) ==> is_first_failure(bytes@, visible_pred(), i as int),
        r is None ==> !has_failure(bytes@, visible_pred()),
{
    let mut i: usize = 0;
    while i < bytes.len()
        invariant
            i <= bytes@.len(),
            forall|j: int| 0 <= j < i ==> (visible_pred())(#[trigger] bytes@[j]),
        decreases bytes@.len() - i,
    {
        let b = bytes[i];
        if !(32 <= b && b <= 126) {
            return Some(i);
        }
        i = i + 1;
    }
    None
}

/// Position of the first `::` in `bytes`.
pub fn find_double_colon(bytes: &[u8]) -> (r: Option<usize>)
    ensures
        r matches Some(i) ==> is_first_double_colon(bytes@, i as int),
        r is None ==> !has_double_colon(bytes@),
{
    let mut i: usize = 0;
    while i < bytes.len()
        invariant
            i <= bytes@.len(),
            forall|j: int| 0 <= j < i && j + 1 < bytes@.len() ==> !(#[trigger] bytes@[j] == 58 && bytes@[j + 1] == 58),
        decreases bytes@.len() - i,
    {
        if i + 1 < bytes.len() && bytes[i] == 58 && bytes[i + 1] == 58 {
            return Some(i);
        }
        i = i + 1;
    }
    None
}

/// Checks an externally supplied token against `limit`; `None` when it is valid.
pub fn external_token_violation(value: &str, limit: u64) -> (r: Option<SourceTextViolation>)
    ensures
        r == external_token_violation_spec(value.spec_bytes(), limit),
{
    external_token_violation_in(value.as_bytes(), limit)
}

/// Checks the bytes of an externally supplied token against `limit`.
pub fn external_token_violation_in(bytes: &[u8], limit: u64) -> (r: Option<SourceTextViolation>)
    ensures
        r == external_token_violation_spec(bytes@, limit),
{
    if bytes.len() == 0 {
        return Some(SourceTextViolation::Empty);
    }
    let observed = bytes.len() as u64;
    if observed > limit {
        return Some(SourceTextViolation::TooLong { limit, observed });
    }
    match find_non_ascii(bytes) {
        Some(i) => {
            proof {
                lemma_first_failure_unique(bytes@, ascii_pred(), i as int);
            }
            return Some(SourceTextViolation::NonAscii { byte_index: i as u64 });
        },
        None => {},
    }
    let first = bytes[0];
    if !((48 <= first && first <= 57) || (65 <= first && first <= 90) || (97 <= first && first
        <= 122)) {
        return Some(SourceTextViolation::InvalidFirstByte { byte: first });
    }
    match find_non_token(bytes) {
        Some(i) => {
            proof {
                lemma_first_failure_unique(bytes@, token_pred(), i as int);
            }
            Some(SourceTextViolation::InvalidTokenByte { byte_index: i as u64, byte: bytes[i] })
        },
        None => None,
    }
}

/// Checks free metadata text against `limit`; `None` when it is valid.
pub fn common_text_violation(value: &str, limit: u64) -> (r: Option<SourceTextViolation>)
    ensures
        r == common_text_violation_spec(value.spec_bytes(), limit),
{
    let bytes = value.as_bytes();
    if bytes.len() == 0 {
        return Some(SourceTextViolation::Empty);
    }
    let observed = bytes.len() as u64;
    if observed > limit {
        return Some(SourceTextViolation::TooLong { limit, observed });
    }
    match find_non_ascii(bytes) {
        Some(i) => {
            proof {
                lemma_first_failure_unique(bytes@, ascii_pred(), i as int);
            }
            Some(SourceTextViolation::NonAscii { byte_index: i as u64 })
        },
        None => None,
    }
}

/// First position of a byte that is neither graphic ASCII nor space, with the
/// byte itself; `None` when every byte is visible.
pub fn first_invisible_byte(value: &str) -> (r: Option<(u64, u8)>)
    ensures
        r is None <==> !has_failure(value.spec_bytes(), visible_pred()),
        r matches Some((i, b)) ==> {
            &&& i == first_failure(value.spec_bytes(), visible_pred())
            &&& b == value.spec_bytes()[i as int]
        },
{
    let bytes = value.as_bytes();
    match find_non_visible(bytes) {
        Some(i) => {
            proof {
                lemma_first_failure_unique(bytes@, visible_pred(), i as int);
            }
            Some((i as u64, bytes[i]))
        },
        None => None,
    }
}

/// Checks an identity token against `limit`, optionally forbidding `::`.
pub fn token_violation(value: &str, limit: u64, forbid_qualification_delimiter: bool) -> (r: Option<
    RoadEditingInputViolation,
>)
    ensures
        r == token_violation_spec(value.spec_bytes(), limit, forbid_qualification_delimiter),
{
    token_violation_in(value.as_bytes(), limit, forbid_qualification_delimiter)
}

/// Checks the bytes of an identity token against `limit`, optionally forbidding `::`.
pub fn token_violation_in(bytes: &[u8], limit: u64, forbid_qualification_delimiter: bool) -> (r: Option<
    RoadEditingInputViolation,
>)
    ensures
        r == token_violation_spec(bytes@, limit, forbid_qualification_delimiter),
        r is None ==> forall|i: int| 0 <= i < bytes@.len() ==> token_alphabet(#[trigger] bytes@[i]),
{
    if let Some(violation) = external_token_violation_in(bytes, limit) {
        return Some(RoadEditingInputViolation::InvalidText(violation));
    }
    if forbid_qualification_delimiter {
        match find_double_colon(bytes) {
            Some(i) => {
                proof {
                    lemma_first_double_colon_unique(bytes@, i as int);
                }
                return Some(
                    RoadEditingInputViolation::InvalidText(
                        SourceTextViolation::ReservedDelimiter { byte_index: i as u64 },
                    ),
                );
            },
            None => {},
        }
    }
    None
}

/// Checks visible ASCII text against `limit`; `None` when it is valid.
pub fn visible_ascii_violation(value: &str, limit: u64) -> (r: Option<RoadEditingInputViolation>)
    ensures
        r == visible_ascii_violation_spec(value.spec_bytes(), limit),
{
    let bytes = value.as_bytes();
    if bytes.len() == 0 {
        return Some(RoadEditingInputViolation::InvalidText(SourceTextViolation::Empty));
    }
    let observed = bytes.len() as u64;
    if observed > limit {
        return Some(
            RoadEditingInputViolation::InvalidText(SourceTextViolation::TooLong { limit, observed }),
        );
    }
    match find_non_visible(bytes) {
        Some(i) => {
            proof {
                lemma_first_failure_unique(bytes@, visible_pred(), i as int);
            }
            let byte = bytes[i];
            if byte < 128 {
                Some(
                    RoadEditingInputViolation::InvalidText(
                        SourceTextViolation::ControlByte { byte_index: i as u64, byte },
                    ),
                )
            } else {
                Some(
                    RoadEditingInputViolation::InvalidText(
                        SourceTextViolation::NonAscii { byte_index: i as u64 },
                    ),
                )
            }
        },
        None => None,
    }
}

} // verus!
