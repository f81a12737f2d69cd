//! Calls into the encoding crates: base64 decoding, hex encoding and random
//! UUID text.

use base64::Engine;
use vstd::prelude::*;

verus! {

/// The error type of `base64` decoding.
#[verifier::external_type_specification]
#[verifier::external_body]
pub struct ExBase64DecodeError(base64::DecodeError);

/// The bytes that standard (padded) base64 decoding yields for `text`, or
/// `None` where the text is not valid standard base64.
pub uninterp spec fn base64_standard_decoded(text: Seq<char>) -> Option<Seq<u8>>;

/// The bytes that URL-safe, unpadded base64 decoding yields for `text`, or
/// `None` where the text is not valid URL-safe unpadded base64.
pub uninterp spec fn base64_url_decoded(text: Seq<char>) -> Option<Seq<u8>>;

/// Decodes standard base64 with padding.
///
/// Trusted: `Engine::decode` of `general_purpose::STANDARD` is a function of
/// the input text; it returns the decoded bytes or a `DecodeError`.
#[verifier::external_body]
pub(crate) fn decode_base64_standard(text: &str) -> (r: Result<Vec<u8>, base64::DecodeError>)
    ensures
        match r {
            Ok(v) => base64_standard_decoded(text@) == Some(v@),
            Err(_) => base64_standard_decoded(text@) is None,
        },
{
    base64::engine::general_purpose::STANDARD.decode(text)
}

/// Decodes URL-safe base64 without padding.
///
/// Trusted: `Engine::decode` of `general_purpose::URL_SAFE_NO_PAD` is a
/// function of the input text; it returns the decoded bytes or a
/// `DecodeError`.
#[verifier::external_body]
pub(crate) fn decode_base64_url(text: &str) -> (r: Result<Vec<u8>, base64::DecodeError>)
    ensures
        match r {
            Ok(v) => base64_url_decoded(text@) == Some(v@),
            Err(_) => base64_url_decoded(text@) is None,
        },
{
    base64::engine::general_purpose::URL_SAFE_NO_PAD.decode(text)
}

/// The lower-case hexadecimal digit of `d`, for `0 <= d < 16`.
pub open spec fn hex_digit(d: int) -> char {
    seq!['0', '1', '2', '3', '4', '5', '6', '7', '8', '9', 'a', 'b', 'c', 'd', 'e', 'f'][d]
}

/// Each byte of `b` as two lower-case hexadecimal digits, high nibble first.
pub open spec fn hex_text(b: Seq<u8>) -> Seq<char>
    decreases b.len(),
{
    if b.len() == 0 {
        Seq::empty()
    } else {
        hex_text(b.drop_last()).push(hex_digit(b.last() as int / 16)).push(hex_digit(b.last() as int % 16))
    }
}

/// Lower-case hexadecimal text of `bytes`.
///
/// Trusted: `hex::encode` writes each byte as two lower-case hexadecimal
/// digits, high nibble first, in input order.
#[verifier::external_body]
pub(crate) fn hex_encode(bytes: &[u8]) -> (r: String)
    ensures
        r@ == hex_text(bytes@),
{
    hex::encode(bytes)
}

/// `s` is the hyphenated lower-case text of a version-4 (random) UUID: 36
/// characters, `-` at indices 8, 13, 18 and 23, lower-case hexadecimal digits
/// elsewhere, the version digit `4` at index 14 and a variant digit `8`, `9`,
/// `a` or `b` at index 19.
pub open spec fn is_v4_uuid_text(s: Seq<char>) -> bool {
    &&& s.len() == 36
    &&& forall|i: int|
        0 <= i < 36 ==> if i == 8 || i == 13 || i == 18 || i == 23 {
            s[i] == '-'
        } else {
            exists|d: int| 0 <= d < 16 && #[trigger] hex_digit(d) == s[i]
        }
    &&& s[14] == '4'
    &&& (s[19] == '8' || s[19] == '9' || s[19] == 'a' || s[19] == 'b')
}

/// The text of a fresh random (version 4) UUID.
///
/// Trusted: `Uuid::new_v4` draws random bits and sets the version nibble to 4
/// and the two variant bits to `10`; its `Display` form is the hyphenated
/// lower-case text. Which UUID comes back is left open. The call
/// panics if the operating system's random source fails.
#[verifier::external_body]
pub(crate) fn new_uuid_text() -> (r: String)
    ensures
        is_v4_uuid_text(r@),
{
    uuid::Uuid::new_v4().to_string()
}

/// Hex text has two digits per byte: a 32-byte coordinate becomes 64
/// characters.
pub proof fn law_hex_text_length(b: Seq<u8>)
    ensures
        hex_text(b).len() == 2 * b.len(),
    decreases b.len(),
{
    if b.len() > 0 {
        law_hex_text_length(b.drop_last());
    }
}

/// The hexadecimal digits are `'0'` to `'9'` and then `'a'` to `'f'`, in order
/// of value.
pub proof fn law_hex_digits(d: int)
    requires
        0 <= d < 16,
    ensures
        d < 10 ==> hex_digit(d) as int == 48 + d,
        d >= 10 ==> hex_digit(d) as int == 87 + d,
{
}

/// Byte `i` of the input becomes characters `2i` (its high nibble) and
/// `2i + 1` (its low nibble) of the hex text.
pub proof fn law_hex_text_digits(b: Seq<u8>, i: int)
    requires
        0 <= i < b.len(),
    ensures
        hex_text(b).len() == 2 * b.len(),
        hex_text(b)[2 * i] == hex_digit(b[i] as int / 16),
        hex_text(b)[2 * i + 1] == hex_digit(b[i] as int % 16),
    decreases b.len(),
{
    law_hex_text_length(b);
    law_hex_text_length(b.drop_last());
    if i < b.len() - 1 {
        law_hex_text_digits(b.drop_last(), i);
    }
}

} // verus!
