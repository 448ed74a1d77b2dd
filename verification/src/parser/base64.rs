//! Base64 text in subscriptions.
use vstd::prelude::*;
use vstd::utf8::{decode_utf8, valid_utf8};

use base64::Engine as Base64Engine;

verus! {

/// The four Base64 variants that subscriptions use.
#[derive(Debug, Clone, Copy, PartialEq, Eq, Structural)]
pub enum Base64Alphabet {
    Standard,
    StandardNoPad,
    UrlSafe,
    UrlSafeNoPad,
}

/// The bytes that the `base64` crate's general-purpose engine of this alphabet decodes
/// from the text, or `None` when it rejects the text.
pub uninterp spec fn base64_decoded(alphabet: Base64Alphabet, input: Seq<char>) -> Option<Seq<u8>>;

/// `base64::engine::general_purpose::STANDARD.decode`.
#[verifier::external_body]
pub(crate) fn decode_standard(raw: &str) -> (r: Option<Vec<u8>>)
    ensures
        match r {
            Some(v) => base64_decoded(Base64Alphabet::Standard, raw@) == Some(v@),
            None => base64_decoded(Base64Alphabet::Standard, raw@) is None,
        },
{
    base64::engine::general_purpose::STANDARD.decode(raw).ok()
}

/// `base64::engine::general_purpose::STANDARD_NO_PAD.decode`.
#[verifier::external_body]
fn decode_standard_no_pad(raw: &str) -> (r: Option<Vec<u8>>)
    ensures
        match r {
            Some(v) => base64_decoded(Base64Alphabet::StandardNoPad, raw@) == Some(v@),
            None => base64_decoded(Base64Alphabet::StandardNoPad, raw@) is None,
        },
{
    base64::engine::general_purpose::STANDARD_NO_PAD.decode(raw).ok()
}

/// `base64::engine::general_purpose::URL_SAFE.decode`.
#[verifier::external_body]
fn decode_url_safe(raw: &str) -> (r: Option<Vec<u8>>)
    ensures
        match r {
            Some(v) => base64_decoded(Base64Alphabet::UrlSafe, raw@) == Some(v@),
            None => base64_decoded(Base64Alphabet::UrlSafe, raw@) is None,
        },
{
    base64::engine::general_purpose::URL_SAFE.decode(raw).ok()
}

/// `base64::engine::general_purpose::URL_SAFE_NO_PAD.decode`.
#[verifier::external_body]
fn decode_url_safe_no_pad(raw: &str) -> (r: Option<Vec<u8>>)
    ensures
        match r {
            Some(v) => base64_decoded(Base64Alphabet::UrlSafeNoPad, raw@) == Some(v@),
            None => base64_decoded(Base64Alphabet::UrlSafeNoPad, raw@) is None,
        },
{
    base64::engine::general_purpose::URL_SAFE_NO_PAD.decode(raw).ok()
}

/// `String::from_utf8`: text when the bytes are valid UTF-8.
#[verifier::external_body]
pub(crate) fn utf8_string(bytes: Vec<u8>) -> (r: Option<String>)
    ensures
        r is Some <==> valid_utf8(bytes@),
        r matches Some(s) ==> s@ == decode_utf8(bytes@),
{
    String::from_utf8(bytes).ok()
}

/// The text that Base64 of one alphabet decodes to, when the bytes are UTF-8.
pub open spec fn decoded_text(alphabet: Base64Alphabet, raw: Seq<char>) -> Option<Seq<char>> {
    match base64_decoded(alphabet, raw) {
        Some(b) => if valid_utf8(b) {
            Some(decode_utf8(b))
        } else {
            None
        },
        None => None,
    }
}

/// The text that Base64 decodes to, trying the standard, standard unpadded, URL-safe and
/// URL-safe unpadded alphabets in turn.
pub open spec fn base64_text(raw: Seq<char>) -> Option<Seq<char>> {
    if decoded_text(Base64Alphabet::Standard, raw) is Some {
        decoded_text(Base64Alphabet::Standard, raw)
    } else if decoded_text(Base64Alphabet::StandardNoPad, raw) is Some {
        decoded_text(Base64Alphabet::StandardNoPad, raw)
    } else if decoded_text(Base64Alphabet::UrlSafe, raw) is Some {
        decoded_text(Base64Alphabet::UrlSafe, raw)
    } else {
        decoded_text(Base64Alphabet::UrlSafeNoPad, raw)
    }
}

fn decode_with(alphabet: Base64Alphabet, raw: &str) -> (r: Option<Vec<char>>)
    ensures
        match r {
            Some(v) => decoded_text(alphabet, raw@) == Some(v@),
            None => decoded_text(alphabet, raw@) is None,
        },
{
    let bytes = match alphabet {
        Base64Alphabet::Standard => decode_standard(raw),
        Base64Alphabet::StandardNoPad => decode_standard_no_pad(raw),
        Base64Alphabet::UrlSafe => decode_url_safe(raw),
        Base64Alphabet::UrlSafeNoPad => decode_url_safe_no_pad(raw),
    };
    match bytes {
        Some(b) => match utf8_string(b) {
            Some(s) => Some(crate::text::chars_of(s.as_str())),
            None => None,
        },
        None => None,
    }
}

/// Decodes Base64 text into text, trying the usual alphabets in turn.
pub fn try_decode_base64_text(raw: &str) -> (r: Option<Vec<char>>)
    ensures
        match r {
            Some(v) => base64_text(raw@) == Some(v@),
            None => base64_text(raw@) is None,
        },
{
    match decode_with(Base64Alphabet::Standard, raw) {
        Some(v) => {
            return Some(v);
        },
        None => {},
    }
    match decode_with(Base64Alphabet::StandardNoPad, raw) {
        Some(v) => {
            return Some(v);
        },
        None => {},
    }
    match decode_with(Base64Alphabet::UrlSafe, raw) {
        Some(v) => {
            return Some(v);
        },
        None => {},
    }
    decode_with(Base64Alphabet::UrlSafeNoPad, raw)
}

/// Decodes Base64 text given as characters.
pub fn decode_base64_chars(raw: &[char]) -> (r: Option<Vec<char>>)
    ensures
        match r {
            Some(v) => base64_text(raw@) == Some(v@),
            None => base64_text(raw@) is None,
        },
{
    let s = crate::text::string_from(raw);
    try_decode_base64_text(s.as_str())
}

} // verus!
