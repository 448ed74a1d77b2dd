//! The random token that a profile's subscription export URL carries.
use vstd::prelude::*;

use base64::Engine as Base64Engine;

use crate::error::{CoreError, ErrorKind};

verus! {

/// How many random bytes an export token is made of.
pub const EXPORT_TOKEN_BYTES: usize = 32;

/// The text that `base64::engine::general_purpose::URL_SAFE_NO_PAD.encode` makes of the
/// bytes.
pub uninterp spec fn base64_url_text(bytes: Seq<u8>) -> Seq<char>;

/// Encodes bytes with the URL-safe Base64 alphabet without padding
/// (`URL_SAFE_NO_PAD.encode`). The text is named by [`base64_url_text`].
#[verifier::external_body]
fn encode_url_safe_no_pad(bytes: &[u8]) -> (r: String)
    ensures
        r@ == base64_url_text(bytes@),
{
    base64::engine::general_purpose::URL_SAFE_NO_PAD.encode(bytes)
}

/// `len` bytes from the operating system's random source (`getrandom::fill`), or the
/// text of its error. Nothing is stated of the bytes but their number.
#[verifier::external_body]
fn random_bytes(len: usize) -> (r: Result<Vec<u8>, String>)
    ensures
        r matches Ok(b) ==> b@.len() == len,
{
    let mut bytes = vec![0u8; len];
    match getrandom::fill(&mut bytes) {
        Ok(()) => Ok(bytes),
        Err(error) => Err(error.to_string()),
    }
}

/// A new export token: 32 random bytes in URL-safe Base64 without padding; when the
/// random source fails, a `Random` error with its text.
pub fn generate_export_token() -> (r: Result<String, CoreError>)
    ensures
        match r {
            Ok(t) => exists|b: Seq<u8>| b.len() == EXPORT_TOKEN_BYTES && t@ == base64_url_text(b),
            Err(e) => e@.0 == ErrorKind::Random,
        },
{
    match random_bytes(EXPORT_TOKEN_BYTES) {
        Ok(bytes) => {
            let token = encode_url_safe_no_pad(bytes.as_slice());
            assert(bytes@.len() == EXPORT_TOKEN_BYTES && token@ == base64_url_text(bytes@));
            Ok(token)
        },
        Err(text) => Err(CoreError::Random(text)),
    }
}

} // verus!
