//! Message authentication codes and text encodings.

use base64::engine::general_purpose::URL_SAFE_NO_PAD;
use base64::Engine;
use hmac::{Hmac, KeyInit, Mac};
use sha2::Sha256;
use vstd::prelude::*;
use vstd::utf8::{decode_utf8, valid_utf8};

verus! {

/// The HMAC-SHA-256 of a message under a key.
pub uninterp spec fn hmac_sha256_of(key: Seq<u8>, message: Seq<u8>) -> Seq<u8>;

/// The URL-safe base64 text of bytes, without padding.
pub uninterp spec fn base64url_of(bytes: Seq<u8>) -> Seq<char>;

/// The bytes that a URL-safe base64 text without padding stands for, or the words for why it stands
/// for none.
pub uninterp spec fn base64url_bytes_of(text: Seq<char>) -> Result<Seq<u8>, Seq<char>>;

/// The words for why bytes are no UTF-8.
pub uninterp spec fn utf8_error_of(bytes: Seq<u8>) -> Seq<char>;

/// Calls `hmac::Hmac::<sha2::Sha256>`: keyed with `key`, fed with `message`, finished. A key may
/// have any length, so there is always a code; it has 32 bytes.
#[verifier::external_body]
pub(crate) fn hmac_sha256(key: &[u8], message: &[u8]) -> (r: Result<Vec<u8>, String>)
    ensures
        match r {
            Ok(code) => code@ == hmac_sha256_of(key@, message@) && code@.len() == 32,
            Err(_) => false,
        },
{
    let mut mac = Hmac::<Sha256>::new_from_slice(key).map_err(|error| error.to_string())?;
    mac.update(message);
    Ok(mac.finalize().into_bytes().to_vec())
}

/// Calls `base64::Engine::encode` of `URL_SAFE_NO_PAD`, for input whose text has a length that
/// memory can hold. Decoding the text gives the bytes back.
#[verifier::external_body]
pub(crate) fn base64url(bytes: &[u8]) -> (r: String)
    requires
        bytes@.len() <= 0x1000_0000,
    ensures
        r@ == base64url_of(bytes@),
        match base64url_bytes_of(r@) {
            Ok(decoded) => decoded == bytes@,
            Err(_) => false,
        },
{
    URL_SAFE_NO_PAD.encode(bytes)
}

/// Calls `base64::Engine::decode` of `URL_SAFE_NO_PAD` on the UTF-8 bytes of a text, and
/// `to_string` on its error. The result depends on the text alone.
#[verifier::external_body]
pub(crate) fn base64url_bytes(text: &str) -> (r: Result<Vec<u8>, String>)
    ensures
        match base64url_bytes_of(text@) {
            Ok(bytes) => r matches Ok(decoded) && decoded@ == bytes,
            Err(words) => r matches Err(error) && error@ == words,
        },
{
    URL_SAFE_NO_PAD.decode(text.as_bytes()).map_err(|error| error.to_string())
}

/// Calls `std::str::from_utf8`, and `to_string` on its error: the text that UTF-8 bytes stand for.
#[verifier::external_body]
pub(crate) fn utf8_text(bytes: &[u8]) -> (r: Result<String, String>)
    ensures
        match r {
            Ok(text) => valid_utf8(bytes@) && text@ == decode_utf8(bytes@),
            Err(error) => !valid_utf8(bytes@) && error@ == utf8_error_of(bytes@),
        },
{
    std::str::from_utf8(bytes).map(|text| text.to_owned()).map_err(|error| error.to_string())
}

}
