//! Base64 texts, message authentication codes and digests, as the outside crates
//! compute them.

use vstd::prelude::*;

use base64::engine::general_purpose::URL_SAFE_NO_PAD;
use base64::{DecodeError, Engine};
use hmac::{Hmac, Mac};
use sha2::{Digest, Sha256};

use crate::text::shown;

verus! {

/// The outside type `base64::DecodeError`.
#[verifier::external_type_specification]
#[verifier::external_body]
pub struct ExDecodeError(DecodeError);

/// The base64 text of `bytes`, in the URL-safe alphabet without padding.
pub uninterp spec fn base64_text(bytes: Seq<u8>) -> Seq<char>;

/// The bytes that a base64 text stands for, in the URL-safe alphabet without
/// padding; or the message of the error.
pub uninterp spec fn base64_bytes(text: Seq<char>) -> Result<Seq<u8>, Seq<char>>;

/// The message of a decoding error.
pub uninterp spec fn decode_message(error: DecodeError) -> Seq<char>;

/// The HMAC-SHA256 code of `message` under `secret`.
pub uninterp spec fn hmac_of(secret: Seq<u8>, message: Seq<u8>) -> Seq<u8>;

/// The SHA-256 digest of `bytes`, in hexadecimal.
pub uninterp spec fn sha256_text(bytes: Seq<u8>) -> Seq<char>;

/// Whether a base64 text stands for `bytes`.
pub open spec fn stands_for(text: Seq<char>, bytes: Seq<u8>) -> bool {
    base64_bytes(text) == Ok::<Seq<u8>, Seq<char>>(bytes)
}

/// Whether a character is a lower-case hexadecimal digit.
pub open spec fn is_hex_digit(c: char) -> bool {
    '0' <= c <= '9' || 'a' <= c <= 'f'
}

/// Whether `text` is a digest in hexadecimal: 64 lower-case digits.
pub open spec fn is_digest(text: Seq<char>) -> bool {
    text.len() == 64 && forall|i: int| 0 <= i < text.len() ==> is_hex_digit(#[trigger] text[i])
}

/// `Engine::encode` of `URL_SAFE_NO_PAD`: decoding the text gives the bytes back,
/// and no character of the alphabet is a full stop.
#[verifier::external_body]
pub(crate) fn base64_encode(bytes: &[u8]) -> (text: String)
    ensures
        text@ == base64_text(bytes@),
        stands_for(text@, bytes@),
        !text@.contains('.'),
{
    URL_SAFE_NO_PAD.encode(bytes)
}

/// `Engine::decode` of `URL_SAFE_NO_PAD`.
#[verifier::external_body]
fn decode(text: &str) -> (result: Result<Vec<u8>, DecodeError>)
    ensures
        match result {
            Ok(bytes) => base64_bytes(text@) == Ok::<Seq<u8>, Seq<char>>(bytes@),
            Err(error) => base64_bytes(text@) == Err::<Seq<u8>, Seq<char>>(decode_message(error)),
        },
{
    URL_SAFE_NO_PAD.decode(text)
}

/// The `Display` text of a `DecodeError`.
#[verifier::external_body]
fn decode_error_text(error: &DecodeError) -> (text: String)
    ensures
        text@ == decode_message(*error),
{
    error.to_string()
}

/// `Hmac::<Sha256>::new_from_slice`, `update` and `finalize`: the code of a
/// message. A key of any length is taken.
#[verifier::external_body]
pub(crate) fn hmac_sign(secret: &[u8], message: &[u8]) -> (result: Result<
    Vec<u8>,
    hmac::digest::InvalidLength,
>)
    ensures
        result is Ok,
        result->Ok_0@ == hmac_of(secret@, message@),
{
    let mut mac = Hmac::<Sha256>::new_from_slice(secret)?;
    mac.update(message);
    Ok(mac.finalize().into_bytes().to_vec())
}

/// `Hmac::<Sha256>::new_from_slice`, `update` and `verify_slice`: whether `code`
/// is the code of a message. A key of any length is taken.
#[verifier::external_body]
pub(crate) fn hmac_verify(secret: &[u8], message: &[u8], code: &[u8]) -> (result: Result<
    bool,
    hmac::digest::InvalidLength,
>)
    ensures
        result is Ok,
        result->Ok_0 == (code@ == hmac_of(secret@, message@)),
{
    let mut mac = Hmac::<Sha256>::new_from_slice(secret)?;
    mac.update(message);
    Ok(mac.verify_slice(code).is_ok())
}

/// The outside type `hmac::digest::InvalidLength`.
#[verifier::external_type_specification]
#[verifier::external_body]
pub struct ExInvalidLength(hmac::digest::InvalidLength);

/// `Sha256::digest`, in hexadecimal: two lower-case digits for each of 32 bytes.
#[verifier::external_body]
pub(crate) fn sha256_hex(bytes: &[u8]) -> (text: String)
    ensures
        text@ == sha256_text(bytes@),
        is_digest(text@),
{
    format!("{:x}", Sha256::digest(bytes))
}

/// The bytes that a base64 text stands for.
pub fn base64_decode(text: &str) -> (result: Result<Vec<u8>, String>)
    ensures
        shown(result) == base64_bytes(text@),
{
    match decode(text) {
        Ok(bytes) => Ok(bytes),
        Err(error) => Err(decode_error_text(&error)),
    }
}

/// A digest is written with 64 of the sixteen hexadecimal digits, in lower case, and
/// every text of such digits can be one.
pub proof fn law_digest_is_hexadecimal(text: Seq<char>)
    ensures
        is_digest(text) <==> text.len() == 64 && forall|i: int|
            0 <= i < 64 ==> "0123456789abcdef"@.contains(#[trigger] text[i]),
{
    reveal_strlit("0123456789abcdef");
    let digits = "0123456789abcdef"@;
    assert forall|c: char| is_hex_digit(c) <==> #[trigger] digits.contains(c) by {
        if '0' <= c <= '9' {
            let n = (c as u32 - '0' as u32) as int;
            assert(digits[n] == c);
        } else if 'a' <= c <= 'f' {
            let n = (c as u32 - 'a' as u32) as int + 10;
            assert(digits[n] == c);
        }
    }
    if text.len() == 64 && forall|i: int|
        0 <= i < 64 ==> digits.contains(#[trigger] text[i]) {
        assert forall|i: int| 0 <= i < text.len() implies is_hex_digit(#[trigger] text[i]) by {
            assert(digits.contains(text[i]));
        }
    }
}

} // verus!
