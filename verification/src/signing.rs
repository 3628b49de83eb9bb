//! Signing a request payload: HMAC-SHA256 under the API secret, written in
//! hexadecimal. The hashing is the hmac and sha2 crates', the writing is the
//! hex crate's.

use hmac::Mac;
use vstd::prelude::*;
use vstd::string::*;

verus! {

/// The HMAC-SHA256 tag of `message` under `key`.
pub uninterp spec fn hmac_sha256_tag(key: Seq<u8>, message: Seq<u8>) -> Seq<u8>;

/// The lower-case hexadecimal digit of a number below sixteen.
pub open spec fn hex_digit(nibble: int) -> char {
    if nibble == 0 {
        '0'
    } else if nibble == 1 {
        '1'
    } else if nibble == 2 {
        '2'
    } else if nibble == 3 {
        '3'
    } else if nibble == 4 {
        '4'
    } else if nibble == 5 {
        '5'
    } else if nibble == 6 {
        '6'
    } else if nibble == 7 {
        '7'
    } else if nibble == 8 {
        '8'
    } else if nibble == 9 {
        '9'
    } else if nibble == 10 {
        'a'
    } else if nibble == 11 {
        'b'
    } else if nibble == 12 {
        'c'
    } else if nibble == 13 {
        'd'
    } else if nibble == 14 {
        'e'
    } else {
        'f'
    }
}

/// Bytes written in lower-case hexadecimal, two digits each, the high half
/// first.
pub open spec fn hex_text(bytes: Seq<u8>) -> Seq<char> {
    Seq::new(
        2 * bytes.len(),
        |i: int|
            if i % 2 == 0 {
                hex_digit(bytes[i / 2] as int / 16)
            } else {
                hex_digit(bytes[i / 2] as int % 16)
            },
    )
}

/// The signature of `payload` under `secret`: the tag of the payload's
/// UTF-8 bytes under the secret's, in hexadecimal.
pub open spec fn signature_text(secret: Seq<char>, payload: Seq<char>) -> Seq<char> {
    hex_text(hmac_sha256_tag(vstd::utf8::encode_utf8(secret), vstd::utf8::encode_utf8(payload)))
}

/// Why a payload could not be signed.
#[derive(Debug, Clone, Copy, PartialEq, Eq, Structural)]
pub enum SigningError {
    /// The hashing refused the key.
    KeyRefused,
}

/// `Hmac::<Sha256>::new_from_slice`, `Mac::update` and `Mac::finalize` of
/// the hmac crate over sha2's SHA-256: the tag of `message` under `key`, a
/// function of the two alone. HMAC takes a key of any length (a long one is
/// hashed, a short one padded), so the key is never refused and there
/// always is a tag.
#[verifier::external_body]
pub(crate) fn hmac_sha256(key: &[u8], message: &[u8]) -> (tag: Option<Vec<u8>>)
    ensures
        tag is Some,
        tag matches Some(bytes) ==> bytes@ == hmac_sha256_tag(key@, message@),
{
    let mut mac = hmac::Hmac::<sha2::Sha256>::new_from_slice(key).ok()?;
    mac.update(message);
    Some(mac.finalize().into_bytes().to_vec())
}

/// `hex::encode`: each byte as two lower-case hexadecimal digits.
#[verifier::external_body]
pub(crate) fn hex_encode(bytes: &[u8]) -> (text: String)
    ensures
        text@ == hex_text(bytes@),
{
    hex::encode(bytes)
}

/// Writes a tag as a signature; a tag that could not be computed is an
/// error.
pub fn signature_of_tag(tag: Option<Vec<u8>>) -> (signature: Result<String, SigningError>)
    ensures
        match tag {
            Some(bytes) => signature matches Ok(text) && text@ == hex_text(bytes@),
            None => signature == Err::<String, SigningError>(SigningError::KeyRefused),
        },
{
    match tag {
        Some(bytes) => Ok(hex_encode(bytes.as_slice())),
        None => Err(SigningError::KeyRefused),
    }
}

/// Signs `payload` under `secret`. Every secret signs, the empty one too:
/// the result is always the signature.
pub fn sign(secret: &str, payload: &str) -> (signature: Result<String, SigningError>)
    ensures
        signature matches Ok(text) && text@ == signature_text(secret@, payload@),
{
    signature_of_tag(hmac_sha256(secret.as_bytes(), payload.as_bytes()))
}

} // verus!
