//! Keyed-hash authentication of raw webhook bodies: a request is accepted only
//! when its signature header is `"sha256="` followed by the base64 encoding of
//! the HMAC-SHA-256 digest of the exact bytes received, under the channel
//! secret. The digest and the base64 codec come from outside crates behind
//! named results; everything around them is verified.

use vstd::prelude::*;
use vstd::string::StringSliceAdditionalSpecFns;

use crate::text::spec_has_prefix;
use crate::text::str_has_prefix;

verus! {

/// What HMAC-SHA-256 returns for a key and a message: a function of the two
/// byte strings alone.
pub uninterp spec fn hmac_sha256_of(key: Seq<u8>, msg: Seq<u8>) -> Seq<u8>;

/// What standard base64 encoding returns for a byte string.
pub uninterp spec fn base64_encode_of(bytes: Seq<u8>) -> Seq<char>;

/// What standard base64 decoding returns for a character string: the decoded
/// bytes, or nothing when the input is not a valid encoding.
pub uninterp spec fn base64_decode_of(text: Seq<char>) -> Option<Seq<u8>>;

/// Relies on `hmac::Hmac<sha2::Sha256>`: the digest is 32 bytes and depends on
/// the key and message bytes alone. `new_from_slice` accepts keys of any
/// length for HMAC.
#[verifier::external_body]
fn hmac_sha256(key: &[u8], msg: &[u8]) -> (r: Vec<u8>)
    ensures
        r@ == hmac_sha256_of(key@, msg@),
        r@.len() == 32,
{
    match <hmac::Hmac<sha2::Sha256> as hmac::Mac>::new_from_slice(key) {
        Ok(mut mac) => {
            hmac::Mac::update(&mut mac, msg);
            hmac::Mac::finalize(mac).into_bytes().to_vec()
        },
        Err(_) => Vec::new(),
    }
}

/// Relies on `hmac::Mac::verify_slice`: a constant-time check that succeeds
/// exactly when the tag equals the HMAC-SHA-256 digest of the message.
#[verifier::external_body]
fn hmac_sha256_check(key: &[u8], msg: &[u8], tag: &[u8]) -> (r: bool)
    ensures
        r == (tag@ == hmac_sha256_of(key@, msg@)),
{
    match <hmac::Hmac<sha2::Sha256> as hmac::Mac>::new_from_slice(key) {
        Ok(mut mac) => {
            hmac::Mac::update(&mut mac, msg);
            hmac::Mac::verify_slice(mac, tag).is_ok()
        },
        Err(_) => false,
    }
}

/// Relies on `base64::Engine::decode` with the standard alphabet: decoding is
/// a function of the characters alone, and fails exactly on invalid encodings.
#[verifier::external_body]
fn base64_decode(text: &str) -> (r: Option<Vec<u8>>)
    ensures
        match r {
            Some(v) => base64_decode_of(text@) == Some(v@),
            None => base64_decode_of(text@) is None,
        },
{
    base64::Engine::decode(&base64::engine::general_purpose::STANDARD, text).ok()
}

/// Relies on `base64::Engine::encode` with the standard alphabet: encoding is
/// a function of the bytes alone, and decoding an encoding gives back exactly
/// the bytes that were encoded.
#[verifier::external_body]
fn base64_encode(bytes: &[u8]) -> (r: String)
    ensures
        r@ == base64_encode_of(bytes@),
        base64_decode_of(r@) == Some(bytes@),
{
    base64::Engine::encode(&base64::engine::general_purpose::STANDARD, bytes)
}

/// The header value authenticates `body` under `key`: it starts with
/// `"sha256="`, and the rest base64-decodes to the body's HMAC-SHA-256 digest.
pub open spec fn spec_signature_valid(key: Seq<u8>, body: Seq<u8>, header: Seq<char>) -> bool {
    &&& spec_has_prefix(header, "sha256="@)
    &&& match base64_decode_of(header.skip("sha256="@.len() as int)) {
        Some(d) => d == hmac_sha256_of(key, body),
        None => false,
    }
}

/// Whether `signature` authenticates `body` under `channel_secret`. Must be
/// called on the raw bytes as received, before any decoding.
pub fn verify_signature(channel_secret: &str, body: &[u8], signature: &str) -> (r: bool)
    ensures
        r == spec_signature_valid(channel_secret.spec_bytes(), body@, signature@),
{
    proof {
        reveal_strlit("sha256=");
    }
    if !str_has_prefix(signature, "sha256=") {
        return false;
    }
    let n: usize = signature.unicode_len();
    let encoded: &str = signature.substring_char(7, n);
    proof {
        assert(encoded@ =~= signature@.skip("sha256="@.len() as int));
    }
    match base64_decode(encoded) {
        Some(decoded) => hmac_sha256_check(channel_secret.as_bytes(), body, decoded.as_slice()),
        None => false,
    }
}

/// The header value that `sign` produces for a body.
pub open spec fn spec_signed_header(key: Seq<u8>, body: Seq<u8>) -> Seq<char> {
    "sha256="@ + base64_encode_of(hmac_sha256_of(key, body))
}

/// Produce a signature header value for `body` under `channel_secret`. The
/// result always passes `verify_signature` for the same secret and body.
pub fn sign(channel_secret: &str, body: &[u8]) -> (r: String)
    ensures
        r@ == spec_signed_header(channel_secret.spec_bytes(), body@),
        spec_signature_valid(channel_secret.spec_bytes(), body@, r@),
{
    let digest: Vec<u8> = hmac_sha256(channel_secret.as_bytes(), body);
    let encoded: String = base64_encode(digest.as_slice());
    let mut r: String = String::from_str("sha256=");
    r.append(encoded.as_str());
    proof {
        reveal_strlit("sha256=");
        assert(r@.subrange(0, "sha256="@.len() as int) =~= "sha256="@);
        assert(r@.skip("sha256="@.len() as int) =~= base64_encode_of(
            hmac_sha256_of(channel_secret.spec_bytes(), body@),
        ));
    }
    r
}

} // verus!
