//! Calls into the encoding and key-derivation crates: Base64, X25519 and
//! SHA-256.

use vstd::prelude::*;

use base64::Engine as _;
use vstd::string::StringSliceAdditionalSpecFns;

verus! {

/// The bytes that the standard padded Base64 engine decodes from a text, or
/// nothing when it refuses the text.
pub uninterp spec fn base64_standard_decoded(text: Seq<char>) -> Option<Seq<u8>>;

/// The text that the standard padded Base64 engine encodes bytes as.
pub uninterp spec fn base64_standard_encoded(bytes: Seq<u8>) -> Seq<char>;

/// The text that the URL-safe unpadded Base64 engine encodes bytes as.
pub uninterp spec fn base64_url_nopad_encoded(bytes: Seq<u8>) -> Seq<char>;

/// The X25519 public key of a private key.
pub uninterp spec fn x25519_public_key(private: Seq<u8>) -> Seq<u8>;

/// The SHA-256 digest of some bytes.
pub uninterp spec fn sha256_digest(data: Seq<u8>) -> Seq<u8>;

/// Decodes standard Base64 (with padding).
///
/// Trusted: calls `base64::engine::general_purpose::STANDARD.decode`, a
/// function of the text alone; the result is named, not described.
#[verifier::external_body]
pub(crate) fn base64_decode(text: &str) -> (r: Option<Vec<u8>>)
    ensures
        match r {
            Some(v) => base64_standard_decoded(text@) == Some(v@),
            None => base64_standard_decoded(text@) is None,
        },
{
    base64::engine::general_purpose::STANDARD.decode(text).ok()
}

/// A character of the standard Base64 alphabet or its padding.
pub open spec fn is_base64_char(c: char) -> bool {
    ('A' <= c && c <= 'Z') || ('a' <= c && c <= 'z') || ('0' <= c && c <= '9') || c == '+' || c == '/'
        || c == '='
}

/// Encodes bytes as standard Base64 (with padding).
///
/// Trusted: calls `base64::engine::general_purpose::STANDARD.encode`, a
/// function of the bytes alone. Its source (`encoded_len`) shows that the
/// text holds four characters per started group of three bytes; the
/// requirement keeps that length from overflowing, where `encode` panics.
/// The text uses the standard alphabet and canonical padding, which the
/// same engine's `decode` (padding required to be canonical) turns back
/// into the bytes.
#[verifier::external_body]
pub(crate) fn base64_encode(bytes: &[u8]) -> (r: String)
    requires
        bytes@.len() <= 0x1000_0000,
    ensures
        r@ == base64_standard_encoded(bytes@),
        r@.len() == 4 * ((bytes@.len() + 2) / 3),
        forall|i: int| 0 <= i < r@.len() ==> is_base64_char(#[trigger] r@[i]),
        base64_standard_decoded(r@) == Some(bytes@),
{
    base64::engine::general_purpose::STANDARD.encode(bytes)
}

/// Encodes bytes as URL-safe Base64 without padding.
///
/// Trusted: calls `base64::engine::general_purpose::URL_SAFE_NO_PAD.encode`,
/// a function of the bytes alone. Its source (`encoded_len` without padding)
/// shows four characters per full group of three bytes, and two or three
/// for a last group of one or two bytes.
#[verifier::external_body]
pub(crate) fn base64_url_nopad_encode(bytes: &[u8]) -> (r: String)
    requires
        bytes@.len() <= 0x1000_0000,
    ensures
        r@ == base64_url_nopad_encoded(bytes@),
        r@.len() == 4 * (bytes@.len() / 3) + (if bytes@.len() % 3 == 0 {
            0int
        } else if bytes@.len() % 3 == 1 {
            2int
        } else {
            3int
        }),
{
    base64::engine::general_purpose::URL_SAFE_NO_PAD.encode(bytes)
}

/// Derives the X25519 public key of a private key.
///
/// Trusted: calls `x25519_dalek::PublicKey::from(&StaticSecret::from(private))`,
/// a function of the private key alone; the result is named.
#[verifier::external_body]
pub(crate) fn x25519_public(private: [u8; 32]) -> (r: [u8; 32])
    ensures
        r@ == x25519_public_key(private@),
{
    let secret = x25519_dalek::StaticSecret::from(private);
    *x25519_dalek::PublicKey::from(&secret).as_bytes()
}

/// The SHA-256 digest of some bytes.
///
/// Trusted: calls `sha2::Sha256::digest`, a function of the bytes alone;
/// the digest is 32 bytes long.
#[verifier::external_body]
pub(crate) fn sha256(data: &[u8]) -> (r: Vec<u8>)
    ensures
        r@ == sha256_digest(data@),
        r@.len() == 32,
{
    <sha2::Sha256 as sha2::Digest>::digest(data).to_vec()
}

/// The UTF-8 bytes of a string.
pub fn utf8_bytes(s: &str) -> (r: Vec<u8>)
    ensures
        r@ == s.spec_bytes(),
{
    let b = s.as_bytes();
    let mut v: Vec<u8> = Vec::new();
    let mut i: usize = 0;
    while i < b.len()
        invariant
            i <= b.len(),
            b@ == s.spec_bytes(),
            v@ == b@.take(i as int),
        decreases b.len() - i,
    {
        v.push(b[i]);
        i = i + 1;
        assert(v@ =~= b@.take(i as int));
    }
    assert(b@.take(b.len() as int) =~= b@);
    v
}

} // verus!
