//! The admission check of the node agent: which signing key a token names,
//! the token's verification, and whether its user may open one more
//! session.

use vstd::prelude::*;

use jsonwebtoken::Algorithm;

use crate::node::{admission_key_names, admission_keys, admits, admission_allowed, key_id_texts, key_position, lemma_key_position_bounds, opt_text, select_signing_key};
use crate::text::owned;

verus! {

/// The signing algorithms of JSON Web Tokens.
#[derive(Debug, Clone, Copy, PartialEq, Eq, Structural)]
pub enum JwtAlg {
    HS256,
    HS384,
    HS512,
    ES256,
    ES384,
    RS256,
    RS384,
    RS512,
    PS256,
    PS384,
    PS512,
    EdDSA,
}

/// A token's header: the id of the key that signed it, and the algorithm.
#[derive(Debug, Clone)]
pub struct TokenHeader {
    pub kid: Option<String>,
    pub alg: JwtAlg,
}

/// A public key of the key set, by its parts (Base64url text each).
#[derive(Debug, Clone)]
pub enum JwkParts {
    Rsa { n: String, e: String },
    Ec { x: String, y: String },
    /// A key of another family, which cannot check a token here.
    Unsupported,
}

/// What an accepted token says: the user, the device and the session.
#[derive(Debug, Clone)]
pub struct AdmissionClaims {
    pub sub: String,
    pub did: String,
    pub jti: String,
}

/// Why a request for a session is refused.
#[derive(Debug, Clone, Copy, PartialEq, Eq, Structural)]
pub enum AdmitRefusal {
    /// The token could not be checked, or failed its check.
    Unauthorized,
    /// The user has as many live sessions as allowed.
    TooManyRequests,
}

/// What admitting a session adds: the session id, to the user's and to
/// the device's session sets.
#[derive(Debug, Clone)]
pub struct AdmitPlan {
    pub user_key: String,
    pub device_key: String,
    pub session_id: String,
}

/// Declares `jsonwebtoken::DecodingKey`, a key that checks signatures.
#[verifier::external_type_specification]
#[verifier::external_body]
pub struct ExDecodingKey(jsonwebtoken::DecodingKey);

/// The key id and algorithm that `jsonwebtoken::decode_header` reads from
/// a token, or none where it cannot read a header.
pub uninterp spec fn jwt_header_of(token: Seq<char>) -> Option<(Option<Seq<char>>, JwtAlg)>;

/// Whether `DecodingKey::from_rsa_components` accepts a modulus and an
/// exponent.
pub uninterp spec fn rsa_key_accepted(n: Seq<char>, e: Seq<char>) -> bool;

/// Whether `DecodingKey::from_ec_components` accepts two coordinates.
pub uninterp spec fn ec_key_accepted(x: Seq<char>, y: Seq<char>) -> bool;

/// The key id's text and the algorithm of a header.
pub open spec fn header_view(h: TokenHeader) -> (Option<Seq<char>>, JwtAlg) {
    (opt_text(h.kid), h.alg)
}

/// Reads a token's header without checking anything else.
///
/// Trusted: calls `jsonwebtoken::decode_header`, which reads the token's
/// first part alone; its answer is named (`jwt_header_of`), and the
/// algorithm is carried over variant by variant.
#[verifier::external_body]
fn decode_token_header(token: &str) -> (r: Option<TokenHeader>)
    ensures
        match r {
            Some(h) => jwt_header_of(token@) == Some(header_view(h)),
            None => jwt_header_of(token@) is None,
        },
{
    let h = jsonwebtoken::decode_header(token).ok()?;
    let alg = match h.alg {
        Algorithm::HS256 => JwtAlg::HS256, Algorithm::HS384 => JwtAlg::HS384, Algorithm::HS512 => JwtAlg::HS512,
        Algorithm::ES256 => JwtAlg::ES256, Algorithm::ES384 => JwtAlg::ES384, Algorithm::RS256 => JwtAlg::RS256,
        Algorithm::RS384 => JwtAlg::RS384, Algorithm::RS512 => JwtAlg::RS512, Algorithm::PS256 => JwtAlg::PS256,
        Algorithm::PS384 => JwtAlg::PS384, Algorithm::PS512 => JwtAlg::PS512, Algorithm::EdDSA => JwtAlg::EdDSA,
    };
    Some(TokenHeader { kid: h.kid, alg })
}

/// An RSA key from its modulus and exponent.
///
/// Trusted: calls `DecodingKey::from_rsa_components`, which only decodes
/// the two texts; whether it accepts them is named (`rsa_key_accepted`).
/// The key itself is opaque.
#[verifier::external_body]
fn rsa_decoding_key(n: &str, e: &str) -> (r: Option<jsonwebtoken::DecodingKey>)
    ensures
        r is Some <==> rsa_key_accepted(n@, e@),
{
    jsonwebtoken::DecodingKey::from_rsa_components(n, e).ok()
}

/// An elliptic-curve key from its coordinates.
///
/// Trusted: calls `DecodingKey::from_ec_components`, which only decodes
/// the two texts; whether it accepts them is named (`ec_key_accepted`).
/// The key itself is opaque.
#[verifier::external_body]
fn ec_decoding_key(x: &str, y: &str) -> (r: Option<jsonwebtoken::DecodingKey>)
    ensures
        r is Some <==> ec_key_accepted(x@, y@),
{
    jsonwebtoken::DecodingKey::from_ec_components(x, y).ok()
}

/// Checks a token's signature with `key` under the algorithm named `alg`,
/// its expiry (it must carry `exp`), and that no audience or issuer is
/// asked for; then reads its `sub`, `did` and `jti` claims.
///
/// Trusted: calls `jsonwebtoken::decode` with `Validation::new`. Nothing
/// is stated of the answer: the expiry check reads the clock. A claim that
/// is missing or not a string gives none.
#[verifier::external_body]
fn verify_token(token: &str, key: &jsonwebtoken::DecodingKey, alg: &str) -> Option<AdmissionClaims> {
    let alg: Algorithm = alg.parse().ok()?;
    let mut validation = jsonwebtoken::Validation::new(alg);
    validation.set_audience::<&str>(&[]);
    validation.set_issuer::<&str>(&[]);
    let claims = jsonwebtoken::decode::<serde_json::Value>(token, key, &validation).ok()?.claims;
    Some(AdmissionClaims {
        sub: claims["sub"].as_str()?.to_string(),
        did: claims["did"].as_str()?.to_string(),
        jti: claims["jti"].as_str()?.to_string(),
    })
}

/// The name of an algorithm, as tokens write it.
pub open spec fn jwt_alg_text(a: JwtAlg) -> Seq<char> {
    match a {
        JwtAlg::HS256 => "HS256"@,
        JwtAlg::HS384 => "HS384"@,
        JwtAlg::HS512 => "HS512"@,
        JwtAlg::ES256 => "ES256"@,
        JwtAlg::ES384 => "ES384"@,
        JwtAlg::RS256 => "RS256"@,
        JwtAlg::RS384 => "RS384"@,
        JwtAlg::RS512 => "RS512"@,
        JwtAlg::PS256 => "PS256"@,
        JwtAlg::PS384 => "PS384"@,
        JwtAlg::PS512 => "PS512"@,
        JwtAlg::EdDSA => "EdDSA"@,
    }
}

/// The name of an algorithm.
pub fn jwt_alg_name(a: JwtAlg) -> (r: &'static str)
    ensures
        r@ == jwt_alg_text(a),
{
    match a {
        JwtAlg::HS256 => "HS256",
        JwtAlg::HS384 => "HS384",
        JwtAlg::HS512 => "HS512",
        JwtAlg::ES256 => "ES256",
        JwtAlg::ES384 => "ES384",
        JwtAlg::RS256 => "RS256",
        JwtAlg::RS384 => "RS384",
        JwtAlg::RS512 => "RS512",
        JwtAlg::PS256 => "PS256",
        JwtAlg::PS384 => "PS384",
        JwtAlg::PS512 => "PS512",
        JwtAlg::EdDSA => "EdDSA",
    }
}

/// The position of the key that a token names: its header must be
/// readable and carry a key id, and a key with that id must be there
/// (the first one, among the `n_keys` keys).
pub open spec fn named_key(token: Seq<char>, key_ids: Seq<Option<Seq<char>>>, n_keys: int) -> Option<int> {
    match jwt_header_of(token) {
        None => None,
        Some(h) => match h.0 {
            None => None,
            Some(kid) => match key_position(key_ids, kid) {
                None => None,
                Some(i) => if i < n_keys {
                    Some(i)
                } else {
                    None
                },
            },
        },
    }
}

/// Whether a key's parts make a key that can check a signature.
pub open spec fn key_accepted(p: JwkParts) -> bool {
    match p {
        JwkParts::Rsa { n, e } => rsa_key_accepted(n@, e@),
        JwkParts::Ec { x, y } => ec_key_accepted(x@, y@),
        JwkParts::Unsupported => false,
    }
}

/// Checks an admission token against the key set (`keys[i]` has the id
/// `key_ids[i]`). Unauthorized when the header cannot be read, has no key
/// id, or names no key; or when that key cannot be built from its parts.
/// Otherwise the key checks the token under the header's algorithm: the
/// claims where it passes, Unauthorized where it fails.
pub fn check_admission_token(token: &str, keys: &Vec<JwkParts>, key_ids: &Vec<Option<String>>) -> (r: Result<
    AdmissionClaims,
    AdmitRefusal,
>)
    ensures
        match named_key(token@, key_id_texts(key_ids@), keys@.len() as int) {
            None => r == Err::<AdmissionClaims, AdmitRefusal>(AdmitRefusal::Unauthorized),
            Some(i) => !key_accepted(keys@[i]) ==> r == Err::<AdmissionClaims, AdmitRefusal>(
                AdmitRefusal::Unauthorized,
            ),
        },
        r matches Err(e) ==> e == AdmitRefusal::Unauthorized,
{
    let header = match decode_token_header(token) {
        Some(h) => h,
        None => return Err(AdmitRefusal::Unauthorized),
    };
    let kid = match &header.kid {
        Some(k) => k,
        None => return Err(AdmitRefusal::Unauthorized),
    };
    let found = select_signing_key(key_ids, kid.as_str());
    proof {
        // The position that the search reports is the spec position itself.
        lemma_key_position_bounds(key_id_texts(key_ids@), kid@);
        assert(key_ids@.len() == key_ids.len());
        assert(opt_text(header.kid) == Some(kid@));
    }
    let i = match found {
        Some(i) => i,
        None => return Err(AdmitRefusal::Unauthorized),
    };
    if i >= keys.len() {
        return Err(AdmitRefusal::Unauthorized);
    }
    let key = match &keys[i] {
        JwkParts::Rsa { n, e } => rsa_decoding_key(n.as_str(), e.as_str()),
        JwkParts::Ec { x, y } => ec_decoding_key(x.as_str(), y.as_str()),
        JwkParts::Unsupported => None,
    };
    let key = match key {
        Some(k) => k,
        None => return Err(AdmitRefusal::Unauthorized),
    };
    match verify_token(token, &key, jwt_alg_name(header.alg)) {
        Some(claims) => Ok(claims),
        None => Err(AdmitRefusal::Unauthorized),
    }
}

/// Decides on a checked token, given the user's live sessions: too many
/// requests where the limit is reached, else the session `jti` goes into
/// the user's and the device's session sets.
pub fn admission_decision(claims: &AdmissionClaims, user_count: i64, max_active: u64) -> (r: Result<
    AdmitPlan,
    AdmitRefusal,
>)
    ensures
        !admits(user_count, max_active) ==> r == Err::<AdmitPlan, AdmitRefusal>(AdmitRefusal::TooManyRequests),
        admits(user_count, max_active) ==> (r matches Ok(p) && p.user_key@ == admission_keys(
            claims.sub@,
            claims.did@,
        ).0 && p.device_key@ == admission_keys(claims.sub@, claims.did@).1 && p.session_id@ == claims.jti@),
{
    if !admission_allowed(user_count, max_active) {
        return Err(AdmitRefusal::TooManyRequests);
    }
    let (user_key, device_key) = admission_key_names(claims.sub.as_str(), claims.did.as_str());
    Ok(AdmitPlan { user_key, device_key, session_id: owned(claims.jti.as_str()) })
}

impl AdmitRefusal {
    /// The HTTP status of the refusal.
    pub fn status_code(&self) -> (r: u16)
        ensures
            r == match self {
                AdmitRefusal::Unauthorized => 401u16,
                AdmitRefusal::TooManyRequests => 429u16,
            },
    {
        match self {
            AdmitRefusal::Unauthorized => 401,
            AdmitRefusal::TooManyRequests => 429,
        }
    }
}

} // verus!
