use base64::Engine;
use vpn_core::admission::{
    admission_decision, check_admission_token, jwt_alg_name, AdmissionClaims, AdmitRefusal, JwkParts, JwtAlg,
};
use vpn_core::node::{directory_base, directory_url};

// A P-256 test key's public point, and signatures that it checks, made
// once for these tests over the header and claims written below.
const KEY_X: [u8; 32] = [216, 160, 251, 237, 166, 249, 42, 171, 150, 74, 162, 119, 104, 232, 80, 13, 13, 125, 202, 238, 172, 190, 186, 201, 16, 54, 16, 210, 211, 155, 228, 242];
const KEY_Y: [u8; 32] = [201, 240, 224, 183, 186, 245, 255, 227, 205, 182, 29, 29, 187, 173, 239, 131, 130, 220, 249, 238, 25, 249, 153, 209, 206, 99, 198, 154, 77, 122, 84, 124];
const SIG_FRESH: [u8; 64] = [132, 198, 183, 158, 31, 188, 78, 131, 247, 112, 238, 179, 240, 149, 66, 188, 189, 152, 113, 3, 28, 141, 86, 31, 160, 205, 211, 71, 130, 96, 140, 189, 84, 172, 64, 239, 121, 89, 4, 19, 48, 113, 213, 233, 138, 179, 229, 155, 14, 45, 137, 136, 100, 124, 192, 249, 59, 93, 173, 137, 231, 154, 194, 112];
const SIG_NO_DID: [u8; 64] = [147, 166, 208, 249, 2, 125, 19, 195, 101, 241, 16, 95, 180, 126, 43, 82, 144, 244, 25, 42, 62, 169, 181, 180, 9, 137, 47, 187, 253, 103, 145, 198, 208, 43, 43, 9, 146, 104, 246, 162, 45, 151, 5, 15, 106, 31, 15, 145, 82, 85, 32, 123, 91, 173, 97, 234, 208, 37, 96, 212, 7, 130, 176, 128];
const SIG_EXPIRED: [u8; 64] = [86, 64, 224, 67, 234, 48, 222, 17, 9, 38, 202, 39, 163, 66, 177, 25, 113, 124, 226, 160, 89, 51, 244, 82, 249, 1, 231, 81, 16, 78, 162, 76, 27, 159, 90, 10, 131, 23, 152, 255, 244, 145, 78, 117, 34, 36, 70, 161, 145, 131, 197, 185, 230, 102, 131, 55, 198, 164, 6, 227, 251, 166, 178, 205];

const FAR_FUTURE: u64 = 4102444800;
const LONG_PAST: u64 = 1000000000;

fn b64(bytes: &[u8]) -> String {
    base64::engine::general_purpose::URL_SAFE_NO_PAD.encode(bytes)
}

/// A token of three parts: header, claims and signature.
fn token(kid: Option<&str>, exp: u64, with_did: bool, signature: &[u8]) -> String {
    let header = match kid {
        Some(k) => format!("{{\"typ\":\"JWT\",\"alg\":\"ES256\",\"kid\":\"{k}\"}}"),
        None => "{\"typ\":\"JWT\",\"alg\":\"ES256\"}".to_string(),
    };
    let did = if with_did { "\"did\":\"dev-9\"," } else { "" };
    let claims = format!("{{\"sub\":\"user-1\",{did}\"jti\":\"session-3\",\"exp\":{exp}}}");
    format!("{}.{}.{}", b64(header.as_bytes()), b64(claims.as_bytes()), b64(signature))
}

fn key_set() -> (Vec<JwkParts>, Vec<Option<String>>) {
    (
        vec![
            JwkParts::Unsupported,
            JwkParts::Ec { x: b64(&KEY_X), y: b64(&KEY_Y) },
            JwkParts::Rsa { n: "!!".into(), e: "AQAB".into() },
        ],
        vec![Some("other".into()), Some("k1".into()), Some("bad-rsa".into())],
    )
}

fn refused(r: Result<AdmissionClaims, AdmitRefusal>) -> bool {
    matches!(r, Err(AdmitRefusal::Unauthorized))
}

#[test]
fn a_signed_token_is_admitted_with_its_claims() {
    let (keys, ids) = key_set();
    let claims = check_admission_token(&token(Some("k1"), FAR_FUTURE, true, &SIG_FRESH), &keys, &ids).unwrap();
    assert_eq!(claims.sub, "user-1");
    assert_eq!(claims.did, "dev-9");
    assert_eq!(claims.jti, "session-3");
}

#[test]
fn tokens_that_cannot_be_checked_are_unauthorized() {
    let (keys, ids) = key_set();
    assert!(refused(check_admission_token("not a token", &keys, &ids)));
    assert!(refused(check_admission_token(&token(None, FAR_FUTURE, true, &SIG_FRESH), &keys, &ids)));
    assert!(refused(check_admission_token(&token(Some("missing"), FAR_FUTURE, true, &SIG_FRESH), &keys, &ids)));
    assert!(refused(check_admission_token(&token(Some("other"), FAR_FUTURE, true, &SIG_FRESH), &keys, &ids)));
    assert!(refused(check_admission_token(&token(Some("bad-rsa"), FAR_FUTURE, true, &SIG_FRESH), &keys, &ids)));
    assert!(refused(check_admission_token(&token(Some("k1"), FAR_FUTURE, false, &SIG_NO_DID), &keys, &ids)));
    assert!(refused(check_admission_token(&token(Some("k1"), LONG_PAST, true, &SIG_EXPIRED), &keys, &ids)));
    // A key id without a key at its position names nothing.
    let fresh = token(Some("k1"), FAR_FUTURE, true, &SIG_FRESH);
    assert!(refused(check_admission_token(&fresh, &keys[..1].to_vec(), &ids)));
    // A signature with one byte changed.
    let mut bent = SIG_FRESH;
    bent[10] ^= 1;
    assert!(refused(check_admission_token(&token(Some("k1"), FAR_FUTURE, true, &bent), &keys, &ids)));
    // The right signature over other claims.
    assert!(refused(check_admission_token(&token(Some("k1"), FAR_FUTURE, true, &SIG_NO_DID), &keys, &ids)));
}

#[test]
fn the_session_cap_decides_admission() {
    let claims = AdmissionClaims { sub: "user-1".into(), did: "dev-9".into(), jti: "session-3".into() };
    let plan = admission_decision(&claims, 4, 5).unwrap();
    assert_eq!(plan.user_key, "active:user:user-1");
    assert_eq!(plan.device_key, "active:device:dev-9");
    assert_eq!(plan.session_id, "session-3");
    let over = admission_decision(&claims, 5, 5);
    assert!(matches!(over, Err(AdmitRefusal::TooManyRequests)));
    assert_eq!(AdmitRefusal::TooManyRequests.status_code(), 429);
    assert_eq!(AdmitRefusal::Unauthorized.status_code(), 401);
    assert_eq!(jwt_alg_name(JwtAlg::ES256), "ES256");
    assert_eq!(jwt_alg_name(JwtAlg::EdDSA), "EdDSA");
}

#[test]
fn directory_addresses_resolve_against_the_base() {
    let base = directory_base("http://directory.example:8081").unwrap();
    assert_eq!(base, "http://directory.example:8081/");
    assert_eq!(directory_url(&base, "/regions").unwrap(), "http://directory.example:8081/regions");
    assert_eq!(directory_url("http://d.example/api/", "nodes/register").unwrap(), "http://d.example/api/nodes/register");
    assert_eq!(directory_base("not a url").unwrap_err().message, "invalid DIRECTORY_HTTP_ADDR: not a url");
    assert_eq!(directory_url("not a url", "/regions").unwrap_err().message, "failed to build directory-api URL for /regions");
}
