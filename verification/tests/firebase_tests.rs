use base64::engine::general_purpose::URL_SAFE_NO_PAD;
use base64::Engine;
use intiface_webhook::firebase_auth::{
    accept_claims, begin_token_validation, key_material, resume_token_validation, AuthError,
    FirebaseClaims, JwkEntry, JwksCache, TokenStep, JWKS_CACHE_TTL_NANOS,
};

fn token_with_header(header_json: &str) -> String {
    format!(
        "{}.{}.{}",
        URL_SAFE_NO_PAD.encode(header_json),
        URL_SAFE_NO_PAD.encode("{\"sub\":\"x\"}"),
        URL_SAFE_NO_PAD.encode("signature")
    )
}

fn jwk(kid: &str, n: &str, e: &str) -> JwkEntry {
    JwkEntry {
        kid: kid.to_string(),
        n: n.to_string(),
        e: e.to_string(),
        alg: Some("RS256".to_string()),
        key_use: Some("sig".to_string()),
    }
}

fn claims(iss: &str) -> FirebaseClaims {
    FirebaseClaims {
        sub: "uid-123".to_string(),
        aud: "project".to_string(),
        iss: iss.to_string(),
        exp: 2_000_000_000,
        iat: 1_700_000_000,
        email: None,
    }
}

const T0: u64 = 1_000_000_000_000;

#[test]
fn new_cache_is_stale() {
    let c = JwksCache::new();
    assert!(c.is_stale(0));
    assert!(c.is_stale(T0));
    assert!(c.key_for("k1").is_none());
}

#[test]
fn installed_cache_is_fresh_for_an_hour() {
    let mut c = JwksCache::new();
    c.install(vec![jwk("k1", "AQAB", "AQAB")], T0);
    assert!(!c.is_stale(T0));
    assert!(!c.is_stale(T0 + JWKS_CACHE_TTL_NANOS));
    assert!(c.is_stale(T0 + JWKS_CACHE_TTL_NANOS + 1));
    assert!(!c.is_stale(T0 - 5));
    assert_eq!(c.key_for("k1").unwrap().n, "AQAB");
}

#[test]
fn later_keys_replace_earlier_ones_with_the_same_id() {
    let mut c = JwksCache::new();
    c.install(vec![jwk("k1", "AA", "AQAB"), jwk("k2", "Ag", "AQAB"), jwk("k1", "Aw", "AQAB")], T0);
    assert_eq!(c.key_for("k1").unwrap().n, "Aw");
    assert_eq!(c.key_for("k2").unwrap().n, "Ag");
    c.install(vec![jwk("k3", "BA", "AQAB")], T0 + 1);
    assert!(c.key_for("k1").is_none());
    assert!(c.key_for("k3").is_some());
}

#[test]
fn key_material_decodes_modulus_and_exponent() {
    match key_material(&jwk("k", "AQAB", "AQ")) {
        TokenStep::Verify { n, e } => {
            assert_eq!(n, vec![1, 0, 1]);
            assert_eq!(e, vec![1]);
        }
        other => panic!("unexpected {:?}", other),
    }
    assert!(matches!(
        key_material(&jwk("k", "AQAB==", "AQAB")),
        TokenStep::Reject(AuthError::BadModulus)
    ));
    assert!(matches!(
        key_material(&jwk("k", "AQAB", "A+B/")),
        TokenStep::Reject(AuthError::BadExponent)
    ));
}

#[test]
fn malformed_token_headers_are_refused() {
    let c = JwksCache::new();
    assert!(matches!(
        begin_token_validation("not a token", &c, T0),
        TokenStep::Reject(AuthError::MalformedHeader)
    ));
    assert!(matches!(
        begin_token_validation("a.b.c", &c, T0),
        TokenStep::Reject(AuthError::MalformedHeader)
    ));
    let no_kid = token_with_header("{\"alg\":\"RS256\",\"typ\":\"JWT\"}");
    assert!(matches!(
        begin_token_validation(&no_kid, &c, T0),
        TokenStep::Reject(AuthError::MissingKid)
    ));
}

#[test]
fn stale_cache_asks_for_a_refresh() {
    let c = JwksCache::new();
    let token = token_with_header("{\"alg\":\"RS256\",\"kid\":\"k1\"}");
    match begin_token_validation(&token, &c, T0) {
        TokenStep::Refresh { kid } => assert_eq!(kid, "k1"),
        other => panic!("unexpected {:?}", other),
    }
}

#[test]
fn fresh_cache_is_used_without_refresh() {
    let mut c = JwksCache::new();
    c.install(vec![jwk("k1", "AQAB", "AQAB")], T0);
    let token = token_with_header("{\"alg\":\"RS256\",\"kid\":\"k1\"}");
    match begin_token_validation(&token, &c, T0 + 10) {
        TokenStep::Verify { n, e } => {
            assert_eq!(n, vec![1, 0, 1]);
            assert_eq!(e, vec![1, 0, 1]);
        }
        other => panic!("unexpected {:?}", other),
    }
    let other = token_with_header("{\"alg\":\"RS256\",\"kid\":\"k9\"}");
    match begin_token_validation(&other, &c, T0 + 10) {
        TokenStep::Reject(AuthError::UnknownKidCached(kid)) => assert_eq!(kid, "k9"),
        other => panic!("unexpected {:?}", other),
    }
    match begin_token_validation(&other, &c, T0 + JWKS_CACHE_TTL_NANOS + 1) {
        TokenStep::Refresh { kid } => assert_eq!(kid, "k9"),
        other => panic!("unexpected {:?}", other),
    }
}

#[test]
fn resuming_after_a_refresh() {
    let mut c = JwksCache::new();
    c.install(vec![jwk("k1", "AQAB", "AQAB")], T0);
    assert!(matches!(resume_token_validation("k1", &c), TokenStep::Verify { .. }));
    match resume_token_validation("k2", &c) {
        TokenStep::Reject(AuthError::UnknownKid(kid)) => assert_eq!(kid, "k2"),
        other => panic!("unexpected {:?}", other),
    }
}

#[test]
fn only_firebase_issuers_are_accepted() {
    assert_eq!(accept_claims(&claims("https://securetoken.google.com/my-project")).unwrap(), "uid-123");
    assert_eq!(accept_claims(&claims("https://securetoken.google.com/")).unwrap(), "uid-123");
    match accept_claims(&claims("https://accounts.google.com")) {
        Err(AuthError::InvalidIssuer(iss)) => assert_eq!(iss, "https://accounts.google.com"),
        other => panic!("unexpected {:?}", other),
    }
    assert!(accept_claims(&claims("http://securetoken.google.com/p")).is_err());
    assert!(accept_claims(&claims("")).is_err());
}
