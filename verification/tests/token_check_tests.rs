use base64::engine::general_purpose::URL_SAFE_NO_PAD;
use base64::Engine;
use intiface_webhook::firebase_auth::{
    begin_token_validation, claims_from_json, claims_outcome, finish_token_validation,
    jwk_from_json, key_set_from_json, AuthError, JwksCache, KeySetError, TokenStep,
};
use intiface_webhook::json::JsonValue;

/// The modulus of the RSA test key that signed the tokens below (base64url).
const TEST_MODULUS: &str = "vdKfFsbGNDLRTkmEfq5r1E8U1p-8QD5gcYp8Tu9dTAr4-YFmwyjRfmVRfRrh-kHXi0OsHtR2vams6nYU0BzENHkTKhUV1aVLY7eTlgfAkkprzK2nmD4jel8tdF8cH_rCAeD08a8eX2b2eD62NiO29Lt1J6bbqL_UuhLDOCG53HqNT8ctMjAa1oYDECVT2Y7mc4eYNXcLo1FgIQeLyvs8cs02D2r9URtcS_yoHZCclvDVuHu_vhx9F_uLk0pUcoUr6tgrofENmw7LEP0PMw0ySo1cPQbqRHdwZ07dJ20dpPFS-3xlqMGA77x6oxQucsdXXX1OXCTe5Nr5zcjOnz3mvQ";
const TEST_EXPONENT: &str = "AQAB";

const HEADER: &str = r#"{"alg":"RS256","typ":"JWT","kid":"k1"}"#;

const FIREBASE_CLAIMS: &str = r#"{"iss":"https://securetoken.google.com/demo-project","aud":"demo-project","sub":"uid-42","iat":1700000000,"exp":4000000000,"email":"a@example.com"}"#;
const FIREBASE_SIG: &str = "oAyvhmW1B0WjWG28WRrTuxVh1Vnm5JPvgsHFsMtvdccxIZX0ecLTrY90KTlUD54A6sHGi63FCiZt8YQu5EGuwoPNY8Cw1y4QP5NH18wEPyPBnVjpZ6ZkqI8wBt2vIzaqdYZKMPWDEczKcx1ZSF2fE8ly-CWQwm4lLz44oFkd8rPsM_St9XI09QtFbO_IYQC4FAfsnQLgdQtTUkvjSwBmrM3u3R4iwKxcH94409Pl1fXx84xdvELgiZosk1iix5YMKa7-_2Z2hOnqG8XmsdBPjAUh9HsHg9wT_q0GG33PoiH5SSHrH7VPyl8PVYr9qQvNkxWA89OvxJ1P4ykige7OcQ";

const OTHER_ISSUER_CLAIMS: &str = r#"{"iss":"https://accounts.google.com","aud":"demo-project","sub":"uid-42","iat":1700000000,"exp":4000000000}"#;
const OTHER_ISSUER_SIG: &str = "pngQc58w_95Y2qNKhayc99xkja_e3C3M6C6dg7q7KtJAS67EdSEzAMsQUR3kP2nbAIiRRdbBv4vSFzFn13OclLUsbloQX-GP63gks8ZDaIUkr1SqH83XA-VOzKExziPQw45Blc4-iiZP_dSiYldhCXN35XEwPmc9pnAtUlXS_IG-oloAqcqx73OSZjie0D7lhAOAkJ8C9exyBcahC3rIerp4UYNMM8CEIoBVhuHBbFdII3kW7aPVeymAAPZ2PGY-szAyiA40F4EMxu_Ii0pHdKZSxCR8DDUOm487VR_Pf3RJFMJGYJssizmowWGHPcfBGc3VpjFqPc65Dhx24_pfww";

const EXPIRED_CLAIMS: &str = r#"{"iss":"https://securetoken.google.com/demo-project","aud":"demo-project","sub":"uid-42","iat":999999000,"exp":1000000000}"#;
const EXPIRED_SIG: &str = "c1vvMed1DLyC1VfuLQf8fMtxhFWCF0ynZxqdc6S9FT5mkH7lLEObj2cPuTjoqvwEZZZXEcAiGSrAU2vDrGmvPAHDs4EwWQ6p3sh-NYxxp4aodDFb8zTs2QDy_6Dukn-TyilDs8SgfV-4ZaNt2mJR2KLyGLWXu7xekLXnUSriNXC5EcNQ41RLZK0mkek4kO8M1vS8GIG5n5we-VVRS_DwoCfsqSkCfbBI6nMAXad4s8PhsvNXrk4v9uvoybx2-IUhrVF0MD9fyFmFqDUe4JlTbaDS_A84AVO6BgdirxekRDgxb-0AxRO_SBhWoDfuaHGj9dNSaLD0rMMEf2oMwBUzHw";

const NO_SUB_CLAIMS: &str = r#"{"iss":"https://securetoken.google.com/demo-project","aud":"demo-project","iat":1700000000,"exp":4000000000}"#;
const NO_SUB_SIG: &str = "Vvd7U4kGODXSmjfyDNuwKILjqxeBTkFGWL3qtmZMj0qAJbq6OnVSoZKJ4usqkfzg9kF8PJtMunBwT9Rb4otmro5XiVlFxJ8ya8Df8NcCUeL14k1h84i2VbLUaGL1oK6nvRe1uhdtfhWW8vdNUwGKASM7ouELwJVEJv-oB2x27wevG1Gn5Nd2zBAOQBPjmrC_BZU8oBKfdwBWhxVD1OgwuS2dxhG4mnZ14JcybCIGimvYYfaqyypX0ok3cjbYQQvr_I1-bBYgm90_p_9E_BJwE_3__sKBAR7euhKBS6FfEFDDCYJIIx84gWFKmxCCcsWMFUIHDZOnGcXv7in7scr8BQ";

const T0: u64 = 5_000_000_000_000;

fn token(claims: &str, signature: &str) -> String {
    format!("{}.{}.{}", URL_SAFE_NO_PAD.encode(HEADER), URL_SAFE_NO_PAD.encode(claims), signature)
}

fn key_set_body() -> String {
    format!(
        r#"{{"keys":[{{"kid":"k1","n":"{}","e":"{}","alg":"RS256","use":"sig","kty":"RSA"}}]}}"#,
        TEST_MODULUS, TEST_EXPONENT
    )
}

fn test_key() -> (Vec<u8>, Vec<u8>) {
    (URL_SAFE_NO_PAD.decode(TEST_MODULUS).unwrap(), URL_SAFE_NO_PAD.decode(TEST_EXPONENT).unwrap())
}

fn s(text: &str) -> JsonValue {
    JsonValue::String(text.to_string())
}

fn n(v: u64) -> JsonValue {
    JsonValue::Number(Some(v))
}

fn obj(members: Vec<(&str, JsonValue)>) -> JsonValue {
    JsonValue::Object(members.into_iter().map(|(k, v)| (k.to_string(), v)).collect())
}

fn firebase_claims_value(email: Option<JsonValue>) -> JsonValue {
    let mut members = vec![
        ("sub", s("uid-1")),
        ("aud", s("proj")),
        ("iss", s("https://securetoken.google.com/proj")),
        ("exp", n(2_000_000_000)),
        ("iat", n(1_900_000_000)),
    ];
    if let Some(e) = email {
        members.push(("email", e));
    }
    obj(members)
}

#[test]
fn a_signed_firebase_token_gives_its_user_id() {
    let (n, e) = test_key();
    assert_eq!(finish_token_validation(&token(FIREBASE_CLAIMS, FIREBASE_SIG), &n, &e).unwrap(), "uid-42");
}

#[test]
fn the_whole_check_from_a_fetched_key_set() {
    let mut cache = JwksCache::new();
    assert_eq!(cache.install_response(key_set_body().as_bytes(), T0).unwrap(), 1);
    let t = token(FIREBASE_CLAIMS, FIREBASE_SIG);
    match begin_token_validation(&t, &cache, T0 + 1) {
        TokenStep::Verify { n, e } => assert_eq!(finish_token_validation(&t, &n, &e).unwrap(), "uid-42"),
        other => panic!("unexpected {:?}", other),
    }
}

#[test]
fn a_signed_token_of_another_issuer_is_refused() {
    let (n, e) = test_key();
    match finish_token_validation(&token(OTHER_ISSUER_CLAIMS, OTHER_ISSUER_SIG), &n, &e) {
        Err(AuthError::InvalidIssuer(iss)) => assert_eq!(iss, "https://accounts.google.com"),
        other => panic!("unexpected {:?}", other),
    }
}

#[test]
fn an_expired_token_is_refused() {
    let (n, e) = test_key();
    assert!(matches!(
        finish_token_validation(&token(EXPIRED_CLAIMS, EXPIRED_SIG), &n, &e),
        Err(AuthError::TokenRejected)
    ));
}

#[test]
fn a_signed_token_without_a_subject_is_refused() {
    let (n, e) = test_key();
    assert!(matches!(
        finish_token_validation(&token(NO_SUB_CLAIMS, NO_SUB_SIG), &n, &e),
        Err(AuthError::TokenRejected)
    ));
}

#[test]
fn a_token_whose_claims_were_changed_is_refused() {
    let (n, e) = test_key();
    let forged = FIREBASE_CLAIMS.replace("uid-42", "uid-43");
    assert!(matches!(
        finish_token_validation(&token(&forged, FIREBASE_SIG), &n, &e),
        Err(AuthError::TokenRejected)
    ));
    assert!(matches!(
        finish_token_validation(&token(FIREBASE_CLAIMS, OTHER_ISSUER_SIG), &n, &e),
        Err(AuthError::TokenRejected)
    ));
}

#[test]
fn a_token_checked_with_another_key_is_refused() {
    let (mut n, e) = test_key();
    n[10] ^= 1;
    assert!(matches!(
        finish_token_validation(&token(FIREBASE_CLAIMS, FIREBASE_SIG), &n, &e),
        Err(AuthError::TokenRejected)
    ));
}

#[test]
fn garbage_is_refused() {
    let (n, e) = test_key();
    assert!(matches!(finish_token_validation("not a token", &n, &e), Err(AuthError::TokenRejected)));
    assert!(matches!(finish_token_validation("", &n, &e), Err(AuthError::TokenRejected)));
}

#[test]
fn claims_are_read_from_an_object() {
    let c = claims_from_json(&firebase_claims_value(None)).unwrap();
    assert_eq!(c.sub, "uid-1");
    assert_eq!(c.aud, "proj");
    assert_eq!(c.iss, "https://securetoken.google.com/proj");
    assert_eq!(c.exp, 2_000_000_000);
    assert_eq!(c.iat, 1_900_000_000);
    assert!(c.email.is_none());
    let with_email = claims_from_json(&firebase_claims_value(Some(s("a@b.c")))).unwrap();
    assert_eq!(with_email.email.as_deref(), Some("a@b.c"));
    let null_email = claims_from_json(&firebase_claims_value(Some(JsonValue::Null))).unwrap();
    assert!(null_email.email.is_none());
    assert!(claims_from_json(&firebase_claims_value(Some(n(3)))).is_none());
}

#[test]
fn claims_are_read_from_an_array_of_six() {
    let arr = JsonValue::Array(vec![s("u"), s("a"), s("i"), n(5), n(4), JsonValue::Null]);
    let c = claims_from_json(&arr).unwrap();
    assert_eq!(c.sub, "u");
    assert_eq!(c.exp, 5);
    assert!(c.email.is_none());
    let short = JsonValue::Array(vec![s("u"), s("a"), s("i"), n(5), n(4)]);
    assert!(claims_from_json(&short).is_none());
}

#[test]
fn claims_of_the_wrong_shape_are_not_read() {
    assert!(claims_from_json(&s("x")).is_none());
    assert!(claims_from_json(&JsonValue::Null).is_none());
    let fractional_exp = obj(vec![
        ("sub", s("u")),
        ("aud", s("a")),
        ("iss", s("i")),
        ("exp", JsonValue::Number(None)),
        ("iat", n(1)),
    ]);
    assert!(claims_from_json(&fractional_exp).is_none());
    let numeric_sub = obj(vec![("sub", n(1)), ("aud", s("a")), ("iss", s("i")), ("exp", n(1)), ("iat", n(1))]);
    assert!(claims_from_json(&numeric_sub).is_none());
}

#[test]
fn claims_outcome_for_each_case() {
    assert!(matches!(claims_outcome(None), Err(AuthError::TokenRejected)));
    assert!(matches!(claims_outcome(Some(s("x"))), Err(AuthError::TokenRejected)));
    assert_eq!(claims_outcome(Some(firebase_claims_value(None))).unwrap(), "uid-1");
    let other = obj(vec![
        ("sub", s("u")),
        ("aud", s("a")),
        ("iss", s("https://evil.example")),
        ("exp", n(1)),
        ("iat", n(1)),
    ]);
    match claims_outcome(Some(other)) {
        Err(AuthError::InvalidIssuer(iss)) => assert_eq!(iss, "https://evil.example"),
        r => panic!("unexpected {:?}", r),
    }
}

#[test]
fn keys_are_read_from_objects_and_arrays() {
    let k = jwk_from_json(&obj(vec![("kid", s("k")), ("n", s("AQAB")), ("e", s("AQAB")), ("use", s("sig"))])).unwrap();
    assert_eq!(k.kid, "k");
    assert!(k.alg.is_none());
    assert_eq!(k.key_use.as_deref(), Some("sig"));
    let a = jwk_from_json(&JsonValue::Array(vec![s("k"), s("n"), s("e"), JsonValue::Null, JsonValue::Null])).unwrap();
    assert_eq!(a.e, "e");
    assert!(jwk_from_json(&obj(vec![("kid", s("k")), ("n", s("AQAB"))])).is_none());
    assert!(jwk_from_json(&obj(vec![("kid", s("k")), ("n", s("n")), ("e", s("e")), ("alg", n(1))])).is_none());
}

#[test]
fn key_sets_are_read_or_refused() {
    assert!(matches!(key_set_from_json(&s("x")), Err(KeySetError::Unreadable)));
    assert!(matches!(key_set_from_json(&obj(vec![])), Err(KeySetError::MissingKeys)));
    assert!(matches!(key_set_from_json(&obj(vec![("keys", s("x"))])), Err(KeySetError::BadKeys)));
    assert!(matches!(key_set_from_json(&obj(vec![("keys", JsonValue::Array(vec![n(1)]))])), Err(KeySetError::BadKeys)));
    let good = obj(vec![(
        "keys",
        JsonValue::Array(vec![
            obj(vec![("kid", s("a")), ("n", s("AQ")), ("e", s("AQAB"))]),
            obj(vec![("kid", s("b")), ("n", s("Ag")), ("e", s("AQAB"))]),
        ]),
    )]);
    let keys = key_set_from_json(&good).unwrap();
    assert_eq!(keys.len(), 2);
    assert_eq!(keys[1].kid, "b");
    assert!(key_set_from_json(&obj(vec![("keys", JsonValue::Array(vec![]))])).unwrap().is_empty());
}

#[test]
fn install_response_reads_the_fetched_bytes() {
    let mut cache = JwksCache::new();
    assert!(matches!(cache.install_response(b"not json", T0), Err(KeySetError::Unreadable)));
    assert!(matches!(cache.install_response(b"[1,2]", T0), Err(KeySetError::Unreadable)));
    assert!(matches!(cache.install_response(b"{\"other\":1}", T0), Err(KeySetError::MissingKeys)));
    assert!(matches!(cache.install_response(b"{\"keys\":{}}", T0), Err(KeySetError::BadKeys)));
    assert!(cache.is_stale(T0));
    let body = br#"{"keys":[{"kid":"a","n":"AQ","e":"AQAB"},{"kid":"a","n":"Ag","e":"AQAB"},{"kid":"b","n":"Aw","e":"AQAB"}]}"#;
    assert_eq!(cache.install_response(body, T0).unwrap(), 3);
    assert!(!cache.is_stale(T0));
    assert_eq!(cache.key_for("a").unwrap().n, "Ag");
    assert_eq!(cache.key_for("b").unwrap().n, "Aw");
    assert!(cache.install_response(b"{}", T0 + 1).is_err());
    assert_eq!(cache.key_for("a").unwrap().n, "Ag");
}
