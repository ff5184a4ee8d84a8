//! Validation of Firebase ID tokens against Google's published signing keys.
//!
//! A token is checked in steps: its header names a key (`kid`); the key is
//! looked up in a cache of Google's key set, which is refetched once it is more
//! than an hour old; the key's modulus and exponent are decoded; the token's
//! signature and expiry are checked with that key; and its issuer must be the
//! Firebase Secure Token Service. Fetching the key set over the network happens
//! outside this module, between the steps it decides; reading the fetched
//! response and checking the signature happen here.
use crate::json::{from_serde_value, json_get, json_of_bytes, json_str, json_u64, parse_json_bytes, JsonValue};
use crate::keyed::{Keyed, KeyedVec};
use crate::text::has_prefix;
use jsonwebtoken::{Algorithm, DecodingKey, Validation};
use base64::engine::general_purpose::URL_SAFE_NO_PAD;
use base64::Engine;
use vstd::prelude::*;

verus! {

/// How long a fetched key set stays fresh, in nanoseconds (one hour).
pub const JWKS_CACHE_TTL_NANOS: u64 = 3_600_000_000_000;

/// The prefix every accepted issuer starts with.
pub open spec fn firebase_issuer_prefix() -> Seq<char> {
    "https://securetoken.google.com/"@
}

/// The claims of a Firebase ID token.
#[derive(Debug)]
pub struct FirebaseClaims {
    pub sub: String,
    pub aud: String,
    pub iss: String,
    pub exp: usize,
    pub iat: usize,
    pub email: Option<String>,
}

/// The claims of a Firebase ID token, as plain values.
pub struct ClaimsView {
    pub sub: Seq<char>,
    pub aud: Seq<char>,
    pub iss: Seq<char>,
    pub exp: usize,
    pub iat: usize,
    pub email: Option<Seq<char>>,
}

impl View for FirebaseClaims {
    type V = ClaimsView;

    open spec fn view(&self) -> ClaimsView {
        ClaimsView {
            sub: self.sub@,
            aud: self.aud@,
            iss: self.iss@,
            exp: self.exp,
            iat: self.iat,
            email: match self.email {
                Some(m) => Some(m@),
                None => None,
            },
        }
    }
}

pub open spec fn opt_json(v: Option<&JsonValue>) -> Option<JsonValue> {
    match v {
        Some(x) => Some(*x),
        None => None,
    }
}

/// The whole number that `v` holds, where it fits in a `usize`.
pub open spec fn json_usize(v: Option<JsonValue>) -> Option<usize> {
    match json_u64(v) {
        Some(n) => if n <= usize::MAX {
            Some(n as usize)
        } else {
            None
        },
        None => None,
    }
}

/// An optional text: absent or `null` gives no text, a string gives its text,
/// anything else does not fit (`None`).
pub open spec fn json_optional_text(v: Option<JsonValue>) -> Option<Option<Seq<char>>> {
    match v {
        None => Some(None),
        Some(JsonValue::Null) => Some(None),
        Some(JsonValue::String(s)) => Some(Some(s@)),
        _ => None,
    }
}

/// The claims made of the six parts, where each has the type its claim needs.
pub open spec fn claims_from_parts(
    sub: Option<JsonValue>,
    aud: Option<JsonValue>,
    iss: Option<JsonValue>,
    exp: Option<JsonValue>,
    iat: Option<JsonValue>,
    email: Option<JsonValue>,
) -> Option<ClaimsView> {
    match (json_str(sub), json_str(aud), json_str(iss), json_usize(exp), json_usize(iat), json_optional_text(email)) {
        (Some(s), Some(a), Some(i), Some(x), Some(t), Some(m)) => Some(
            ClaimsView { sub: s, aud: a, iss: i, exp: x, iat: t, email: m },
        ),
        _ => None,
    }
}

/// The claims that the JSON value `c` holds, read as serde reads
/// `FirebaseClaims`: an object whose members `sub`, `aud` and `iss` are strings,
/// `exp` and `iat` whole numbers that fit in a `usize`, and `email`, if present,
/// a string or `null` (other members ignored); or an array of exactly these six
/// in this order.
pub open spec fn claims_view(c: JsonValue) -> Option<ClaimsView> {
    match c {
        JsonValue::Object(_) => claims_from_parts(
            json_get(c, "sub"@),
            json_get(c, "aud"@),
            json_get(c, "iss"@),
            json_get(c, "exp"@),
            json_get(c, "iat"@),
            json_get(c, "email"@),
        ),
        JsonValue::Array(items) => if items@.len() == 6 {
            claims_from_parts(
                Some(items@[0]),
                Some(items@[1]),
                Some(items@[2]),
                Some(items@[3]),
                Some(items@[4]),
                Some(items@[5]),
            )
        } else {
            None
        },
        _ => None,
    }
}

/// One key of Google's published key set (an RSA public key).
#[derive(Debug)]
pub struct JwkEntry {
    pub kid: String,
    pub n: String,
    pub e: String,
    pub alg: Option<String>,
    pub key_use: Option<String>,
}

/// A key of the key set, as plain values.
pub struct JwkView {
    pub kid: Seq<char>,
    pub n: Seq<char>,
    pub e: Seq<char>,
    pub alg: Option<Seq<char>>,
    pub key_use: Option<Seq<char>>,
}

impl View for JwkEntry {
    type V = JwkView;

    open spec fn view(&self) -> JwkView {
        JwkView {
            kid: self.kid@,
            n: self.n@,
            e: self.e@,
            alg: match self.alg {
                Some(a) => Some(a@),
                None => None,
            },
            key_use: match self.key_use {
                Some(u) => Some(u@),
                None => None,
            },
        }
    }
}

/// Why a fetched key set could not be read.
#[derive(Debug)]
pub enum KeySetError {
    /// The response is not a JSON object.
    Unreadable,
    /// The object has no `keys` member.
    MissingKeys,
    /// `keys` is not an array of keys.
    BadKeys,
}

impl Keyed for JwkEntry {
    open spec fn spec_key(&self) -> Seq<char> {
        self.kid@
    }

    fn key(&self) -> (k: &String) {
        &self.kid
    }
}

/// Why a token was refused.
#[derive(Debug)]
pub enum AuthError {
    /// The token's header could not be decoded.
    MalformedHeader,
    /// The token's header names no key.
    MissingKid,
    /// The fresh cached key set has no key with this id.
    UnknownKidCached(String),
    /// The key set, just fetched, has no key with this id.
    UnknownKid(String),
    /// The key's modulus is not base64url without padding.
    BadModulus,
    /// The key's exponent is not base64url without padding.
    BadExponent,
    /// The key set could not be fetched or read.
    KeySetUnavailable,
    /// The token's signature or claims did not check out with the key.
    TokenRejected,
    /// The token was not issued by the Firebase Secure Token Service.
    InvalidIssuer(String),
}

/// What to do next with a token.
#[derive(Debug)]
pub enum TokenStep {
    /// Fetch the key set afresh, then resume with this key id.
    Refresh { kid: String },
    /// Check the token's signature and claims with the RSA key of this
    /// modulus and exponent (big-endian bytes).
    Verify { n: Vec<u8>, e: Vec<u8> },
    /// Refuse the token.
    Reject(AuthError),
}

/// What `jsonwebtoken::decode_header` finds in a token: `None` where the header
/// cannot be decoded, otherwise the header's `kid` field.
pub uninterp spec fn jwt_header_kid(token: Seq<char>) -> Option<Option<Seq<char>>>;

/// What base64url decoding without padding (`base64`'s `URL_SAFE_NO_PAD`) makes
/// of a text: `None` where it is not valid such text.
pub uninterp spec fn base64url_decoded(text: Seq<char>) -> Option<Seq<u8>>;

pub open spec fn opt_opt_text(o: Option<Option<String>>) -> Option<Option<Seq<char>>> {
    match o {
        Some(Some(s)) => Some(Some(s@)),
        Some(None) => Some(None),
        None => None,
    }
}

/// `jsonwebtoken::decode_header`, keeping the header's `kid`: the result is
/// what `jwt_header_kid` names for the token, a function of the token alone.
#[verifier::external_body]
fn decode_header_kid(token: &str) -> (r: Option<Option<String>>)
    ensures
        opt_opt_text(r) == jwt_header_kid(token@),
{
    jsonwebtoken::decode_header(token).ok().map(|h| h.kid)
}

/// `URL_SAFE_NO_PAD.decode` from the `base64` crate: the result is what
/// `base64url_decoded` names for the text, a function of the text alone.
#[verifier::external_body]
fn decode_base64url(text: &str) -> (r: Option<Vec<u8>>)
    ensures
        match r {
            Some(b) => base64url_decoded(text@) == Some(b@),
            None => base64url_decoded(text@) is None,
        },
{
    URL_SAFE_NO_PAD.decode(text).ok()
}

/// The step that decoding key `jwk` leads to: its modulus and exponent decoded,
/// or the reason they cannot be.
pub open spec fn key_step(jwk: JwkEntry, r: TokenStep) -> bool {
    match base64url_decoded(jwk.n@) {
        None => r == TokenStep::Reject(AuthError::BadModulus),
        Some(nb) => match base64url_decoded(jwk.e@) {
            None => r == TokenStep::Reject(AuthError::BadExponent),
            Some(eb) => r matches TokenStep::Verify { n, e } && n@ == nb && e@ == eb,
        },
    }
}

/// The keys stored by installing `entries` in order, a later key replacing an
/// earlier one with the same id.
pub open spec fn keys_from_entries(entries: Seq<JwkEntry>) -> Map<Seq<char>, JwkEntry>
    decreases entries.len(),
{
    if entries.len() == 0 {
        Map::empty()
    } else {
        keys_from_entries(entries.drop_last()).insert(entries.last().kid@, entries.last())
    }
}

/// A key set fetched from Google, with when it was fetched (nanoseconds on a
/// monotonic clock).
pub struct JwksCache {
    keys: KeyedVec<JwkEntry>,
    fetched_at: Option<u64>,
}

impl JwksCache {
    /// The cached keys, by key id.
    pub closed spec fn keys(&self) -> Map<Seq<char>, JwkEntry> {
        self.keys@
    }

    pub closed spec fn fetched_at(&self) -> Option<u64> {
        self.fetched_at
    }

    /// The cache has never been filled, or was filled more than an hour
    /// before `now` (a clock reading before the fetch counts as no time).
    pub open spec fn stale_at(&self, now: u64) -> bool {
        match self.fetched_at() {
            None => true,
            Some(t) => now > t && now - t > JWKS_CACHE_TTL_NANOS,
        }
    }

    /// An empty cache that has never been filled.
    pub fn new() -> (c: Self)
        ensures
            c.keys() == Map::<Seq<char>, JwkEntry>::empty(),
            c.fetched_at() is None,
    {
        JwksCache { keys: KeyedVec::new(), fetched_at: None }
    }

    /// Whether the key set must be fetched again before use at time `now`.
    pub fn is_stale(&self, now: u64) -> (r: bool)
        ensures
            r == self.stale_at(now),
    {
        match self.fetched_at {
            None => true,
            Some(t) => now > t && now - t > JWKS_CACHE_TTL_NANOS,
        }
    }

    /// Replaces the cached keys by `entries` (a later key replacing an earlier
    /// one with the same id), fetched at `now`.
    pub fn install(&mut self, entries: Vec<JwkEntry>, now: u64)
        ensures
            final(self).keys() == keys_from_entries(entries@),
            final(self).fetched_at() == Some(now),
    {
        let ghost all = entries@;
        let mut rest = entries;
        let mut keys: KeyedVec<JwkEntry> = KeyedVec::new();
        let n = rest.len();
        let mut i: usize = 0;
        assert(all.take(0) =~= Seq::<JwkEntry>::empty());
        assert(all.skip(0) =~= all);
        while i < n
            invariant
                n == all.len(),
                i <= n,
                rest@ == all.skip(i as int),
                keys@ == keys_from_entries(all.take(i as int)),
            decreases n - i,
        {
            let e = rest.remove(0);
            assert(e == all[i as int]);
            keys.insert(e);
            assert(all.take(i + 1).drop_last() =~= all.take(i as int));
            assert(rest@ =~= all.skip(i + 1));
            i = i + 1;
        }
        assert(all.take(n as int) =~= all);
        self.keys = keys;
        self.fetched_at = Some(now);
    }

    /// Reads a fetched key-set response and, where it holds keys, installs them
    /// as fetched at `now` and gives how many there were; otherwise leaves the
    /// cache as it was and gives why.
    pub fn install_response(&mut self, bytes: &[u8], now: u64) -> (r: Result<usize, KeySetError>)
        ensures
            match key_set_of_bytes(bytes@) {
                Ok(ks) => r == Ok::<usize, KeySetError>(ks.len() as usize) && final(self).fetched_at() == Some(now)
                    && exists|es: Seq<JwkEntry>|
                        jwk_views(es) == ks && final(self).keys() == #[trigger] keys_from_entries(es),
                Err(err) => r == Err::<usize, KeySetError>(err) && final(self).keys() == old(self).keys()
                    && final(self).fetched_at() == old(self).fetched_at(),
            },
    {
        let body = match parse_json_bytes(bytes) {
            Some(b) => b,
            None => return Err(KeySetError::Unreadable),
        };
        let entries = key_set_from_json(&body)?;
        let count = entries.len();
        let ghost es = entries@;
        self.install(entries, now);
        assert(jwk_views(es).len() == count);
        Ok(count)
    }

    /// The cached key with id `kid`.
    pub fn key_for(&self, kid: &str) -> (r: Option<&JwkEntry>)
        ensures
            match r {
                Some(k) => self.keys().contains_key(kid@) && self.keys()[kid@] == *k,
                None => !self.keys().contains_key(kid@),
            },
    {
        self.keys.get(kid)
    }
}

/// Decodes the modulus and exponent of `jwk`, ready for checking a signature.
pub fn key_material(jwk: &JwkEntry) -> (r: TokenStep)
    ensures
        key_step(*jwk, r),
{
    let n = match decode_base64url(jwk.n.as_str()) {
        Some(b) => b,
        None => return TokenStep::Reject(AuthError::BadModulus),
    };
    let e = match decode_base64url(jwk.e.as_str()) {
        Some(b) => b,
        None => return TokenStep::Reject(AuthError::BadExponent),
    };
    TokenStep::Verify { n, e }
}

/// The first step for `token` with `cache` at time `now`: refuse a token whose
/// header cannot be decoded or names no key; while the cache is fresh, use the
/// key it holds under that id or refuse the token; once it is stale, have the key
/// set fetched again.
pub open spec fn first_step(token: Seq<char>, cache: JwksCache, now: u64, r: TokenStep) -> bool {
    match jwt_header_kid(token) {
        None => r == TokenStep::Reject(AuthError::MalformedHeader),
        Some(None) => r == TokenStep::Reject(AuthError::MissingKid),
        Some(Some(kid)) => if cache.stale_at(now) {
            r matches TokenStep::Refresh { kid: k } && k@ == kid
        } else if cache.keys().contains_key(kid) {
            key_step(cache.keys()[kid], r)
        } else {
            r matches TokenStep::Reject(AuthError::UnknownKidCached(k)) && k@ == kid
        },
    }
}

/// The step after the key set was fetched again into `cache`: use its key with
/// id `kid`, or refuse the token if there is none.
pub open spec fn resumed_step(kid: Seq<char>, cache: JwksCache, r: TokenStep) -> bool {
    if cache.keys().contains_key(kid) {
        key_step(cache.keys()[kid], r)
    } else {
        r matches TokenStep::Reject(AuthError::UnknownKid(k)) && k@ == kid
    }
}

/// The first step for `token` at time `now`, as `first_step` says.
pub fn begin_token_validation(token: &str, cache: &JwksCache, now: u64) -> (r: TokenStep)
    ensures
        first_step(token@, *cache, now, r),
{
    let kid = match decode_header_kid(token) {
        None => return TokenStep::Reject(AuthError::MalformedHeader),
        Some(None) => return TokenStep::Reject(AuthError::MissingKid),
        Some(Some(k)) => k,
    };
    if cache.is_stale(now) {
        return TokenStep::Refresh { kid };
    }
    match cache.key_for(kid.as_str()) {
        Some(jwk) => key_material(jwk),
        None => TokenStep::Reject(AuthError::UnknownKidCached(kid)),
    }
}

/// The step after the key set has been fetched again: use the key with id
/// `kid`, or refuse the token if there is none.
pub fn resume_token_validation(kid: &str, cache: &JwksCache) -> (r: TokenStep)
    ensures
        resumed_step(kid@, *cache, r),
{
    match cache.key_for(kid) {
        Some(jwk) => key_material(jwk),
        None => TokenStep::Reject(AuthError::UnknownKid(kid.to_owned())),
    }
}

/// The last step, for claims whose signature checked out: the Firebase user id,
/// where the issuer is the Firebase Secure Token Service.
pub fn accept_claims(claims: &FirebaseClaims) -> (r: Result<String, AuthError>)
    ensures
        crate::text::has_prefix(claims.iss@, firebase_issuer_prefix()) ==> r == Ok::<String, AuthError>(
            claims.sub,
        ),
        !crate::text::has_prefix(claims.iss@, firebase_issuer_prefix()) ==> (r matches Err(
            AuthError::InvalidIssuer(i),
        ) && i == claims.iss),
{
    if crate::text::starts_with(claims.iss.as_str(), "https://securetoken.google.com/") {
        Ok(claims.sub.clone())
    } else {
        Err(AuthError::InvalidIssuer(claims.iss.clone()))
    }
}

/// The keys, as plain values.
pub open spec fn jwk_views(es: Seq<JwkEntry>) -> Seq<JwkView> {
    es.map_values(|k: JwkEntry| k@)
}

/// The key made of five parts, where each has the type its field needs.
pub open spec fn jwk_from_parts(
    kid: Option<JsonValue>,
    n: Option<JsonValue>,
    e: Option<JsonValue>,
    alg: Option<JsonValue>,
    key_use: Option<JsonValue>,
) -> Option<JwkView> {
    match (json_str(kid), json_str(n), json_str(e), json_optional_text(alg), json_optional_text(key_use)) {
        (Some(k), Some(nn), Some(ee), Some(a), Some(u)) => Some(
            JwkView { kid: k, n: nn, e: ee, alg: a, key_use: u },
        ),
        _ => None,
    }
}

/// The key that the JSON value `v` holds, read as serde reads a key: an object
/// whose members `kid`, `n` and `e` are strings and whose `alg` and `use`, if
/// present, are strings or `null` (other members ignored); or an array of
/// exactly these five in this order.
pub open spec fn jwk_of(v: JsonValue) -> Option<JwkView> {
    match v {
        JsonValue::Object(_) => jwk_from_parts(
            json_get(v, "kid"@),
            json_get(v, "n"@),
            json_get(v, "e"@),
            json_get(v, "alg"@),
            json_get(v, "use"@),
        ),
        JsonValue::Array(items) => if items@.len() == 5 {
            jwk_from_parts(Some(items@[0]), Some(items@[1]), Some(items@[2]), Some(items@[3]), Some(items@[4]))
        } else {
            None
        },
        _ => None,
    }
}

/// The keys that a key-set response holds: its `keys` member, an array each of
/// whose elements is a key; or why it holds none.
pub open spec fn key_set_of(body: JsonValue) -> Result<Seq<JwkView>, KeySetError> {
    if !(body is Object) {
        Err(KeySetError::Unreadable)
    } else {
        match json_get(body, "keys"@) {
            None => Err(KeySetError::MissingKeys),
            Some(JsonValue::Array(items)) => if forall|i: int| 0 <= i < items@.len() ==> #[trigger] jwk_of(items@[i]) is Some {
                Ok(items@.map_values(|x: JsonValue| jwk_of(x)->Some_0))
            } else {
                Err(KeySetError::BadKeys)
            },
            Some(_) => Err(KeySetError::BadKeys),
        }
    }
}

/// The keys that the bytes of a key-set response hold, or why they hold none.
pub open spec fn key_set_of_bytes(bytes: Seq<u8>) -> Result<Seq<JwkView>, KeySetError> {
    match json_of_bytes(bytes) {
        None => Err(KeySetError::Unreadable),
        Some(body) => key_set_of(body),
    }
}

/// A key made of five parts, where each has the type its field needs.
fn jwk_of_parts(
    kid: Option<&JsonValue>,
    n: Option<&JsonValue>,
    e: Option<&JsonValue>,
    alg: Option<&JsonValue>,
    key_use: Option<&JsonValue>,
) -> (r: Option<JwkEntry>)
    ensures
        match r {
            Some(k) => jwk_from_parts(opt_json(kid), opt_json(n), opt_json(e), opt_json(alg), opt_json(key_use)) == Some(k@),
            None => jwk_from_parts(opt_json(kid), opt_json(n), opt_json(e), opt_json(alg), opt_json(key_use)) is None,
        },
{
    let kid = text_part(kid);
    let n = text_part(n);
    let e = text_part(e);
    let alg = optional_text_part(alg);
    let key_use = optional_text_part(key_use);
    match (kid, n, e, alg, key_use) {
        (Some(kid), Some(n), Some(e), Some(alg), Some(key_use)) => Some(JwkEntry { kid, n, e, alg, key_use }),
        _ => None,
    }
}

/// The key that a JSON value holds, as `jwk_of` reads it.
pub fn jwk_from_json(v: &JsonValue) -> (r: Option<JwkEntry>)
    ensures
        match r {
            Some(k) => jwk_of(*v) == Some(k@),
            None => jwk_of(*v) is None,
        },
{
    if v.is_object() {
        jwk_of_parts(v.get("kid"), v.get("n"), v.get("e"), v.get("alg"), v.get("use"))
    } else {
        match v.as_array() {
            Some(items) => if items.len() == 5 {
                jwk_of_parts(Some(&items[0]), Some(&items[1]), Some(&items[2]), Some(&items[3]), Some(&items[4]))
            } else {
                None
            },
            None => None,
        }
    }
}

/// The keys that a key-set response holds, as `key_set_of` reads them.
pub fn key_set_from_json(body: &JsonValue) -> (r: Result<Vec<JwkEntry>, KeySetError>)
    ensures
        match r {
            Ok(es) => key_set_of(*body) == Ok::<Seq<JwkView>, KeySetError>(jwk_views(es@)),
            Err(err) => key_set_of(*body) == Err::<Seq<JwkView>, KeySetError>(err),
        },
{
    if !body.is_object() {
        return Err(KeySetError::Unreadable);
    }
    let keys = match body.get("keys") {
        Some(k) => k,
        None => return Err(KeySetError::MissingKeys),
    };
    let items = match keys.as_array() {
        Some(items) => items,
        None => return Err(KeySetError::BadKeys),
    };
    let mut es: Vec<JwkEntry> = Vec::new();
    let len = items.len();
    let mut i: usize = 0;
    while i < len
        invariant
            len == items@.len(),
            i <= len,
            es@.len() == i,
            *body is Object,
            json_get(*body, "keys"@) == Some(JsonValue::Array(*items)),
            forall|j: int| 0 <= j < i ==> jwk_of(items@[j]) == Some((#[trigger] es@[j])@),
        decreases len - i,
    {
        match jwk_from_json(&items[i]) {
            Some(k) => es.push(k),
            None => {
                assert(jwk_of(items@[i as int]) is None);
                assert(!(forall|j: int| 0 <= j < items@.len() ==> #[trigger] jwk_of(items@[j]) is Some));
                return Err(KeySetError::BadKeys);
            },
        }
        i = i + 1;
    }
    proof {
        assert forall|j: int| 0 <= j < items@.len() implies #[trigger] jwk_of(items@[j]) is Some by {
            assert(jwk_of(items@[j]) == Some(es@[j]@));
        }
        assert(items@.map_values(|x: JsonValue| jwk_of(x)->Some_0) =~= jwk_views(es@));
    }
    Ok(es)
}

/// What `jsonwebtoken::decode` finds in a token with an RS256 key of modulus
/// `n` and exponent `e`, its time checks aside: the token's claims, where its
/// header names RS256 and its signature verifies under that key; `None` otherwise.
pub uninterp spec fn rs256_verified_claims(token: Seq<char>, n: Seq<u8>, e: Seq<u8>) -> Option<JsonValue>;

/// `jsonwebtoken::decode::<serde_json::Value>` with the RSA key
/// `DecodingKey::from_rsa_raw_components(n, e)` and `Validation::new(RS256)` with
/// the audience check off; the claims taken into `JsonValue`. Claims come back
/// only for a token whose RS256 signature verifies under the key (what
/// `rs256_verified_claims` names); whether they come back also rests on the
/// clock (the `exp` check), which is not stated. jsonwebtoken reads the clock
/// itself and panics if it reads a time before the Unix epoch.
#[verifier::external_body]
fn decode_verified_claims(token: &str, n: &Vec<u8>, e: &Vec<u8>) -> (r: Option<JsonValue>)
    ensures
        r matches Some(c) ==> rs256_verified_claims(token@, n@, e@) == Some(c),
{
    let key = DecodingKey::from_rsa_raw_components(n, e);
    let mut validation = Validation::new(Algorithm::RS256);
    validation.validate_aud = false;
    jsonwebtoken::decode::<serde_json::Value>(token, &key, &validation).ok().map(|d| from_serde_value(d.claims))
}

/// The text a part holds, where it is a string.
fn text_part(v: Option<&JsonValue>) -> (r: Option<String>)
    ensures
        match r {
            Some(s) => json_str(opt_json(v)) == Some(s@),
            None => json_str(opt_json(v)) is None,
        },
{
    match v {
        Some(x) => match x.as_str() {
            Some(s) => Some(s.clone()),
            None => None,
        },
        None => None,
    }
}

/// The whole number a part holds, where it fits in a `usize`.
fn usize_part(v: Option<&JsonValue>) -> (r: Option<usize>)
    ensures
        r == json_usize(opt_json(v)),
{
    let n = match v {
        Some(x) => x.as_u64(),
        None => None,
    };
    match n {
        Some(n) => if n <= usize::MAX as u64 {
            Some(n as usize)
        } else {
            None
        },
        None => None,
    }
}

/// An optional text part: absent or `null` gives no text, a string its text.
fn optional_text_part(v: Option<&JsonValue>) -> (r: Option<Option<String>>)
    ensures
        opt_opt_text(r) == json_optional_text(opt_json(v)),
{
    match v {
        None => Some(None),
        Some(x) => if x.is_null() {
            Some(None)
        } else {
            match x.as_str() {
                Some(s) => Some(Some(s.clone())),
                None => None,
            }
        },
    }
}

/// The claims made of six parts, where each has the type its claim needs.
fn claims_of_parts(
    sub: Option<&JsonValue>,
    aud: Option<&JsonValue>,
    iss: Option<&JsonValue>,
    exp: Option<&JsonValue>,
    iat: Option<&JsonValue>,
    email: Option<&JsonValue>,
) -> (r: Option<FirebaseClaims>)
    ensures
        match r {
            Some(c) => claims_from_parts(opt_json(sub), opt_json(aud), opt_json(iss), opt_json(exp), opt_json(iat), opt_json(email)) == Some(c@),
            None => claims_from_parts(opt_json(sub), opt_json(aud), opt_json(iss), opt_json(exp), opt_json(iat), opt_json(email)) is None,
        },
{
    let sub = text_part(sub);
    let aud = text_part(aud);
    let iss = text_part(iss);
    let exp = usize_part(exp);
    let iat = usize_part(iat);
    let email = optional_text_part(email);
    match (sub, aud, iss, exp, iat, email) {
        (Some(sub), Some(aud), Some(iss), Some(exp), Some(iat), Some(email)) => Some(
            FirebaseClaims { sub, aud, iss, exp, iat, email },
        ),
        _ => None,
    }
}

/// The Firebase claims that a JSON value holds, as `claims_view` reads them.
pub fn claims_from_json(c: &JsonValue) -> (r: Option<FirebaseClaims>)
    ensures
        match r {
            Some(fc) => claims_view(*c) == Some(fc@),
            None => claims_view(*c) is None,
        },
{
    if c.is_object() {
        claims_of_parts(
            c.get("sub"),
            c.get("aud"),
            c.get("iss"),
            c.get("exp"),
            c.get("iat"),
            c.get("email"),
        )
    } else {
        match c.as_array() {
            Some(items) => if items.len() == 6 {
                claims_of_parts(
                    Some(&items[0]),
                    Some(&items[1]),
                    Some(&items[2]),
                    Some(&items[3]),
                    Some(&items[4]),
                    Some(&items[5]),
                )
            } else {
                None
            },
            None => None,
        }
    }
}

/// What the claims of a checked token lead to: refused where there are none or
/// they are not Firebase claims; otherwise the user id where the issuer is the
/// Firebase Secure Token Service, and `InvalidIssuer` where it is not.
pub open spec fn claims_outcome_of(decoded: Option<JsonValue>, r: Result<String, AuthError>) -> bool {
    match decoded {
        None => r == Err::<String, AuthError>(AuthError::TokenRejected),
        Some(c) => match claims_view(c) {
            None => r == Err::<String, AuthError>(AuthError::TokenRejected),
            Some(v) => if has_prefix(v.iss, firebase_issuer_prefix()) {
                r matches Ok(uid) && uid@ == v.sub
            } else {
                r matches Err(AuthError::InvalidIssuer(i)) && i@ == v.iss
            },
        },
    }
}

/// The outcome for the claims that the signature check gave (`None` where it refused the token).
pub fn claims_outcome(decoded: Option<JsonValue>) -> (r: Result<String, AuthError>)
    ensures
        claims_outcome_of(decoded, r),
{
    match decoded {
        None => Err(AuthError::TokenRejected),
        Some(c) => match claims_from_json(&c) {
            None => Err(AuthError::TokenRejected),
            Some(fc) => accept_claims(&fc),
        },
    }
}

/// What checking `token` with the RSA key (`n`, `e`) may lead to: the outcome
/// for the claims the signature check gives, which are the token's claims under
/// that key (`rs256_verified_claims`) or none (the token refused, as when it has
/// expired).
pub open spec fn token_check_outcome(token: Seq<char>, n: Seq<u8>, e: Seq<u8>, r: Result<String, AuthError>) -> bool {
    exists|d: Option<JsonValue>|
        #[trigger] claims_outcome_of(d, r) && (d matches Some(c) ==> rs256_verified_claims(token, n, e) == Some(c))
}

/// The last step: checks the token's RS256 signature and expiry with the RSA key
/// (`n`, `e`) and reads its claims; the user id comes back only for a token
/// signed with that key and issued by the Firebase Secure Token Service.
pub fn finish_token_validation(token: &str, n: &Vec<u8>, e: &Vec<u8>) -> (r: Result<String, AuthError>)
    ensures
        token_check_outcome(token@, n@, e@, r),
{
    let decoded = decode_verified_claims(token, n, e);
    let ghost d = decoded;
    let r = claims_outcome(decoded);
    assert(claims_outcome_of(d, r));
    r
}

/// A token is accepted only if it is signed with the key it names: where the
/// key step for `jwk` led to checking with (`n`, `e`) and the check gave a user
/// id, the token's RS256 signature verifies under the key decoded from `jwk`, its
/// claims are Firebase claims with that user id, and its issuer is the Firebase
/// Secure Token Service.
pub proof fn lemma_accepted_token_is_signed(
    jwk: JwkEntry,
    token: Seq<char>,
    n: Vec<u8>,
    e: Vec<u8>,
    r: Result<String, AuthError>,
)
    requires
        key_step(jwk, TokenStep::Verify { n, e }),
        token_check_outcome(token, n@, e@, r),
        r is Ok,
    ensures
        base64url_decoded(jwk.n@) == Some(n@),
        base64url_decoded(jwk.e@) == Some(e@),
        r matches Ok(uid) && exists|c: JsonValue|
            #[trigger] rs256_verified_claims(token, n@, e@) == Some(c) && (claims_view(c) matches Some(v)
                && uid@ == v.sub && has_prefix(v.iss, firebase_issuer_prefix())),
{
    let d = choose|d: Option<JsonValue>|
        #[trigger] claims_outcome_of(d, r) && (d matches Some(c) ==> rs256_verified_claims(token, n@, e@) == Some(c));
    let c = d->Some_0;
    assert(rs256_verified_claims(token, n@, e@) == Some(c));
}

/// A token is accepted only if it is signed with the key that its header names,
/// taken from a fresh cache: where the first step for `token` went straight to
/// checking with (`n`, `e`) and the check gave a user id, the header names a key
/// id that the cache, fresh at `now`, holds; (`n`, `e`) are that key's modulus
/// and exponent decoded; and the token's RS256 signature verifies under them,
/// with Firebase claims of that user id and issuer.
pub proof fn lemma_accepted_token_signed_by_cached_key(
    token: Seq<char>,
    cache: JwksCache,
    now: u64,
    n: Vec<u8>,
    e: Vec<u8>,
    r: Result<String, AuthError>,
)
    requires
        first_step(token, cache, now, TokenStep::Verify { n, e }),
        token_check_outcome(token, n@, e@, r),
        r is Ok,
    ensures
        exists|kid: Seq<char>|
            #[trigger] jwt_header_kid(token) == Some(Some(kid)) && !cache.stale_at(now)
                && cache.keys().contains_key(kid) && base64url_decoded(cache.keys()[kid].n@) == Some(n@)
                && base64url_decoded(cache.keys()[kid].e@) == Some(e@),
        r matches Ok(uid) && exists|c: JsonValue|
            #[trigger] rs256_verified_claims(token, n@, e@) == Some(c) && (claims_view(c) matches Some(v)
                && uid@ == v.sub && has_prefix(v.iss, firebase_issuer_prefix())),
{
    let kid = jwt_header_kid(token)->Some_0->Some_0;
    lemma_accepted_token_is_signed(cache.keys()[kid], token, n, e, r);
}

/// The same where the key set had to be fetched again: where the first step for
/// `token` asked for the key set to be fetched again for key id `kid`, the step
/// after that fetch (into `fetched`) went on to check with (`n`, `e`), and the
/// check gave a user id, then `kid` is the key id that the token's header names;
/// the fetched key set holds a key with that id whose modulus and exponent
/// decode to (`n`, `e`); and the token's RS256 signature verifies under them,
/// with Firebase claims of that user id and issuer.
pub proof fn lemma_accepted_token_signed_by_fetched_key(
    token: Seq<char>,
    cache: JwksCache,
    now: u64,
    kid: String,
    fetched: JwksCache,
    n: Vec<u8>,
    e: Vec<u8>,
    r: Result<String, AuthError>,
)
    requires
        first_step(token, cache, now, TokenStep::Refresh { kid }),
        resumed_step(kid@, fetched, TokenStep::Verify { n, e }),
        token_check_outcome(token, n@, e@, r),
        r is Ok,
    ensures
        jwt_header_kid(token) == Some(Some(kid@)),
        fetched.keys().contains_key(kid@),
        base64url_decoded(fetched.keys()[kid@].n@) == Some(n@),
        base64url_decoded(fetched.keys()[kid@].e@) == Some(e@),
        r matches Ok(uid) && exists|c: JsonValue|
            #[trigger] rs256_verified_claims(token, n@, e@) == Some(c) && (claims_view(c) matches Some(v)
                && uid@ == v.sub && has_prefix(v.iss, firebase_issuer_prefix())),
{
    lemma_accepted_token_is_signed(fetched.keys()[kid@], token, n, e, r);
}

/// A key set stays fresh until an hour after it was fetched: no token check in
/// that time asks for it to be fetched again.
pub proof fn lemma_cache_fresh_for_an_hour(c: JwksCache, now: u64)
    requires
        c.fetched_at() matches Some(t) && now <= t + JWKS_CACHE_TTL_NANOS,
    ensures
        !c.stale_at(now),
{
}

/// A key set fetched more than an hour before is stale, as is one never fetched.
pub proof fn lemma_cache_stale_after_an_hour(c: JwksCache, now: u64)
    requires
        c.fetched_at() matches Some(t) ==> now > t + JWKS_CACHE_TTL_NANOS,
    ensures
        c.stale_at(now),
{
}

} // verus!
