//! Compact JWS decoding and claim validation.  A token is three dot-
//! separated segments; the header is checked for the expected algorithm
//! and a key id, the signature is verified against the provider's key
//! set, and the payload is parsed into the claims.  Claim validation
//! checks expiry, issue age, issuer and audience against the deployment
//! constants.

use vstd::prelude::*;

use base64::Engine;

use crate::cbor::spec_opt_view;
use crate::jwk::{spec_find_key, Auth0JWK, Auth0JWKSet};
use crate::strutil::str_eq;

verus! {

/// The token issuer accepted by this deployment, with its trailing slash.
pub const AUTH0_ISSUER: &'static str = "https://auth.example.com/";

/// The token audience accepted by this deployment.
pub const AUTH0_AUDIENCE: &'static str = "ssp-backend";

/// The greatest accepted age of a token, measured on the `iat` claim.
pub const MAX_IAT_AGE_SECONDS: u64 = 600;

pub const NANOS_IN_SECONDS: u64 = 1_000_000_000;

/// The nested claims of the `https://hasura.io/jwt/claims` object.
#[derive(Debug, Clone)]
pub struct HasuraJWTClaims {
    pub x_hasura_default_role: String,
    pub x_hasura_allowed_roles: Vec<String>,
    pub x_hasura_user_id: String,
}

/// The claims of an identity token.
#[derive(Debug, Clone)]
pub struct JWTClaims {
    pub iss: String,
    pub aud: String,
    pub iat: u64,
    pub exp: u64,
    pub sub: String,
    pub nonce: String,
    pub hasura_claims: Option<HasuraJWTClaims>,
}

/// The character-level view of the nested claims.
pub struct HasuraJWTClaimsView {
    pub x_hasura_default_role: Seq<char>,
    pub x_hasura_allowed_roles: Seq<Seq<char>>,
    pub x_hasura_user_id: Seq<char>,
}

/// The character-level view of the claims.
pub struct JWTClaimsView {
    pub iss: Seq<char>,
    pub aud: Seq<char>,
    pub iat: u64,
    pub exp: u64,
    pub sub: Seq<char>,
    pub nonce: Seq<char>,
    pub hasura_claims: Option<HasuraJWTClaimsView>,
}

impl View for HasuraJWTClaims {
    type V = HasuraJWTClaimsView;

    open spec fn view(&self) -> HasuraJWTClaimsView {
        HasuraJWTClaimsView {
            x_hasura_default_role: self.x_hasura_default_role@,
            x_hasura_allowed_roles: self.x_hasura_allowed_roles@.map_values(|s: String| s@),
            x_hasura_user_id: self.x_hasura_user_id@,
        }
    }
}

impl View for JWTClaims {
    type V = JWTClaimsView;

    open spec fn view(&self) -> JWTClaimsView {
        JWTClaimsView {
            iss: self.iss@,
            aud: self.aud@,
            iat: self.iat,
            exp: self.exp,
            sub: self.sub@,
            nonce: self.nonce@,
            hasura_claims: match self.hasura_claims {
                Some(h) => Some(h@),
                None => None,
            },
        }
    }
}

/// The ways decoding a token fails.
#[derive(Debug, Clone, Copy, PartialEq, Eq, Structural)]
pub enum JwtError {
    /// Malformed structure: wrong segment count, bad encoding, bad JSON,
    /// or a missing key id.
    InvalidToken,
    /// No key set is available, or no key bears the token's key id.
    NoWorkingKey,
    /// The header names an algorithm other than the expected one.
    InvalidAlgorithm,
    /// The signature does not verify under the named key.
    InvalidSignature,
}

impl JwtError {
    /// The text under which this error is reported.
    pub fn message(&self) -> (s: String)
        ensures
            s@ == self.spec_message(),
    {
        match self {
            JwtError::InvalidToken => String::from_str("InvalidToken"),
            JwtError::NoWorkingKey => String::from_str("NoWorkingKey"),
            JwtError::InvalidAlgorithm => String::from_str("InvalidAlgorithm"),
            JwtError::InvalidSignature => String::from_str("InvalidSignature"),
        }
    }

    pub open spec fn spec_message(&self) -> Seq<char> {
        match self {
            JwtError::InvalidToken => "InvalidToken"@,
            JwtError::NoWorkingKey => "NoWorkingKey"@,
            JwtError::InvalidAlgorithm => "InvalidAlgorithm"@,
            JwtError::InvalidSignature => "InvalidSignature"@,
        }
    }
}

/// The ways claim validation fails.
#[derive(Debug, Clone, Copy, PartialEq, Eq, Structural)]
pub enum ValidationError {
    TokenExpired,
    IatTooOld,
    IssuerMismatch,
    AudienceMismatch,
}

impl ValidationError {
    /// The text under which this error is reported.
    pub fn message(&self) -> (s: String)
        ensures
            s@ == self.spec_message(),
    {
        match self {
            ValidationError::TokenExpired => String::from_str("TokenExpired"),
            ValidationError::IatTooOld => String::from_str("IatTooOld"),
            ValidationError::IssuerMismatch => String::from_str("IssuerMismatch"),
            ValidationError::AudienceMismatch => String::from_str("AudienceMismatch"),
        }
    }

    pub open spec fn spec_message(&self) -> Seq<char> {
        match self {
            ValidationError::TokenExpired => "TokenExpired"@,
            ValidationError::IatTooOld => "IatTooOld"@,
            ValidationError::IssuerMismatch => "IssuerMismatch"@,
            ValidationError::AudienceMismatch => "AudienceMismatch"@,
        }
    }
}

/// The outcome of validating claims at a given time, in checking order:
/// expiry, issue age, issuer, audience.
pub open spec fn spec_validate(c: JWTClaimsView, now: u64) -> Result<(), ValidationError> {
    if c.exp < now {
        Err(ValidationError::TokenExpired)
    } else if c.iat + MAX_IAT_AGE_SECONDS < now {
        Err(ValidationError::IatTooOld)
    } else if c.iss != AUTH0_ISSUER@ {
        Err(ValidationError::IssuerMismatch)
    } else if c.aud != AUTH0_AUDIENCE@ {
        Err(ValidationError::AudienceMismatch)
    } else {
        Ok(())
    }
}

/// A token expiry in seconds, as nanoseconds since the epoch, saturating
/// at the largest representable timestamp.
pub open spec fn spec_exp_ns(exp: u64) -> u64 {
    if exp <= u64::MAX / NANOS_IN_SECONDS {
        (exp * NANOS_IN_SECONDS) as u64
    } else {
        u64::MAX
    }
}

impl JWTClaims {
    /// The expiration of this token in nanoseconds since the epoch,
    /// saturating at the largest representable timestamp.
    pub fn expiration_timestamp_ns(&self) -> (r: u64)
        ensures
            r == spec_exp_ns(self.exp),
    {
        if self.exp <= u64::MAX / NANOS_IN_SECONDS {
            self.exp * NANOS_IN_SECONDS
        } else {
            u64::MAX
        }
    }

    /// Validates the standard claims at the given time: the token must
    /// not be expired, must have been issued within the accepted age, and
    /// must carry the deployment's issuer and audience.
    pub fn validate(&self, now: u64) -> (r: Result<(), ValidationError>)
        ensures
            r == spec_validate(self@, now),
    {
        if self.exp < now {
            return Err(ValidationError::TokenExpired);
        }
        if self.iat <= u64::MAX - MAX_IAT_AGE_SECONDS && self.iat + MAX_IAT_AGE_SECONDS < now {
            return Err(ValidationError::IatTooOld);
        }
        if !str_eq(self.iss.as_str(), AUTH0_ISSUER) {
            return Err(ValidationError::IssuerMismatch);
        }
        if !str_eq(self.aud.as_str(), AUTH0_AUDIENCE) {
            return Err(ValidationError::AudienceMismatch);
        }
        Ok(())
    }

    /// The user's directory id carried in the nested claims, if present.
    pub fn user_id(&self) -> (r: Option<String>)
        ensures
            match self.hasura_claims {
                Some(h) => r is Some && r.unwrap()@ == h.x_hasura_user_id@,
                None => r is None,
            },
    {
        match &self.hasura_claims {
            Some(h) => Some(h.x_hasura_user_id.clone()),
            None => None,
        }
    }
}

/// What the token's header carries, as a function of the whole token:
/// whether the algorithm is the expected one, and the key id, when the
/// header segment decodes at all.
pub uninterp spec fn jwt_header_of(token: Seq<char>) -> Option<(bool, Option<Seq<char>>)>;

/// The bytes denoted by a URL-safe unpadded base64 text, when it is one.
pub uninterp spec fn b64url_of(s: Seq<char>) -> Option<Seq<u8>>;

/// The top-level claim fields parsed from payload bytes: issuer,
/// audience, issue and expiry timestamps, subject, nonce, and the raw
/// text of the nested claims object, when the payload parses.
pub uninterp spec fn claims_top_of(bytes: Seq<u8>) -> Option<
    (Seq<char>, Seq<char>, u64, u64, Seq<char>, Seq<char>, Option<Seq<char>>),
>;

/// The nested claim fields parsed from the raw nested-claims text: the
/// default role, the allowed roles, and the user id, when the text is an
/// object of that shape.
pub uninterp spec fn hasura_of(s: Seq<char>) -> Option<(Seq<char>, Seq<Seq<char>>, Seq<char>)>;

/// Whether the RSA-SHA-256 signature over the message verifies under the
/// public key given by the base64url-encoded modulus and exponent; absent
/// when the signature or the key cannot be decoded.
pub uninterp spec fn rs256_of(
    signature: Seq<char>,
    message: Seq<char>,
    n: Seq<char>,
    e: Seq<char>,
) -> Option<bool>;

/// Relies on `jsonwebtoken_rustcrypto::decode_header`: the header segment
/// decoded from base64url and parsed as JSON, a function of the token
/// alone.  The result reports whether the algorithm is RS256, and the key
/// id.
#[verifier::external_body]
fn parse_jwt_header(token: &str) -> (r: Option<(bool, Option<String>)>)
    ensures
        r is Some <==> jwt_header_of(token@) is Some,
        r is Some ==> ((r.unwrap().0 == jwt_header_of(token@).unwrap().0) && spec_opt_view(
            r.unwrap().1,
        ) == jwt_header_of(token@).unwrap().1),
{
    let h = jsonwebtoken_rustcrypto::decode_header(token).ok()?;
    Some((matches!(h.alg, jsonwebtoken_rustcrypto::Algorithm::RS256), h.kid))
}

/// Relies on the base64 crate's URL-safe unpadded engine: the decoded
/// bytes, a function of the text alone.
#[verifier::external_body]
fn b64url_decode(s: &str) -> (r: Option<Vec<u8>>)
    ensures
        r is Some <==> b64url_of(s@) is Some,
        r is Some ==> r.unwrap()@ == b64url_of(s@).unwrap(),
{
    base64::engine::general_purpose::URL_SAFE_NO_PAD.decode(s).ok()
}

/// Relies on serde_json: the payload object's fields, a function of the
/// bytes alone.  The nested claims object, when present, is handed back
/// as raw JSON text.
#[verifier::external_body]
fn parse_claims_top(bytes: &Vec<u8>) -> (r: Option<
    (String, String, u64, u64, String, String, Option<String>),
>)
    ensures
        r is Some <==> claims_top_of(bytes@) is Some,
        r is Some ==> ((r.unwrap().0@ == claims_top_of(bytes@).unwrap().0) && (r.unwrap().1@
            == claims_top_of(bytes@).unwrap().1) && (r.unwrap().2 == claims_top_of(
            bytes@,
        ).unwrap().2) && (r.unwrap().3 == claims_top_of(bytes@).unwrap().3) && (r.unwrap().4@
            == claims_top_of(bytes@).unwrap().4) && (r.unwrap().5@ == claims_top_of(
            bytes@,
        ).unwrap().5) && spec_opt_view(r.unwrap().6) == claims_top_of(bytes@).unwrap().6),
{
    let v: serde_json::Value = serde_json::from_slice(bytes).ok()?;
    Some((
        v.get("iss")?.as_str()?.to_string(),
        v.get("aud")?.as_str()?.to_string(),
        v.get("iat")?.as_u64()?,
        v.get("exp")?.as_u64()?,
        v.get("sub")?.as_str()?.to_string(),
        v.get("nonce")?.as_str()?.to_string(),
        match v.get("https://hasura.io/jwt/claims") {
            Some(h) => Some(h.to_string()),
            None => None,
        },
    ))
}

/// Relies on serde_json: the nested claims object's fields, a function of
/// the text alone.
#[verifier::external_body]
fn parse_hasura(s: &str) -> (r: Option<(String, Vec<String>, String)>)
    ensures
        r is Some <==> hasura_of(s@) is Some,
        r is Some ==> ((r.unwrap().0@ == hasura_of(s@).unwrap().0) && (r.unwrap().1@.map_values(
            |x: String| x@,
        ) == hasura_of(s@).unwrap().1) && (r.unwrap().2@ == hasura_of(s@).unwrap().2)),
{
    let v: serde_json::Value = serde_json::from_str(s).ok()?;
    let roles: Vec<String> = serde_json::from_value(v.get("x-hasura-allowed-roles")?.clone()).ok()?;
    Some((
        v.get("x-hasura-default-role")?.as_str()?.to_string(),
        roles,
        v.get("x-hasura-user-id")?.as_str()?.to_string(),
    ))
}

/// Relies on `jsonwebtoken_rustcrypto`: `DecodingKey::from_rsa_components`
/// builds the RSA key from the base64url modulus and exponent, and
/// `crypto::verify` checks the base64url signature over the message under
/// RS256.  Absent when the key or the signature cannot be decoded; the
/// outcome is a function of the four texts alone.
#[verifier::external_body]
fn rs256_verify(signature: &str, message: &str, n: &str, e: &str) -> (r: Option<bool>)
    ensures
        r == rs256_of(signature@, message@, n@, e@),
{
    let key = jsonwebtoken_rustcrypto::DecodingKey::from_rsa_components(n, e).ok()?;
    jsonwebtoken_rustcrypto::crypto::verify(
        signature,
        message,
        &key,
        jsonwebtoken_rustcrypto::Algorithm::RS256,
    ).ok()
}

/// The view of an optional key set reference.
pub open spec fn spec_opt_jwks(jwks: Option<&Auth0JWKSet>) -> Option<Auth0JWKSet> {
    match jwks {
        Some(s) => Some(*s),
        None => None,
    }
}

/// The outcome of decoding a token against a key set: the claims, or the
/// first failure in order.  The token splits at its last two separators;
/// the header must name the expected algorithm and a key id; the key id
/// must be in the key set; the signature must verify; the payload must
/// parse, with the nested claims object, when present, of the required
/// shape.
pub open spec fn spec_decode_jwt(token: Seq<char>, jwks: Option<Auth0JWKSet>) -> Result<
    JWTClaimsView,
    JwtError,
> {
    match token.index_of_last('.') {
        None => Err(JwtError::InvalidToken),
        Some(d2) => match token.take(d2).index_of_last('.') {
            None => Err(JwtError::InvalidToken),
            Some(d1) => {
                let signature = token.skip(d2 + 1);
                let message = token.take(d2);
                let claims_seg = token.subrange(d1 + 1, d2);
                match jwks {
                    None => Err(JwtError::NoWorkingKey),
                    Some(keyset) => match jwt_header_of(token) {
                        None => Err(JwtError::InvalidToken),
                        Some((is_rs256, kid_opt)) => {
                            if !is_rs256 {
                                Err(JwtError::InvalidAlgorithm)
                            } else if kid_opt is None || kid_opt.unwrap().len() == 0 {
                                Err(JwtError::InvalidToken)
                            } else {
                                match spec_find_key(keyset.keys@, kid_opt.unwrap()) {
                                    None => Err(JwtError::NoWorkingKey),
                                    Some(key) => match rs256_of(signature, message, key.n@, key.e@) {
                                        Some(true) => spec_decode_claims(claims_seg),
                                        _ => Err(JwtError::InvalidSignature),
                                    },
                                }
                            }
                        },
                    },
                }
            },
        },
    }
}

/// The claims denoted by the payload segment, or the failure.
pub open spec fn spec_decode_claims(claims_seg: Seq<char>) -> Result<JWTClaimsView, JwtError> {
    match b64url_of(claims_seg) {
        None => Err(JwtError::InvalidToken),
        Some(bytes) => match claims_top_of(bytes) {
            None => Err(JwtError::InvalidToken),
            Some((iss, aud, iat, exp, sub, nonce, hasura_raw)) => match hasura_raw {
                None => Ok(
                    JWTClaimsView { iss, aud, iat, exp, sub, nonce, hasura_claims: None },
                ),
                Some(raw) => match hasura_of(raw) {
                    None => Err(JwtError::InvalidToken),
                    Some((role, roles, uid)) => Ok(
                        JWTClaimsView {
                            iss,
                            aud,
                            iat,
                            exp,
                            sub,
                            nonce,
                            hasura_claims: Some(
                                HasuraJWTClaimsView {
                                    x_hasura_default_role: role,
                                    x_hasura_allowed_roles: roles,
                                    x_hasura_user_id: uid,
                                },
                            ),
                        },
                    ),
                },
            },
        },
    }
}

/// Decodes a compact JWS against the cached key set: splits the token,
/// checks the header's algorithm and key id, verifies the signature, and
/// parses the claims.
pub fn decode_jwt(token: &str, jwks: Option<&Auth0JWKSet>) -> (r: Result<JWTClaims, JwtError>)
    ensures
        r is Ok <==> spec_decode_jwt(token@, spec_opt_jwks(jwks)) is Ok,
        r is Ok ==> r->Ok_0@ == spec_decode_jwt(token@, spec_opt_jwks(jwks))->Ok_0,
        r is Err ==> r->Err_0 == spec_decode_jwt(token@, spec_opt_jwks(jwks))->Err_0,
{
    let n = token.unicode_len();
    let (d1, d2) = match find_last_two_dots(token) {
        Some(p) => p,
        None => {
            return Err(JwtError::InvalidToken);
        },
    };
    let signature = token.substring_char(d2 + 1, n);
    let message = token.substring_char(0, d2);
    let claims_seg = token.substring_char(d1 + 1, d2);
    let keyset = match jwks {
        Some(k) => k,
        None => {
            return Err(JwtError::NoWorkingKey);
        },
    };
    let (is_rs256, kid_opt) = match parse_jwt_header(token) {
        Some(h) => h,
        None => {
            return Err(JwtError::InvalidToken);
        },
    };
    if !is_rs256 {
        return Err(JwtError::InvalidAlgorithm);
    }
    let kid = match kid_opt {
        Some(k) => k,
        None => {
            return Err(JwtError::InvalidToken);
        },
    };
    if kid.as_str().unicode_len() == 0 {
        return Err(JwtError::InvalidToken);
    }
    let key = match keyset.find_key(kid.as_str()) {
        Some(k) => k,
        None => {
            return Err(JwtError::NoWorkingKey);
        },
    };
    match rs256_verify(signature, message, key.n.as_str(), key.e.as_str()) {
        Some(true) => {},
        _ => {
            return Err(JwtError::InvalidSignature);
        },
    }
    let payload = match b64url_decode(claims_seg) {
        Some(p) => p,
        None => {
            return Err(JwtError::InvalidToken);
        },
    };
    let (iss, aud, iat, exp, sub, nonce, hasura_raw) = match parse_claims_top(&payload) {
        Some(t) => t,
        None => {
            return Err(JwtError::InvalidToken);
        },
    };
    let hasura_claims = match hasura_raw {
        None => None,
        Some(raw) => match parse_hasura(raw.as_str()) {
            Some((role, roles, uid)) => Some(
                HasuraJWTClaims {
                    x_hasura_default_role: role,
                    x_hasura_allowed_roles: roles,
                    x_hasura_user_id: uid,
                },
            ),
            None => {
                return Err(JwtError::InvalidToken);
            },
        },
    };
    Ok(JWTClaims { iss, aud, iat, exp, sub, nonce, hasura_claims })
}

/// Finds the positions of the last two separators: the result holds the
/// second-to-last and the last index of `'.'`, when there are two.
fn find_last_two_dots(token: &str) -> (r: Option<(usize, usize)>)
    ensures
        match r {
            Some((d1, d2)) => {
                &&& token@.index_of_last('.') == Some(d2 as int)
                &&& token@.take(d2 as int).index_of_last('.') == Some(d1 as int)
                &&& d1 < d2 < token@.len()
            },
            None => token@.index_of_last('.') is None || token@.take(
                token@.index_of_last('.').unwrap(),
            ).index_of_last('.') is None,
        },
{
    let n = token.unicode_len();
    let mut last: Option<usize> = None;
    let mut prev: Option<usize> = None;
    for i in 0..n
        invariant
            n == token@.len(),
            match last {
                Some(l) => {
                    &&& l < i
                    &&& token@[l as int] == '.'
                    &&& forall|j: int| l < j < i ==> token@[j] != '.'
                    &&& match prev {
                        Some(p) => {
                            &&& p < l
                            &&& token@[p as int] == '.'
                            &&& forall|j: int| p < j < l ==> token@[j] != '.'
                        },
                        None => forall|j: int| 0 <= j < l ==> token@[j] != '.',
                    }
                },
                None => prev is None && forall|j: int| 0 <= j < i ==> token@[j] != '.',
            },
    {
        if token.get_char(i) == '.' {
            prev = last;
            last = Some(i);
        }
    }
    proof {
        token@.index_of_last_ensures('.');
    }
    match (prev, last) {
        (Some(d1), Some(d2)) => {
            proof {
                let s = token@;
                assert(s.contains('.')) by {
                    assert(s[d2 as int] == '.');
                }
                let w = s.index_of_last('.').unwrap();
                assert(w == d2) by {
                    if w < d2 {
                        assert(s[d2 as int] == '.');
                    }
                    if w > d2 {
                        assert(s[w] != '.');
                    }
                }
                let t = s.take(d2 as int);
                t.index_of_last_ensures('.');
                assert(t.contains('.')) by {
                    assert(t[d1 as int] == '.');
                }
                let w1 = t.index_of_last('.').unwrap();
                assert(w1 == d1) by {
                    if w1 < d1 {
                        assert(t[d1 as int] == '.');
                    }
                    if w1 > d1 {
                        assert(t[w1] != '.');
                    }
                }
            }
            Some((d1, d2))
        },
        (None, Some(d2)) => {
            proof {
                let s = token@;
                assert(s.contains('.')) by {
                    assert(s[d2 as int] == '.');
                }
                let w = s.index_of_last('.').unwrap();
                assert(w == d2) by {
                    if w < d2 {
                        assert(s[d2 as int] == '.');
                    }
                    if w > d2 {
                        assert(s[w] != '.');
                    }
                }
                let t = s.take(d2 as int);
                t.index_of_last_ensures('.');
                if t.contains('.') {
                    let w1 = t.index_of_last('.').unwrap();
                    assert(t[w1] == '.');
                    assert(s[w1] == '.');
                    assert(false);
                }
            }
            None
        },
        _ => {
            proof {
                let s = token@;
                if s.contains('.') {
                    let w = s.index_of_last('.').unwrap();
                    assert(s[w] == '.');
                    assert(false);
                }
            }
            None
        },
    }
}

} // verus!
