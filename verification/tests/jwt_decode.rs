use base64::Engine;
use rsa::signature::{SignatureEncoding, Signer};
use rsa::traits::PublicKeyParts;

use ssp_backend::jwk::{Auth0JWK, Auth0JWKSet};
use ssp_backend::jwt::{decode_jwt, JwtError, ValidationError, AUTH0_AUDIENCE, AUTH0_ISSUER};

const NOW: u64 = 1704063600;
const TEST_SUB: &str = "test_sub";
const TEST_DB_ID: &str = "fafc11f5-c784-4cbe-9fbf-207889afd519";

fn b64url(data: &[u8]) -> String {
    base64::engine::general_purpose::URL_SAFE_NO_PAD.encode(data)
}

fn make_key() -> rsa::RsaPrivateKey {
    rsa::RsaPrivateKey::new(&mut rand::thread_rng(), 2048).unwrap()
}

fn jwks_for(key: &rsa::RsaPrivateKey, kid: &str) -> Auth0JWKSet {
    let public = key.to_public_key();
    Auth0JWKSet {
        keys: vec![Auth0JWK {
            kty: "RSA".to_string(),
            key_use: "sig".to_string(),
            n: b64url(&public.n().to_bytes_be()),
            e: b64url(&public.e().to_bytes_be()),
            kid: kid.to_string(),
            x5t: "thumb".to_string(),
            x5c: vec!["cert".to_string()],
            alg: "RS256".to_string(),
        }],
    }
}

fn sign_token(key: &rsa::RsaPrivateKey, header: &str, payload: &str) -> String {
    let message = format!("{}.{}", b64url(header.as_bytes()), b64url(payload.as_bytes()));
    let signing_key = rsa::pkcs1v15::SigningKey::<sha2::Sha256>::new(key.clone());
    let signature = signing_key.sign(message.as_bytes());
    format!("{}.{}", message, b64url(&signature.to_bytes()))
}

fn payload(iss: &str, aud: &str, iat: u64, exp: u64, sub: &str, nonce: &str) -> String {
    format!(
        "{{\"iss\":\"{}\",\"aud\":\"{}\",\"iat\":{},\"exp\":{},\"sub\":\"{}\",\"nonce\":\"{}\",\"https://hasura.io/jwt/claims\":{{\"x-hasura-default-role\":\"user\",\"x-hasura-allowed-roles\":[\"user\",\"admin\"],\"x-hasura-user-id\":\"{}\"}}}}",
        iss, aud, iat, exp, sub, nonce, TEST_DB_ID
    )
}

fn header(kid: &str) -> String {
    format!("{{\"alg\":\"RS256\",\"typ\":\"JWT\",\"kid\":\"{}\"}}", kid)
}

#[test]
fn decodes_a_valid_token() {
    let key = make_key();
    let jwks = jwks_for(&key, "key-1");
    let token = sign_token(
        &key,
        &header("key-1"),
        &payload(AUTH0_ISSUER, AUTH0_AUDIENCE, NOW, NOW + 36000, TEST_SUB, "00ff"),
    );
    let claims = decode_jwt(&token, Some(&jwks)).unwrap();
    assert_eq!(claims.iss, AUTH0_ISSUER);
    assert_eq!(claims.aud, AUTH0_AUDIENCE);
    assert_eq!(claims.iat, NOW);
    assert_eq!(claims.exp, NOW + 36000);
    assert_eq!(claims.sub, TEST_SUB);
    assert_eq!(claims.nonce, "00ff");
    let hasura = claims.hasura_claims.as_ref().unwrap();
    assert_eq!(hasura.x_hasura_user_id, TEST_DB_ID);
    assert_eq!(hasura.x_hasura_default_role, "user");
    assert_eq!(hasura.x_hasura_allowed_roles, vec!["user", "admin"]);
    assert_eq!(claims.user_id().unwrap(), TEST_DB_ID);
    assert_eq!(claims.expiration_timestamp_ns(), (NOW + 36000) * 1_000_000_000);
    claims.validate(NOW).unwrap();
}

#[test]
fn rejects_missing_jwks_and_bad_structure() {
    let key = make_key();
    let jwks = jwks_for(&key, "key-1");
    let token = sign_token(
        &key,
        &header("key-1"),
        &payload(AUTH0_ISSUER, AUTH0_AUDIENCE, NOW, NOW + 36000, TEST_SUB, "00ff"),
    );
    assert_eq!(decode_jwt(&token, None).unwrap_err(), JwtError::NoWorkingKey);
    assert_eq!(
        decode_jwt("no-dots-here", Some(&jwks)).unwrap_err(),
        JwtError::InvalidToken
    );
    assert_eq!(
        decode_jwt("one.dot", Some(&jwks)).unwrap_err(),
        JwtError::InvalidToken
    );
}

#[test]
fn rejects_wrong_algorithm_and_unknown_kid() {
    let key = make_key();
    let jwks = jwks_for(&key, "key-1");
    let hs_token = sign_token(
        &key,
        "{\"alg\":\"HS256\",\"typ\":\"JWT\",\"kid\":\"key-1\"}",
        &payload(AUTH0_ISSUER, AUTH0_AUDIENCE, NOW, NOW + 36000, TEST_SUB, "00ff"),
    );
    assert_eq!(
        decode_jwt(&hs_token, Some(&jwks)).unwrap_err(),
        JwtError::InvalidAlgorithm
    );
    let unknown_kid = sign_token(
        &key,
        &header("other-key"),
        &payload(AUTH0_ISSUER, AUTH0_AUDIENCE, NOW, NOW + 36000, TEST_SUB, "00ff"),
    );
    assert_eq!(
        decode_jwt(&unknown_kid, Some(&jwks)).unwrap_err(),
        JwtError::NoWorkingKey
    );
}

#[test]
fn rejects_a_forged_signature() {
    let key = make_key();
    let other_key = make_key();
    let jwks = jwks_for(&key, "key-1");
    let forged = sign_token(
        &other_key,
        &header("key-1"),
        &payload(AUTH0_ISSUER, AUTH0_AUDIENCE, NOW, NOW + 36000, TEST_SUB, "00ff"),
    );
    assert_eq!(
        decode_jwt(&forged, Some(&jwks)).unwrap_err(),
        JwtError::InvalidSignature
    );
}

#[test]
fn validates_standard_claims() {
    let key = make_key();
    let jwks = jwks_for(&key, "key-1");

    let expired = decode_jwt(
        &sign_token(
            &key,
            &header("key-1"),
            &payload(AUTH0_ISSUER, AUTH0_AUDIENCE, NOW - 7200, NOW - 3600, TEST_SUB, "00"),
        ),
        Some(&jwks),
    )
    .unwrap();
    assert_eq!(expired.validate(NOW).unwrap_err(), ValidationError::TokenExpired);

    let stale = decode_jwt(
        &sign_token(
            &key,
            &header("key-1"),
            &payload(AUTH0_ISSUER, AUTH0_AUDIENCE, NOW - 601, NOW + 3600, TEST_SUB, "00"),
        ),
        Some(&jwks),
    )
    .unwrap();
    assert_eq!(stale.validate(NOW).unwrap_err(), ValidationError::IatTooOld);

    let wrong_iss = decode_jwt(
        &sign_token(
            &key,
            &header("key-1"),
            &payload("https://other.example.com/", AUTH0_AUDIENCE, NOW, NOW + 3600, TEST_SUB, "00"),
        ),
        Some(&jwks),
    )
    .unwrap();
    assert_eq!(wrong_iss.validate(NOW).unwrap_err(), ValidationError::IssuerMismatch);

    let wrong_aud = decode_jwt(
        &sign_token(
            &key,
            &header("key-1"),
            &payload(AUTH0_ISSUER, "another-audience", NOW, NOW + 3600, TEST_SUB, "00"),
        ),
        Some(&jwks),
    )
    .unwrap();
    assert_eq!(wrong_aud.validate(NOW).unwrap_err(), ValidationError::AudienceMismatch);
}

#[test]
fn parses_a_token_without_nested_claims() {
    let key = make_key();
    let jwks = jwks_for(&key, "key-1");
    let plain = format!(
        "{{\"iss\":\"{}\",\"aud\":\"{}\",\"iat\":{},\"exp\":{},\"sub\":\"{}\",\"nonce\":\"aa\"}}",
        AUTH0_ISSUER,
        AUTH0_AUDIENCE,
        NOW,
        NOW + 3600,
        TEST_SUB
    );
    let claims = decode_jwt(&sign_token(&key, &header("key-1"), &plain), Some(&jwks)).unwrap();
    assert!(claims.hasura_claims.is_none());
    assert!(claims.user_id().is_none());
}

#[test]
fn find_key_returns_the_matching_key() {
    let key = make_key();
    let jwks = jwks_for(&key, "key-1");
    assert!(jwks.find_key("key-1").is_some());
    assert!(jwks.find_key("missing").is_none());
    assert_eq!(jwks.find_key("key-1").unwrap().kid, "key-1");
}
