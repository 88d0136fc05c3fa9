use base64::Engine;
use rsa::signature::{SignatureEncoding, Signer};
use rsa::traits::PublicKeyParts;

use ssp_backend::delegation::DelegationRepository;
use ssp_backend::delegation_service::{DelegationService, GetDelegationResponse};
use ssp_backend::jwk::{Auth0JWK, Auth0JWKSet};
use ssp_backend::jwt::{AUTH0_AUDIENCE, AUTH0_ISSUER};
use ssp_backend::principal::UserPrincipal;
use ssp_backend::user::UserRepository;

const NOW_NS: u64 = 1704063600_000_000_000;
const NOW_S: u64 = 1704063600;
const TEST_SUB: &str = "test_sub";
const TEST_DB_ID: &str = "fafc11f5-c784-4cbe-9fbf-207889afd519";

fn b64url(data: &[u8]) -> String {
    base64::engine::general_purpose::URL_SAFE_NO_PAD.encode(data)
}

fn make_key() -> rsa::RsaPrivateKey {
    rsa::RsaPrivateKey::new(&mut rand::thread_rng(), 2048).unwrap()
}

fn jwks_for(key: &rsa::RsaPrivateKey, kid: &str) -> Auth0JWKSet {
    let public = key.to_public_key();
    Auth0JWKSet {
        keys: vec![Auth0JWK {
            kty: "RSA".to_string(),
            key_use: "sig".to_string(),
            n: b64url(&public.n().to_bytes_be()),
            e: b64url(&public.e().to_bytes_be()),
            kid: kid.to_string(),
            x5t: "thumb".to_string(),
            x5c: vec!["cert".to_string()],
            alg: "RS256".to_string(),
        }],
    }
}

fn sign_token(key: &rsa::RsaPrivateKey, sub: &str, nonce: &str, iat: u64, exp: u64) -> String {
    let header = "{\"alg\":\"RS256\",\"typ\":\"JWT\",\"kid\":\"key-1\"}";
    let payload = format!(
        "{{\"iss\":\"{}\",\"aud\":\"{}\",\"iat\":{},\"exp\":{},\"sub\":\"{}\",\"nonce\":\"{}\",\"https://hasura.io/jwt/claims\":{{\"x-hasura-default-role\":\"user\",\"x-hasura-allowed-roles\":[\"user\"],\"x-hasura-user-id\":\"{}\"}}}}",
        AUTH0_ISSUER, AUTH0_AUDIENCE, iat, exp, sub, nonce, TEST_DB_ID
    );
    let message = format!("{}.{}", b64url(header.as_bytes()), b64url(payload.as_bytes()));
    let signing_key = rsa::pkcs1v15::SigningKey::<sha2::Sha256>::new(key.clone());
    let signature = signing_key.sign(message.as_bytes());
    format!("{}.{}", message, b64url(&signature.to_bytes()))
}

struct Env {
    repo: DelegationRepository,
    users: UserRepository,
    service: DelegationService,
    session_key: Vec<u8>,
    caller: UserPrincipal,
    jwt: String,
    canister_id: Vec<u8>,
}

fn setup() -> Env {
    let key = make_key();
    let jwks = jwks_for(&key, "key-1");
    let mut repo = DelegationRepository::new();
    let service = DelegationService::new();
    service.set_jwks(&mut repo, jwks).unwrap();
    service.ensure_salt_initialized(&mut repo, [42u8; 32]);

    let session_key = vec![0x11u8, 0x22, 0x33, 0x44];
    let nonce = hex::encode(&session_key);
    let caller = UserPrincipal::self_authenticating(&session_key);
    let jwt = sign_token(&key, TEST_SUB, &nonce, NOW_S, NOW_S + 36000);
    Env {
        repo,
        users: UserRepository::new(),
        service,
        session_key,
        caller,
        jwt,
        canister_id: vec![0u8, 0, 0, 0, 0, 0, 0, 1, 1, 1],
    }
}

#[test]
fn set_jwks_rejects_a_second_installation() {
    let key = make_key();
    let mut repo = DelegationRepository::new();
    let service = DelegationService::new();
    service.set_jwks(&mut repo, jwks_for(&key, "key-1")).unwrap();
    let err = service.set_jwks(&mut repo, jwks_for(&key, "key-2")).unwrap_err();
    assert!(err.contains("JWKS already set"));
    assert_eq!(service.get_jwks(&repo).unwrap().keys[0].kid, "key-1");
}

#[test]
fn salt_is_initialized_once() {
    let mut repo = DelegationRepository::new();
    let service = DelegationService::new();
    assert!(repo.salt_is_empty());
    service.ensure_salt_initialized(&mut repo, [1u8; 32]);
    assert_eq!(repo.get_salt(), [1u8; 32]);
    service.ensure_salt_initialized(&mut repo, [2u8; 32]);
    assert_eq!(repo.get_salt(), [1u8; 32]);
}

#[test]
fn prepare_then_get_returns_the_signed_delegation() {
    let mut env = setup();
    let resp = env
        .service
        .prepare_delegation(
            &mut env.repo,
            &mut env.users,
            &env.caller,
            &env.jwt,
            &env.canister_id,
            NOW_NS,
        )
        .unwrap();
    assert_eq!(resp.expiration, (NOW_S + 36000) * 1_000_000_000);
    assert!(resp.user_key.len() > 20);

    let certificate = vec![0xAAu8, 0xBB];
    let got = env
        .service
        .get_delegation(
            &env.repo,
            &env.caller,
            &env.jwt,
            resp.expiration,
            &certificate,
            NOW_NS,
        )
        .unwrap();
    match got {
        GetDelegationResponse::SignedDelegation(sd) => {
            assert_eq!(sd.delegation.pubkey, env.session_key);
            assert_eq!(sd.delegation.expiration, resp.expiration);
            assert!(sd.delegation.targets.is_none());
            // the signature is self-describing CBOR holding the data
            // certificate and the witness tree
            assert_eq!(&sd.signature[0..3], &[0xD9, 0xD9, 0xF7]);
            let parsed: serde_cbor::Value = serde_cbor::from_slice(&sd.signature).unwrap();
            match parsed {
                serde_cbor::Value::Map(m) => {
                    let cert_val = m
                        .get(&serde_cbor::Value::Text("certificate".to_string()))
                        .unwrap();
                    assert_eq!(cert_val, &serde_cbor::Value::Bytes(certificate.clone()));
                    assert!(m
                        .get(&serde_cbor::Value::Text("tree".to_string()))
                        .is_some());
                }
                _ => panic!("expected a CBOR map"),
            }
        }
        GetDelegationResponse::NoSuchDelegation => panic!("expected a signed delegation"),
    }
}

#[test]
fn get_with_another_expiration_finds_nothing() {
    let mut env = setup();
    let resp = env
        .service
        .prepare_delegation(
            &mut env.repo,
            &mut env.users,
            &env.caller,
            &env.jwt,
            &env.canister_id,
            NOW_NS,
        )
        .unwrap();
    let got = env
        .service
        .get_delegation(
            &env.repo,
            &env.caller,
            &env.jwt,
            resp.expiration + 1,
            &vec![],
            NOW_NS,
        )
        .unwrap();
    assert!(matches!(got, GetDelegationResponse::NoSuchDelegation));
}

#[test]
fn prepare_creates_the_user_once_with_stable_principal() {
    let mut env = setup();
    let r1 = env
        .service
        .prepare_delegation(
            &mut env.repo,
            &mut env.users,
            &env.caller,
            &env.jwt,
            &env.canister_id,
            NOW_NS,
        )
        .unwrap();
    let r2 = env
        .service
        .prepare_delegation(
            &mut env.repo,
            &mut env.users,
            &env.caller,
            &env.jwt,
            &env.canister_id,
            NOW_NS,
        )
        .unwrap();
    // the derived user key is stable across calls
    assert_eq!(r1.user_key, r2.user_key);
    let user_principal = UserPrincipal::self_authenticating(&r1.user_key);
    let user = env.users.get_user_by_principal(&user_principal).unwrap();
    assert_eq!(user.jwt_sub, TEST_SUB);
    assert_eq!(user.db_id.to_string(), TEST_DB_ID);
    assert_eq!(env.users.entries.len(), 1);
}

#[test]
fn rejects_a_caller_that_does_not_match_the_nonce() {
    let mut env = setup();
    let stranger = UserPrincipal::self_authenticating(&vec![9u8, 9, 9]);
    let err = env
        .service
        .prepare_delegation(
            &mut env.repo,
            &mut env.users,
            &stranger,
            &env.jwt,
            &env.canister_id,
            NOW_NS,
        )
        .unwrap_err();
    assert!(err.contains("caller and token principal mismatch"));
}

#[test]
fn signature_witness_digest_matches_the_published_root() {
    let mut env = setup();
    let resp = env
        .service
        .prepare_delegation(
            &mut env.repo,
            &mut env.users,
            &env.caller,
            &env.jwt,
            &env.canister_id,
            NOW_NS,
        )
        .unwrap();
    let got = env
        .service
        .get_delegation(&env.repo, &env.caller, &env.jwt, resp.expiration, &vec![], NOW_NS)
        .unwrap();
    let sd = match got {
        GetDelegationResponse::SignedDelegation(sd) => sd,
        _ => panic!("expected a signed delegation"),
    };
    let parsed: serde_cbor::Value = serde_cbor::from_slice(&sd.signature).unwrap();
    let tree_value = match parsed {
        serde_cbor::Value::Map(m) => m
            .get(&serde_cbor::Value::Text("tree".to_string()))
            .unwrap()
            .clone(),
        _ => panic!("expected a CBOR map"),
    };
    let tree_bytes = serde_cbor::to_vec(&tree_value).unwrap();
    let witness: ic_certification::HashTree = serde_cbor::from_slice(&tree_bytes).unwrap();
    // the witness reconstructs the labeled root that the service publishes
    assert_eq!(witness.digest(), env.repo.get_sigs_root_hash());
}

#[test]
fn transform_keeps_only_the_content_type_header() {
    let service = DelegationService::new();
    let headers = vec![
        ("Content-Type".to_string(), "application/json".to_string()),
        ("Date".to_string(), "today".to_string()),
        ("content-type".to_string(), "again".to_string()),
    ];
    let kept = service.transform_jwks_response(&headers);
    assert_eq!(kept.len(), 2);
    assert_eq!(kept[0].0, "Content-Type");
    assert_eq!(kept[1].1, "again");
}

#[test]
fn stores_a_fetched_key_set_document() {
    let mut repo = DelegationRepository::new();
    let service = DelegationService::new();
    let body = "{\"keys\":[{\"kty\":\"RSA\",\"use\":\"sig\",\"n\":\"abc\",\"e\":\"AQAB\",\"kid\":\"key-9\",\"x5t\":\"t\",\"x5c\":[\"c1\",\"c2\"],\"alg\":\"RS256\"}]}"
        .as_bytes()
        .to_vec();
    let count = service.store_jwks_payload(&mut repo, &body).unwrap();
    assert_eq!(count, 1);
    let jwks = service.get_jwks(&repo).unwrap();
    assert_eq!(jwks.keys.len(), 1);
    assert_eq!(jwks.keys[0].kid, "key-9");
    assert_eq!(jwks.keys[0].key_use, "sig");
    assert_eq!(jwks.keys[0].x5c, vec!["c1", "c2"]);

    let bad = b"{\"keys\":[{\"kty\":\"RSA\"}]}".to_vec();
    let mut repo2 = DelegationRepository::new();
    assert!(service.store_jwks_payload(&mut repo2, &bad).is_err());
}
