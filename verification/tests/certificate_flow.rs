use ssp_backend::api::{
    CreateCertificateContentRequest, CreateCertificateRequest, GetUserCertificatesRequest,
    ValidateRequest,
};
use ssp_backend::certificate_store::CertificateRepository;
use ssp_backend::certificate_service::CertificateService;
use ssp_backend::date_time::DateTime;
use ssp_backend::principal::UserPrincipal;
use ssp_backend::user::{User, UserRepository};
use ssp_backend::uuid::Uuid;

const NOW_S: u64 = 1704063600;
const TEST_DB_ID: &str = "96b51c08-9846-40f2-8f37-a1e4421e2ba8";
const MANAGED_DB_ID: &str = "ccb31f93-1a16-4089-bc84-1822ae591da2";

fn content_request() -> CreateCertificateContentRequest {
    CreateCertificateContentRequest {
        name: "Test certificate".to_string(),
        issued_at: 1704063600000000,
        sport_category: "Swimming".to_string(),
        notes: Some("Test notes".to_string()),
        file_uri: Some(
            "data:image/gif;base64,R0lGODlhAQABAIAAAAAAAP///yH5BAEAAAAALAAAAAABAAEAAAIBRAA7"
                .to_string(),
        ),
        external_id: Some("123456".to_string()),
        issuer_full_name: Some("John Doe".to_string()),
        issuer_club_name: Some("Swimming club".to_string()),
    }
}

fn request(db_id: &str, managed: Option<&str>) -> CreateCertificateRequest {
    CreateCertificateRequest {
        user_db_id: db_id.to_string(),
        content: content_request(),
        managed_user_db_id: managed.map(|m| m.to_string()),
    }
}

fn user_principal(tag: u8) -> UserPrincipal {
    UserPrincipal::from_bytes(vec![tag, 10, 20])
}

fn users_with(principal: &UserPrincipal, db_id: &str) -> UserRepository {
    let mut users = UserRepository::new();
    let user = User::new("some_sub".to_string(), db_id, NOW_S).unwrap();
    users.create_user(principal.duplicate(), user).unwrap();
    users
}

fn random_bytes(tag: u8) -> [u8; 16] {
    let mut b = [0u8; 16];
    b[0] = tag;
    b[15] = tag;
    b
}

#[test]
fn test_create_certificate() {
    let owner = user_principal(1);
    let users = users_with(&owner, TEST_DB_ID);
    let mut certs = CertificateRepository::new();
    let service = CertificateService::new();

    let res = service
        .create_certificate(&mut certs, &users, &request(TEST_DB_ID, None), None, random_bytes(1), NOW_S)
        .unwrap();
    let got = service
        .get_certificate(&certs, &res.id, None, vec![1, 2, 3])
        .unwrap();
    assert_eq!(got.certificate.id, res.id);
    assert_eq!(got.ic_certificate, vec![1, 2, 3]);

    let cbor = hex::decode(&got.certificate.certificate_cbor_hex).unwrap();
    assert_eq!(&cbor[0..3], &[0xD9, 0xD9, 0xF7]);
    let parsed: serde_cbor::Value = serde_cbor::from_slice(&cbor).unwrap();
    match parsed {
        serde_cbor::Value::Map(m) => {
            let principal_val = m
                .get(&serde_cbor::Value::Text("user_principal".to_string()))
                .unwrap();
            assert_eq!(
                principal_val,
                &serde_cbor::Value::Bytes(owner.to_bytes())
            );
            let created = m
                .get(&serde_cbor::Value::Text("created_at".to_string()))
                .unwrap();
            assert_eq!(
                created,
                &serde_cbor::Value::Text(DateTime::new(NOW_S).unwrap().to_string())
            );
            let content = m
                .get(&serde_cbor::Value::Text("content".to_string()))
                .unwrap();
            match content {
                serde_cbor::Value::Map(cm) => {
                    assert_eq!(
                        cm.get(&serde_cbor::Value::Text("name".to_string())).unwrap(),
                        &serde_cbor::Value::Text("Test certificate".to_string())
                    );
                    assert_eq!(
                        cm.get(&serde_cbor::Value::Text("sport_category".to_string())).unwrap(),
                        &serde_cbor::Value::Text("Swimming".to_string())
                    );
                    assert_eq!(
                        cm.get(&serde_cbor::Value::Text("notes".to_string())).unwrap(),
                        &serde_cbor::Value::Text("Test notes".to_string())
                    );
                }
                _ => panic!("expected content map"),
            }
        }
        _ => panic!("expected certificate map"),
    }
}

#[test]
fn test_create_certificate_user() {
    // a user caller owns the certificate whatever directory id the
    // request names
    let owner = user_principal(1);
    let users = users_with(&owner, TEST_DB_ID);
    let mut certs = CertificateRepository::new();
    let service = CertificateService::new();
    let res = service
        .create_certificate(
            &mut certs,
            &users,
            &request("83163621-9085-4e12-88bb-0b9aee290420", None),
            Some(&owner),
            random_bytes(2),
            NOW_S,
        )
        .unwrap();
    let got = service.get_certificate(&certs, &res.id, None, vec![]).unwrap();
    let cbor = hex::decode(&got.certificate.certificate_cbor_hex).unwrap();
    let parsed: serde_cbor::Value = serde_cbor::from_slice(&cbor).unwrap();
    match parsed {
        serde_cbor::Value::Map(m) => {
            assert_eq!(
                m.get(&serde_cbor::Value::Text("user_principal".to_string())).unwrap(),
                &serde_cbor::Value::Bytes(owner.to_bytes())
            );
        }
        _ => panic!("expected certificate map"),
    }
}

#[test]
fn test_create_certificate_no_user() {
    let users = UserRepository::new();
    let mut certs = CertificateRepository::new();
    let service = CertificateService::new();
    let err = service
        .create_certificate(&mut certs, &users, &request(TEST_DB_ID, None), None, random_bytes(3), NOW_S)
        .unwrap_err();
    assert!(err.contains(&format!("User with database id {} does not exist", TEST_DB_ID)));
}

#[test]
fn test_create_certificate_invalid_request() {
    let owner = user_principal(1);
    let users = users_with(&owner, TEST_DB_ID);
    let mut certs = CertificateRepository::new();
    let service = CertificateService::new();

    let mut bad = request(TEST_DB_ID, None);
    bad.content.name = "".to_string();
    let err = service
        .create_certificate(&mut certs, &users, &bad, None, random_bytes(4), NOW_S)
        .unwrap_err();
    assert!(err.contains("Title cannot be empty."));

    let mut bad = request(TEST_DB_ID, None);
    bad.content.name = "a".repeat(101);
    let err = bad.validate().unwrap_err();
    assert!(err.contains("Title cannot be longer than 100 characters."));

    let mut bad = request(TEST_DB_ID, None);
    bad.content.sport_category = "".to_string();
    assert!(bad.validate().unwrap_err().contains("Sport category cannot be empty."));

    let mut bad = request(TEST_DB_ID, None);
    bad.content.sport_category = "a".repeat(81);
    assert!(bad
        .validate()
        .unwrap_err()
        .contains("Sport category cannot be longer than 80 characters."));

    let mut bad = request(TEST_DB_ID, None);
    bad.content.notes = Some("a".repeat(501));
    assert!(bad
        .validate()
        .unwrap_err()
        .contains("Notes cannot be longer than 500 characters."));

    let mut bad = request(TEST_DB_ID, None);
    bad.content.file_uri = Some("a".repeat(1572865));
    assert!(bad
        .validate()
        .unwrap_err()
        .contains("File bytes cannot be longer than 1572864 bytes."));

    let mut bad = request(TEST_DB_ID, None);
    bad.content.external_id = Some("a".repeat(101));
    assert!(bad
        .validate()
        .unwrap_err()
        .contains("External ID cannot be longer than 100 characters."));

    let mut bad = request(TEST_DB_ID, None);
    bad.content.issuer_full_name = Some("a".repeat(101));
    assert!(bad
        .validate()
        .unwrap_err()
        .contains("Issuer full name cannot be longer than 100 characters."));

    let mut bad = request(TEST_DB_ID, None);
    bad.content.issuer_club_name = Some("a".repeat(101));
    assert!(bad
        .validate()
        .unwrap_err()
        .contains("Issuer club name cannot be longer than 100 characters."));
}

#[test]
fn test_get_user_certificates_invalid_request() {
    let certs = CertificateRepository::new();
    let users = UserRepository::new();
    let service = CertificateService::new();

    let empty = GetUserCertificatesRequest { user_principal: None, user_db_id: None };
    let err = service
        .get_user_certificates(&certs, &users, &empty, None)
        .unwrap_err();
    assert!(err.contains("Either user_principal or user_db_id must be provided."));

    let both = GetUserCertificatesRequest {
        user_principal: Some(user_principal(1)),
        user_db_id: Some(TEST_DB_ID.to_string()),
    };
    let err = service
        .get_user_certificates(&certs, &users, &both, None)
        .unwrap_err();
    assert!(err.contains("Only one of user_principal or user_db_id can be provided."));
}

#[test]
fn test_get_user_certificates() {
    let owner = user_principal(1);
    let users = users_with(&owner, TEST_DB_ID);
    let mut certs = CertificateRepository::new();
    let service = CertificateService::new();

    let mut created: Vec<String> = Vec::new();
    for i in 0..10u8 {
        let res = service
            .create_certificate(&mut certs, &users, &request(TEST_DB_ID, None), None, random_bytes(i), NOW_S)
            .unwrap();
        created.push(res.id);
    }

    // by user principal
    let by_principal = service
        .get_user_certificates(
            &certs,
            &users,
            &GetUserCertificatesRequest {
                user_principal: Some(owner.duplicate()),
                user_db_id: None,
            },
            None,
        )
        .unwrap();
    assert_eq!(by_principal.certificates.len(), 10);
    for id in &created {
        let preview = by_principal.certificates.iter().find(|c| &c.id == id).unwrap();
        assert_eq!(preview.name, "Test certificate");
    }

    // by directory id, and restricted to the owner
    let by_db_id = service
        .get_user_certificates(
            &certs,
            &users,
            &GetUserCertificatesRequest {
                user_principal: None,
                user_db_id: Some(TEST_DB_ID.to_string()),
            },
            Some(&owner),
        )
        .unwrap();
    assert_eq!(by_db_id.certificates.len(), 10);
}

#[test]
fn test_get_user_certificates_another_user() {
    let owner = user_principal(1);
    let other = user_principal(2);
    let mut users = users_with(&owner, TEST_DB_ID);
    let second = User::new("other_sub".to_string(), MANAGED_DB_ID, NOW_S).unwrap();
    users.create_user(other.duplicate(), second).unwrap();
    let mut certs = CertificateRepository::new();
    let service = CertificateService::new();
    for i in 0..3u8 {
        service
            .create_certificate(&mut certs, &users, &request(TEST_DB_ID, None), None, random_bytes(i), NOW_S)
            .unwrap();
    }

    let err = service
        .get_user_certificates(
            &certs,
            &users,
            &GetUserCertificatesRequest {
                user_principal: Some(owner.duplicate()),
                user_db_id: None,
            },
            Some(&other),
        )
        .unwrap_err();
    assert!(err.contains("User can only access their own certificates"));

    let err = service
        .get_user_certificates(
            &certs,
            &users,
            &GetUserCertificatesRequest {
                user_principal: None,
                user_db_id: Some(TEST_DB_ID.to_string()),
            },
            Some(&other),
        )
        .unwrap_err();
    assert!(err.contains("User can only access their own certificates"));
}

#[test]
fn test_get_user_certificates_no_user() {
    let owner = user_principal(1);
    let users = users_with(&owner, TEST_DB_ID);
    let mut certs = CertificateRepository::new();
    let service = CertificateService::new();
    service
        .create_certificate(&mut certs, &users, &request(TEST_DB_ID, None), None, random_bytes(1), NOW_S)
        .unwrap();

    let by_unknown_principal = service
        .get_user_certificates(
            &certs,
            &users,
            &GetUserCertificatesRequest {
                user_principal: Some(user_principal(8)),
                user_db_id: None,
            },
            None,
        )
        .unwrap();
    assert_eq!(by_unknown_principal.certificates.len(), 0);

    let by_unknown_db_id = service
        .get_user_certificates(
            &certs,
            &users,
            &GetUserCertificatesRequest {
                user_principal: None,
                user_db_id: Some(MANAGED_DB_ID.to_string()),
            },
            None,
        )
        .unwrap();
    assert_eq!(by_unknown_db_id.certificates.len(), 0);
}

#[test]
fn test_get_user_certificates_managed_user() {
    let owner = user_principal(1);
    let users = users_with(&owner, TEST_DB_ID);
    let mut certs = CertificateRepository::new();
    let service = CertificateService::new();
    for i in 0..5u8 {
        service
            .create_certificate(
                &mut certs,
                &users,
                &request(TEST_DB_ID, Some(MANAGED_DB_ID)),
                None,
                random_bytes(i),
                NOW_S,
            )
            .unwrap();
    }
    let res = service
        .get_user_certificates(
            &certs,
            &users,
            &GetUserCertificatesRequest {
                user_principal: None,
                user_db_id: Some(MANAGED_DB_ID.to_string()),
            },
            None,
        )
        .unwrap();
    assert_eq!(res.certificates.len(), 5);

    // a foreign user sees none of them
    let other = user_principal(2);
    let restricted = service
        .get_user_certificates(
            &certs,
            &users,
            &GetUserCertificatesRequest {
                user_principal: None,
                user_db_id: Some(MANAGED_DB_ID.to_string()),
            },
            Some(&other),
        )
        .unwrap();
    assert_eq!(restricted.certificates.len(), 0);
}

#[test]
fn test_get_certificate_not_found() {
    let certs = CertificateRepository::new();
    let service = CertificateService::new();
    let err = service
        .get_certificate(&certs, MANAGED_DB_ID, None, vec![])
        .unwrap_err();
    assert!(err.contains("Certificate not found"));
}

#[test]
fn test_get_certificate_another_user() {
    let owner = user_principal(1);
    let other = user_principal(2);
    let users = users_with(&owner, TEST_DB_ID);
    let mut certs = CertificateRepository::new();
    let service = CertificateService::new();
    let res = service
        .create_certificate(&mut certs, &users, &request(TEST_DB_ID, None), None, random_bytes(1), NOW_S)
        .unwrap();
    let err = service
        .get_certificate(&certs, &res.id, Some(&other), vec![])
        .unwrap_err();
    assert!(err.contains("User can only access their own certificates"));
}

#[test]
fn witness_digest_matches_certified_root() {
    let owner = user_principal(1);
    let users = users_with(&owner, TEST_DB_ID);
    let mut certs = CertificateRepository::new();
    let service = CertificateService::new();
    let res = service
        .create_certificate(&mut certs, &users, &request(TEST_DB_ID, None), None, random_bytes(1), NOW_S)
        .unwrap();
    let got = service.get_certificate(&certs, &res.id, None, vec![]).unwrap();
    let witness: ic_certification::HashTree =
        serde_cbor::from_slice(&got.ic_certificate_witness).unwrap();
    assert_eq!(witness.digest(), certs.certified_data_root());

    // the witness proves the leaf at [label, principal, id]
    let id = Uuid::try_from_text(&res.id).unwrap();
    match witness.lookup_subtree([
        b"ssp_certificates".as_slice(),
        owner.to_bytes().as_slice(),
        id.to_bytes().as_slice(),
    ]) {
        ic_certification::SubtreeLookupResult::Found(node) => {
            let cbor = hex::decode(&got.certificate.certificate_cbor_hex).unwrap();
            let leaf = ssp_backend::certificate::leaf_hash_bytes(&cbor);
            match node.as_ref() {
                ic_certification::HashTreeNode::Leaf(value) => {
                    assert_eq!(value.as_slice(), leaf.as_slice());
                }
                _ => panic!("expected a leaf"),
            }
        }
        _ => panic!("expected the certificate's path in the witness"),
    }
}

#[test]
fn recertification_keeps_every_certificate_provable() {
    let owner = user_principal(1);
    let users = users_with(&owner, TEST_DB_ID);
    let mut certs = CertificateRepository::new();
    let service = CertificateService::new();
    let mut ids: Vec<String> = Vec::new();
    // create in descending identifier order, so the live tree's insertion
    // order differs from the identifier order a rebuild uses
    for i in 0..10u8 {
        let res = service
            .create_certificate(
                &mut certs,
                &users,
                &request(TEST_DB_ID, None),
                None,
                random_bytes(200 - i),
                NOW_S,
            )
            .unwrap();
        ids.push(res.id);
    }

    // a restart keeps the certificates and rebuilds the tree; the root is
    // republished afterwards, and every witness proves against it
    service.certify_all_certificates(&mut certs);
    let republished_root = certs.certified_data_root();
    for id in &ids {
        let got = service.get_certificate(&certs, id, None, vec![]).unwrap();
        let witness: ic_certification::HashTree =
            serde_cbor::from_slice(&got.ic_certificate_witness).unwrap();
        assert_eq!(witness.digest(), republished_root);
    }
}

#[test]
fn test_get_certificate() {
    let owner = user_principal(1);
    let users = users_with(&owner, TEST_DB_ID);
    let mut certs = CertificateRepository::new();
    let service = CertificateService::new();
    let mut created: Vec<String> = Vec::new();
    for i in 0..10u8 {
        let res = service
            .create_certificate(&mut certs, &users, &request(TEST_DB_ID, None), None, random_bytes(i), NOW_S)
            .unwrap();
        created.push(res.id);
    }
    for id in &created {
        let got = service
            .get_certificate(&certs, id, Some(&owner), vec![7u8])
            .unwrap();
        assert_eq!(&got.certificate.id, id);
        let witness: ic_certification::HashTree =
            serde_cbor::from_slice(&got.ic_certificate_witness).unwrap();
        assert_eq!(witness.digest(), certs.certified_data_root());
    }
}

#[test]
fn test_get_certificate_managed_user() {
    let owner = user_principal(1);
    let users = users_with(&owner, TEST_DB_ID);
    let mut certs = CertificateRepository::new();
    let service = CertificateService::new();
    let res = service
        .create_certificate(
            &mut certs,
            &users,
            &request(TEST_DB_ID, Some(MANAGED_DB_ID)),
            None,
            random_bytes(1),
            NOW_S,
        )
        .unwrap();
    let got = service.get_certificate(&certs, &res.id, None, vec![]).unwrap();
    let cbor = hex::decode(&got.certificate.certificate_cbor_hex).unwrap();
    let parsed: serde_cbor::Value = serde_cbor::from_slice(&cbor).unwrap();
    match parsed {
        serde_cbor::Value::Map(m) => {
            assert_eq!(
                m.get(&serde_cbor::Value::Text("managed_user_id".to_string())).unwrap(),
                &serde_cbor::Value::Text(MANAGED_DB_ID.to_string())
            );
            assert_eq!(
                m.get(&serde_cbor::Value::Text("user_principal".to_string())).unwrap(),
                &serde_cbor::Value::Bytes(owner.to_bytes())
            );
        }
        _ => panic!("expected certificate map"),
    }
}

#[test]
fn test_create_certificate_anonymous() {
    let access = ssp_backend::access_control::AccessControlService::new();
    let config = ssp_backend::config::ConfigRepository::new();
    let users = UserRepository::new();
    let err = access
        .assert_principal_is_user_or_backend(&config, &users, &UserPrincipal::anonymous())
        .unwrap_err();
    assert!(err.contains("Caller is not the backend or a registered user"));
}

#[test]
fn test_get_certificate_not_authorized() {
    let access = ssp_backend::access_control::AccessControlService::new();
    let config = ssp_backend::config::ConfigRepository::new();
    let users = UserRepository::new();
    let err = access
        .assert_principal_is_user_or_backend(&config, &users, &user_principal(5))
        .unwrap_err();
    assert!(err.contains("Caller is not the backend or a registered user"));
}

#[test]
fn test_get_user_certificates_not_authorized() {
    let access = ssp_backend::access_control::AccessControlService::new();
    let mut config = ssp_backend::config::ConfigRepository::new();
    ssp_backend::config::ConfigService::new()
        .set_backend_principal(&mut config, user_principal(9))
        .unwrap();
    let users = UserRepository::new();
    for caller in [user_principal(5), UserPrincipal::anonymous()] {
        let err = access
            .assert_principal_is_user_or_backend(&config, &users, &caller)
            .unwrap_err();
        assert!(err.contains("Caller is not the backend or a registered user"));
    }
    // the configured backend passes unrestricted
    assert!(access
        .assert_principal_is_user_or_backend(&config, &users, &user_principal(9))
        .unwrap()
        .is_none());
}

#[test]
fn rejects_an_unparseable_certificate_id() {
    let certs = CertificateRepository::new();
    let service = CertificateService::new();
    let err = service
        .get_certificate(&certs, "not a uuid", None, vec![])
        .unwrap_err();
    assert_eq!(err, "Failed to parse UUID from string: not a uuid");

    let users = UserRepository::new();
    let bad_listing = GetUserCertificatesRequest {
        user_principal: None,
        user_db_id: Some("junk".to_string()),
    };
    let err = service
        .get_user_certificates(&certs, &users, &bad_listing, None)
        .unwrap_err();
    assert_eq!(err, "Failed to parse UUID from string: junk");
}

#[test]
fn rejects_an_unparseable_managed_id() {
    let owner = user_principal(1);
    let users = users_with(&owner, TEST_DB_ID);
    let mut certs = CertificateRepository::new();
    let service = CertificateService::new();
    let err = service
        .create_certificate(
            &mut certs,
            &users,
            &request(TEST_DB_ID, Some("junk")),
            None,
            random_bytes(1),
            NOW_S,
        )
        .unwrap_err();
    assert_eq!(err, "Failed to parse UUID from string: junk");
    assert_eq!(certs.entries.len(), 0);
}
