use sha2::Digest;

use ssp_backend::certificate_store::labeled_hash_bytes;
use ssp_backend::crypto::{
    delegation_signature_msg_bytes, der_encode_canister_sig_key, hash_bytes,
};
use ssp_backend::principal::UserPrincipal;

#[test]
fn sha256_wrapper_matches_known_vector() {
    let digest = hash_bytes(&b"abc".to_vec());
    assert_eq!(
        hex::encode(digest),
        "ba7816bf8f01cfea414140de5dae2223b00361a396177a9cb410ff61f20015ad"
    );
}

#[test]
fn self_authenticating_principal_is_hash_plus_tag() {
    let key = vec![1u8, 2, 3, 4, 5];
    let p = UserPrincipal::self_authenticating(&key);
    let bytes = p.to_bytes();
    assert_eq!(bytes.len(), 29);
    assert_eq!(bytes[28], 0x02);
    let mut hasher = sha2::Sha224::new();
    hasher.update(&key);
    let digest = hasher.finalize();
    assert_eq!(&bytes[..28], digest.as_slice());
}

#[test]
fn anonymous_principal_is_single_tag_byte() {
    let p = UserPrincipal::anonymous();
    assert_eq!(p.to_bytes(), vec![4u8]);
    assert!(p.is_anonymous());
    assert!(!UserPrincipal::from_bytes(vec![1, 2]).is_anonymous());
}

#[test]
fn der_encoding_embeds_canister_id_and_seed() {
    let canister_id = vec![0u8, 0, 0, 0, 0, 0, 0, 1, 1, 1];
    let seed = vec![7u8; 32];
    let der = der_encode_canister_sig_key(&canister_id, &seed);
    let raw_len = 1 + canister_id.len() + seed.len();
    assert_eq!(der.len(), 2 + 14 + 3 + raw_len);
    assert_eq!(der[0], 0x30);
    assert_eq!(der[1] as usize, 17 + raw_len);
    assert_eq!(&der[2..16], b"\x30\x0C\x06\x0A\x2B\x06\x01\x04\x01\x83\xB8\x43\x01\x02");
    assert_eq!(der[16], 0x03);
    assert_eq!(der[17] as usize, 1 + raw_len);
    assert_eq!(der[18], 0x00);
    assert_eq!(der[19] as usize, canister_id.len());
    assert_eq!(&der[20..20 + canister_id.len()], canister_id.as_slice());
    assert_eq!(&der[20 + canister_id.len()..], seed.as_slice());
}

#[test]
fn delegation_message_depends_on_inputs() {
    let key = vec![1u8, 2, 3];
    let m1 = delegation_signature_msg_bytes(&key, 1000);
    let m2 = delegation_signature_msg_bytes(&key, 1000);
    let m3 = delegation_signature_msg_bytes(&key, 2000);
    assert_eq!(m1, m2);
    assert_ne!(m1, m3);
}

#[test]
fn labeled_hash_matches_manual_computation() {
    let label = b"sig".to_vec();
    let content = vec![9u8; 32];
    let out = labeled_hash_bytes(&label, &content);
    let mut hasher = sha2::Sha256::new();
    hasher.update([19u8]);
    hasher.update(b"ic-hashtree-labeled");
    hasher.update(&label);
    hasher.update(&content);
    let expected = hasher.finalize();
    assert_eq!(out.as_slice(), expected.as_slice());
}

#[test]
fn leaf_hash_matches_manual_computation() {
    let data = b"certificate bytes".to_vec();
    let out = ssp_backend::certificate::leaf_hash_bytes(&data);
    let mut hasher = sha2::Sha256::new();
    hasher.update([16u8]);
    hasher.update(b"ic-hashtree-leaf");
    hasher.update(&data);
    let expected = hasher.finalize();
    assert_eq!(out.as_slice(), expected.as_slice());
}
