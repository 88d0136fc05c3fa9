//! Hashing and canister-signature key encodings: the 256-bit digest, the
//! domain-separated digest, the delegation signing message, and the DER
//! encoding of a canister-signature public key.

use vstd::prelude::*;

verus! {

/// The 256-bit digest of a byte sequence; 32 bytes, a function of the
/// input alone.
pub uninterp spec fn sha256_of(bytes: Seq<u8>) -> Seq<u8>;

/// The delegation signing message of a session public key and an
/// expiration timestamp: the representation-independent hash of the map
/// `{ pubkey, expiration }` with no targets, a function of the two alone.
pub uninterp spec fn delegation_msg_of(pubkey: Seq<u8>, expiration: u64) -> Seq<u8>;

/// The signature domain for request-authentication delegations,
/// `ic-request-auth-delegation`, 26 bytes.
pub open spec fn spec_delegation_domain() -> Seq<u8> {
    "ic-request-auth-delegation"@.map_values(|c: char| c as u8)
}

/// A domain-separated input: the domain's length byte, the domain, then
/// the payload.
pub open spec fn spec_with_domain(domain: Seq<u8>, bytes: Seq<u8>) -> Seq<u8>
    recommends
        domain.len() < 256,
{
    seq![domain.len() as u8] + domain + bytes
}

/// Relies on `ic_canister_sig_creation::hash_bytes`: the 256-bit digest of
/// the input.
#[verifier::external_body]
pub fn hash_bytes(bytes: &Vec<u8>) -> (r: [u8; 32])
    ensures
        r@ == sha256_of(bytes@),
{
    ic_canister_sig_creation::hash_bytes(bytes)
}

/// Relies on `ic_canister_sig_creation::hash_with_domain`: the 256-bit
/// digest of the domain's length byte, the domain, and the payload.
#[verifier::external_body]
pub fn hash_with_domain_sep(domain: &Vec<u8>, bytes: &Vec<u8>) -> (r: [u8; 32])
    requires
        domain@.len() < 256,
    ensures
        r@ == sha256_of(spec_with_domain(domain@, bytes@)),
{
    ic_canister_sig_creation::hash_with_domain(domain.as_slice(), bytes.as_slice())
}

/// Relies on `ic_canister_sig_creation::delegation_signature_msg`: the
/// representation-independent hash of the delegation map, a function of
/// the session key and expiration alone (no targets are passed).
#[verifier::external_body]
pub fn delegation_signature_msg_bytes(pubkey: &Vec<u8>, expiration: u64) -> (r: Vec<u8>)
    ensures
        r@ == delegation_msg_of(pubkey@, expiration),
{
    ic_canister_sig_creation::delegation_signature_msg(pubkey.as_slice(), expiration, None)
}

/// The delegation signature domain as bytes.
pub fn delegation_domain() -> (r: Vec<u8>)
    ensures
        r@ == spec_delegation_domain(),
        r@.len() == 26,
{
    let s = "ic-request-auth-delegation";
    let r = s.as_bytes_vec();
    proof {
        vstd::string::is_ascii_spec_bytes(s);
        assert(s.is_ascii()) by {
            reveal_strlit("ic-request-auth-delegation");
        }
        assert(s@.len() == 26) by {
            reveal_strlit("ic-request-auth-delegation");
        }
        assert(r@ =~= spec_delegation_domain());
    }
    r
}

/// The message hash recorded for a delegation: the domain-separated digest
/// of the delegation signing message.
pub open spec fn spec_delegation_msg_hash(pubkey: Seq<u8>, expiration: u64) -> Seq<u8> {
    sha256_of(spec_with_domain(spec_delegation_domain(), delegation_msg_of(pubkey, expiration)))
}

/// Computes the message hash recorded for a delegation.
pub fn delegation_signature_msg_hash(pubkey: &Vec<u8>, expiration: u64) -> (r: [u8; 32])
    ensures
        r@ == spec_delegation_msg_hash(pubkey@, expiration),
{
    let msg = delegation_signature_msg_bytes(pubkey, expiration);
    let domain = delegation_domain();
    hash_with_domain_sep(&domain, &msg)
}

/// The seed-derivation input: the salt preceded by its length byte, then
/// the subject bytes preceded by their length byte.
pub open spec fn spec_seed_blob(salt: Seq<u8>, sub: Seq<u8>) -> Seq<u8>
    recommends
        salt.len() == 32,
        sub.len() <= 255,
{
    seq![32u8] + salt + seq![sub.len() as u8] + sub
}

/// Derives the 32-byte seed identifying a user's signing subkey: the
/// digest of the length-prefixed salt and subject.  Subjects longer than
/// 255 bytes are rejected.
pub fn calculate_seed(salt: &[u8; 32], sub: &str) -> (r: Result<[u8; 32], String>)
    ensures
        r is Ok <==> vstd::utf8::encode_utf8(sub@).len() <= 255,
        r is Ok ==> r->Ok_0@ == sha256_of(
            spec_seed_blob(salt@, vstd::utf8::encode_utf8(sub@)),
        ),
        r is Err ==> r->Err_0@ == "token subject is too long"@,
{
    let sub_bytes = sub.as_bytes_vec();
    if sub_bytes.len() > 255 {
        return Err(String::from_str("token subject is too long"));
    }
    let mut blob: Vec<u8> = Vec::new();
    blob.push(32u8);
    let mut salt_vec = vstd::slice::slice_to_vec(salt.as_slice());
    blob.append(&mut salt_vec);
    blob.push(sub_bytes.len() as u8);
    let mut sub_copy = sub_bytes;
    blob.append(&mut sub_copy);
    proof {
        assert(blob@ =~= spec_seed_blob(salt@, vstd::utf8::encode_utf8(sub@)));
    }
    Ok(hash_bytes(&blob))
}

/// The DER prefix identifying the canister-signature public-key algorithm.
pub open spec fn spec_canister_sig_oid() -> Seq<u8> {
    seq![
        0x30u8,
        0x0Cu8,
        0x06u8,
        0x0Au8,
        0x2Bu8,
        0x06u8,
        0x01u8,
        0x04u8,
        0x01u8,
        0x83u8,
        0xB8u8,
        0x43u8,
        0x01u8,
        0x02u8,
    ]
}

/// The raw canister-signature public key: the canister id preceded by its
/// length byte, then the seed.
pub open spec fn spec_canister_sig_pk_raw(canister_id: Seq<u8>, seed: Seq<u8>) -> Seq<u8> {
    seq![canister_id.len() as u8] + canister_id + seed
}

/// The DER encoding of a canister-signature public key: a sequence holding
/// the algorithm identifier and a bit string with the raw key.
pub open spec fn spec_canister_sig_pk_der(canister_id: Seq<u8>, seed: Seq<u8>) -> Seq<u8>
    recommends
        canister_id.len() + seed.len() <= 237,
{
    let raw = spec_canister_sig_pk_raw(canister_id, seed);
    seq![0x30u8, (17 + raw.len()) as u8] + spec_canister_sig_oid() + seq![
        0x03u8,
        (1 + raw.len()) as u8,
        0x00u8,
    ] + raw
}

/// Relies on `ic_canister_sig_creation::CanisterSigPublicKey::to_der`: the
/// DER encoding above, with the canister id and seed embedded verbatim.
#[verifier::external_body]
pub fn der_encode_canister_sig_key(canister_id: &Vec<u8>, seed: &Vec<u8>) -> (r: Vec<u8>)
    requires
        canister_id@.len() <= 29,
        canister_id@.len() + seed@.len() <= 237,
    ensures
        r@ == spec_canister_sig_pk_der(canister_id@, seed@),
{
    ic_canister_sig_creation::CanisterSigPublicKey::new(
        candid::Principal::from_slice(canister_id.as_slice()),
        seed.clone(),
    ).to_der()
}

/// DER encodings of canister-signature keys are injective in the canister
/// id and the seed.
pub proof fn lemma_canister_sig_pk_der_injective(
    id1: Seq<u8>,
    seed1: Seq<u8>,
    id2: Seq<u8>,
    seed2: Seq<u8>,
)
    requires
        id1.len() + seed1.len() <= 237,
        id2.len() + seed2.len() <= 237,
        spec_canister_sig_pk_der(id1, seed1) == spec_canister_sig_pk_der(id2, seed2),
    ensures
        id1 == id2,
        seed1 == seed2,
{
    let d1 = spec_canister_sig_pk_der(id1, seed1);
    let d2 = spec_canister_sig_pk_der(id2, seed2);
    assert(d1[19] == id1.len() as u8);
    assert(d2[19] == id2.len() as u8);
    assert(d1.len() == 20 + id1.len() + seed1.len());
    assert(id1.len() == id2.len());
    assert(seq_eq_from(d1, d2, 20, id1.len() as int));
    assert(id1 =~= d1.subrange(20, 20 + id1.len() as int));
    assert(id2 =~= d2.subrange(20, 20 + id2.len() as int));
    assert(seed1 =~= d1.subrange(20 + id1.len() as int, d1.len() as int));
    assert(seed2 =~= d2.subrange(20 + id2.len() as int, d2.len() as int));
}

spec fn seq_eq_from(a: Seq<u8>, b: Seq<u8>, from: int, len: int) -> bool {
    forall|i: int| from <= i < from + len ==> a[i] == b[i]
}

} // verus!
