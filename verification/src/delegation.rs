//! The delegation layer: the salt, the cached key set, and the signature
//! map — a certified two-level tree from hashed seeds to recorded message
//! hashes, pruned by expiration.  The service decodes and validates a
//! presented token, binds it to the calling session key, records the
//! delegation signature, and later serves the witness that constitutes
//! the signature.

use vstd::prelude::*;

use crate::certificate_store::{labeled_hash_bytes, spec_labeled_hash};
use crate::cbor::{
    cbor_push_bytes, cbor_push_map_header, cbor_push_self_describe, cbor_push_text, spec_cbor_bytes,
    spec_cbor_map_header, spec_cbor_self_describe, spec_cbor_text,
};
use crate::crypto::{hash_bytes, sha256_of};
use crate::jwk::Auth0JWKSet;
use crate::tree::{
    nested_model, nested_root_of, nested_witness_of, spec_nested_insert, spec_nested_remove,
    NestedHashTree, NestedModel,
};

verus! {

/// The all-zero salt sentinel: not yet initialized.
pub open spec fn spec_salt_is_empty(s: Seq<u8>) -> bool {
    forall|i: int| 0 <= i < s.len() ==> s[i] == 0
}

/// One recorded signature's expiration entry.
pub struct SigExpiration {
    pub expires_at: u64,
    pub seed_hash: Vec<u8>,
    pub msg_hash: Vec<u8>,
}

/// The label under which the signature tree is published.
pub open spec fn spec_sig_label() -> Seq<u8> {
    "sig"@.map_values(|c: char| c as u8)
}

/// The signature label as bytes.
pub fn sig_label() -> (r: Vec<u8>)
    ensures
        r@ == spec_sig_label(),
        r@.len() == 3,
{
    let s = "sig";
    let r = s.as_bytes_vec();
    proof {
        vstd::string::is_ascii_spec_bytes(s);
        assert(s.is_ascii()) by {
            reveal_strlit("sig");
        }
        assert(s@.len() == 3) by {
            reveal_strlit("sig");
        }
        assert(r@ =~= spec_sig_label());
    }
    r
}

/// How long a recorded signature stays retrievable.
pub const SIGNATURE_EXPIRATION_PERIOD_NS: u64 = 60_000_000_000;

/// How many expired signatures one addition prunes at most.
pub const MAX_SIGS_TO_PRUNE: usize = 50;

/// The delegation state: the signature tree with its expiration queue,
/// the cached key set, and the salt.
pub struct DelegationRepository {
    pub sigs: NestedHashTree,
    pub expirations: Vec<SigExpiration>,
    pub jwks: Option<Auth0JWKSet>,
    pub salt: [u8; 32],
}

/// The CBOR bytes of a canister signature: a self-describing two-entry
/// map holding the platform's data certificate and the serialized labeled
/// witness of the signature path in the given tree.
pub open spec fn spec_signature_cbor(
    certificate: Seq<u8>,
    t: &NestedHashTree,
    seed_hash: Seq<u8>,
    msg_hash: Seq<u8>,
) -> Seq<u8> {
    spec_cbor_self_describe() + spec_cbor_map_header(2) + spec_cbor_text("certificate"@)
        + spec_cbor_bytes(certificate) + spec_cbor_text("tree"@) + nested_witness_of(
        t,
        spec_sig_label(),
        seed_hash,
        Some(msg_hash),
    )
}

impl DelegationRepository {
    /// A fresh state: an empty signature tree, no key set, the empty
    /// salt.
    pub fn new() -> (r: DelegationRepository)
        ensures
            nested_model(&r.sigs) == crate::tree::NestedModel::empty(),
            r.jwks is None,
            spec_salt_is_empty(r.salt@),
    {
        let salt = [0u8; 32];
        DelegationRepository {
            sigs: NestedHashTree::new(),
            expirations: Vec::new(),
            jwks: None,
            salt,
        }
    }

    /// The stored salt.
    pub fn get_salt(&self) -> (r: [u8; 32])
        ensures
            r@ == self.salt@,
    {
        self.salt
    }

    /// Replaces the stored salt.
    pub fn set_salt(&mut self, salt: [u8; 32])
        ensures
            final(self).salt@ == salt@,
            final(self).sigs == old(self).sigs,
            final(self).jwks == old(self).jwks,
    {
        self.salt = salt;
    }

    /// True when the salt is still the empty sentinel.
    pub fn salt_is_empty(&self) -> (r: bool)
        ensures
            r == spec_salt_is_empty(self.salt@),
    {
        let n = self.salt.len();
        for i in 0..32usize
            invariant
                forall|j: int| 0 <= j < i ==> self.salt@[j] == 0,
        {
            if self.salt[i] != 0 {
                return false;
            }
        }
        true
    }

    /// Replaces the cached key set.
    pub fn set_jwks(&mut self, jwks: Auth0JWKSet)
        ensures
            final(self).jwks matches Some(j) && j@ == jwks@,
            final(self).sigs == old(self).sigs,
            final(self).salt@ == old(self).salt@,
    {
        self.jwks = Some(jwks);
    }

    /// The cached key set.
    pub fn get_jwks(&self) -> (r: Option<Auth0JWKSet>)
        ensures
            match r {
                Some(k) => self.jwks matches Some(j) && k@ == j@,
                None => self.jwks is None,
            },
    {
        match &self.jwks {
            Some(j) => Some(j.duplicate()),
            None => None,
        }
    }

    /// Records a signature: prunes a batch of expired entries, then
    /// inserts the message hash under the hashed seed with an expiration
    /// one period from now.  Besides the new entry, no path appears that
    /// the map did not already hold: recording one delegation makes no
    /// other delegation retrievable.
    pub fn add_delegation_signature(&mut self, seed: &Vec<u8>, message_hash: &[u8; 32], now_ns: u64)
        ensures
            nested_model(&final(self).sigs).contains_key(sha256_of(seed@)),
            nested_model(&final(self).sigs)[sha256_of(seed@)].contains_key(message_hash@),
            spec_paths_bounded(
                nested_model(&final(self).sigs),
                nested_model(&old(self).sigs),
                sha256_of(seed@),
                message_hash@,
            ),
            final(self).jwks == old(self).jwks,
            final(self).salt@ == old(self).salt@,
    {
        self.prune_expired(now_ns);
        let ghost pruned_model = nested_model(&self.sigs);
        let seed_hash = hash_bytes(seed);
        let seed_hash_vec = vstd::slice::slice_to_vec(&seed_hash);
        let msg_hash_vec = vstd::slice::slice_to_vec(message_hash);
        let empty_leaf: Vec<u8> = Vec::new();
        self.sigs.insert(&seed_hash_vec, &msg_hash_vec, &empty_leaf);
        proof {
            lemma_paths_after_insert(
                pruned_model,
                nested_model(&self.sigs),
                sha256_of(seed@),
                message_hash@,
            );
        }
        let expires_at = if now_ns <= u64::MAX - SIGNATURE_EXPIRATION_PERIOD_NS {
            now_ns + SIGNATURE_EXPIRATION_PERIOD_NS
        } else {
            u64::MAX
        };
        self.expirations.push(
            SigExpiration { expires_at, seed_hash: seed_hash_vec, msg_hash: msg_hash_vec },
        );
    }

    /// Removes up to a batch of expired entries from the tree.  Pruning
    /// only removes paths: every path still present was present before.
    fn prune_expired(&mut self, now_ns: u64)
        ensures
            spec_paths_subset(nested_model(&final(self).sigs), nested_model(&old(self).sigs)),
            final(self).jwks == old(self).jwks,
            final(self).salt@ == old(self).salt@,
    {
        let mut pruned: usize = 0;
        while pruned < MAX_SIGS_TO_PRUNE
            invariant
                spec_paths_subset(nested_model(&self.sigs), nested_model(&old(self).sigs)),
                self.jwks == old(self).jwks,
                self.salt@ == old(self).salt@,
            decreases MAX_SIGS_TO_PRUNE - pruned,
        {
            let idx = match self.min_expiration_index() {
                Some(i) => i,
                None => {
                    return ;
                },
            };
            if self.expirations[idx].expires_at > now_ns {
                return ;
            }
            let ghost before = nested_model(&self.sigs);
            let entry = self.expirations.remove(idx);
            self.sigs.remove(&entry.seed_hash, &entry.msg_hash);
            proof {
                lemma_remove_paths_subset(before, entry.seed_hash@, entry.msg_hash@);
            }
            pruned = pruned + 1;
        }
    }

    /// The index of the entry expiring soonest, if any.
    fn min_expiration_index(&self) -> (r: Option<usize>)
        ensures
            match r {
                Some(i) => i < self.expirations@.len(),
                None => self.expirations@.len() == 0,
            },
    {
        let n = self.expirations.len();
        if n == 0 {
            return None;
        }
        let mut best: usize = 0;
        for i in 1..n
            invariant
                n == self.expirations@.len(),
                best < n,
            decreases n - i,
        {
            if self.expirations[i].expires_at < self.expirations[best].expires_at {
                best = i;
            }
        }
        Some(best)
    }

    /// The canister-signature CBOR for a recorded delegation: the data
    /// certificate and the witness of the signature path.  An absent path
    /// yields an error.
    pub fn get_signature(&self, seed: &Vec<u8>, message_hash: &[u8; 32], certificate: &Vec<u8>)
        -> (r: Result<Vec<u8>, String>)
        ensures
            r is Ok <==> (nested_model(&self.sigs).contains_key(sha256_of(seed@))
                && nested_model(&self.sigs)[sha256_of(seed@)].contains_key(message_hash@)),
            r is Ok ==> r->Ok_0@ == spec_signature_cbor(
                certificate@,
                &self.sigs,
                sha256_of(seed@),
                message_hash@,
            ),
    {
        let seed_hash = hash_bytes(seed);
        let seed_hash_vec = vstd::slice::slice_to_vec(&seed_hash);
        let msg_hash_vec = vstd::slice::slice_to_vec(message_hash);
        if !self.sigs.contains(&seed_hash_vec, &msg_hash_vec) {
            return Err(String::from_str("signature not found"));
        }
        let label = sig_label();
        let witness = self.sigs.witness_cbor(&label, &seed_hash_vec, Some(&msg_hash_vec));
        let mut out: Vec<u8> = Vec::new();
        cbor_push_self_describe(&mut out);
        cbor_push_map_header(&mut out, 2);
        cbor_push_text(&mut out, "certificate");
        cbor_push_bytes(&mut out, certificate);
        cbor_push_text(&mut out, "tree");
        crate::cbor::append_all(&mut out, &witness);
        proof {
            assert(out@ =~= spec_signature_cbor(
                certificate@,
                &self.sigs,
                sha256_of(seed@),
                message_hash@,
            ));
        }
        Ok(out)
    }

    /// The labeled root hash of the signature tree, to publish as
    /// certified data.
    pub fn get_sigs_root_hash(&self) -> (h: [u8; 32])
        ensures
            h@ == spec_labeled_hash(spec_sig_label(), nested_root_of(&self.sigs)),
    {
        let label = sig_label();
        let root = self.sigs.root_hash();
        let root_vec = vstd::slice::slice_to_vec(&root);
        labeled_hash_bytes(&label, &root_vec)
    }
}

/// Every path of `m1` is a path of `m2` with the same leaf.
pub open spec fn spec_paths_subset(m1: NestedModel, m2: NestedModel) -> bool {
    forall|o: Seq<u8>, i: Seq<u8>|
        #![trigger m1[o].contains_key(i)]
        m1.contains_key(o) && m1[o].contains_key(i) ==> (m2.contains_key(o)
            && m2[o].contains_key(i) && m1[o][i] == m2[o][i])
}

/// Every path of `m1` is the named path or a path of `m0`: nothing else
/// was recorded.
pub open spec fn spec_paths_bounded(
    m1: NestedModel,
    m0: NestedModel,
    outer: Seq<u8>,
    inner: Seq<u8>,
) -> bool {
    forall|o: Seq<u8>, i: Seq<u8>|
        #![trigger m1[o].contains_key(i)]
        m1.contains_key(o) && m1[o].contains_key(i) ==> ((o == outer && i == inner) || (
        m0.contains_key(o) && m0[o].contains_key(i)))
}

/// Removing a path leaves a subset of the paths.
proof fn lemma_remove_paths_subset(m: NestedModel, outer: Seq<u8>, inner: Seq<u8>)
    ensures
        spec_paths_subset(spec_nested_remove(m, outer, inner), m),
{
}

/// After an insertion, every path is the inserted one or an old one.
proof fn lemma_paths_after_insert(m0: NestedModel, m1: NestedModel, outer: Seq<u8>, inner: Seq<u8>)
    requires
        m1 == spec_nested_insert(m0, outer, inner, Seq::<u8>::empty()),
    ensures
        forall|o: Seq<u8>, i: Seq<u8>|
            #![trigger m1[o].contains_key(i)]
            m1.contains_key(o) && m1[o].contains_key(i) ==> ((o == outer && i == inner) || (
            m0.contains_key(o) && m0[o].contains_key(i))),
{
}

} // verus!
