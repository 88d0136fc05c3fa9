//! The library's cross-cutting laws, stated over the spec functions that
//! the public contracts use.

use vstd::prelude::*;

use crate::crypto::{sha256_of, spec_canister_sig_pk_der, spec_seed_blob};
use crate::principal::spec_self_authenticating;
use crate::delegation::spec_paths_bounded;
use crate::tree::{spec_nested_insert, NestedModel};
use crate::user::UserRepository;
use crate::uuid::{lemma_bytes_uuid_round_trip, spec_random_masked, spec_uuid_of_bytes};

verus! {

/// Distinct identifier draws give distinct identifiers: the identifier
/// built from sixteen random bytes determines, and is determined by, the
/// bytes after the version and variant bits are forced.  Two creations
/// differ in their identifiers whenever the platform's random bytes
/// differ outside the forced bits.
pub proof fn lemma_distinct_randomness_distinct_ids(b1: Seq<u8>, b2: Seq<u8>)
    requires
        b1.len() == 16,
        b2.len() == 16,
        spec_random_masked(b1) != spec_random_masked(b2),
    ensures
        spec_uuid_of_bytes(spec_random_masked(b1)) != spec_uuid_of_bytes(spec_random_masked(b2)),
{
    assert(spec_random_masked(b1).len() == 16);
    assert(spec_random_masked(b2).len() == 16);
    lemma_bytes_uuid_round_trip(spec_random_masked(b1));
    lemma_bytes_uuid_round_trip(spec_random_masked(b2));
}

/// The derived user principal: the self-authenticating principal of the
/// DER-encoded canister-signature key whose seed is the digest of the
/// length-prefixed salt and subject.
pub open spec fn spec_user_principal_of(
    salt: Seq<u8>,
    sub: Seq<u8>,
    canister_id: Seq<u8>,
) -> Seq<u8> {
    spec_self_authenticating(
        spec_canister_sig_pk_der(canister_id, sha256_of(spec_seed_blob(salt, sub))),
    )
}

/// Principal derivation is stable: it is a function of the salt, the
/// subject and the canister id alone, so equal inputs give the same
/// principal on every call, before and after a restart.
pub proof fn lemma_user_principal_stable(
    salt1: Seq<u8>,
    sub1: Seq<u8>,
    id1: Seq<u8>,
    salt2: Seq<u8>,
    sub2: Seq<u8>,
    id2: Seq<u8>,
)
    requires
        salt1 == salt2,
        sub1 == sub2,
        id1 == id2,
    ensures
        spec_user_principal_of(salt1, sub1, id1) == spec_user_principal_of(salt2, sub2, id2),
{
}

/// The seed-derivation input separates its parts: two subjects of the
/// same salt collide only when they are the same subject.
pub proof fn lemma_seed_blob_injective(salt: Seq<u8>, sub1: Seq<u8>, sub2: Seq<u8>)
    requires
        salt.len() == 32,
        sub1.len() <= 255,
        sub2.len() <= 255,
        spec_seed_blob(salt, sub1) == spec_seed_blob(salt, sub2),
    ensures
        sub1 == sub2,
{
    let a = spec_seed_blob(salt, sub1);
    let b = spec_seed_blob(salt, sub2);
    assert(a[33] == sub1.len() as u8);
    assert(b[33] == sub2.len() as u8);
    assert(a.len() == 34 + sub1.len());
    assert(sub1.len() == sub2.len());
    assert(sub1 =~= a.subrange(34, a.len() as int));
    assert(sub2 =~= b.subrange(34, b.len() as int));
}

/// The user directory is injective on each identity: in a well-formed
/// directory, no two entries share a principal, a subject, or a
/// directory id.
pub proof fn lemma_user_directory_injective(repo: UserRepository, i: int, j: int)
    requires
        repo.wf(),
        0 <= i < j < repo.entries@.len(),
    ensures
        repo.entries@[i].0@ != repo.entries@[j].0@,
        repo.entries@[i].1.jwt_sub@ != repo.entries@[j].1.jwt_sub@,
        repo.entries@[i].1.db_id != repo.entries@[j].1.db_id,
{
}

/// A signature map holding exactly one recorded delegation answers a
/// lookup for that delegation, and no other: retrieval with the prepared
/// expiration finds the signature; retrieval with any expiration whose
/// message hash differs finds none.
pub proof fn lemma_single_delegation_lookup(
    m: NestedModel,
    seed_hash: Seq<u8>,
    recorded_hash: Seq<u8>,
    queried_hash: Seq<u8>,
)
    requires
        m == spec_nested_insert(NestedModel::empty(), seed_hash, recorded_hash, Seq::<u8>::empty()),
    ensures
        m.contains_key(seed_hash) && m[seed_hash].contains_key(recorded_hash),
        queried_hash != recorded_hash ==> !(m.contains_key(seed_hash)
            && m[seed_hash].contains_key(queried_hash)),
{
}

/// Recording one delegation makes no other retrievable: when the map
/// lacked the path of another session key or expiration, and a
/// preparation records only its own path, the other path is still
/// absent, so its retrieval reports that no such delegation exists.
pub proof fn lemma_other_delegation_stays_unrecorded(
    m0: NestedModel,
    m1: NestedModel,
    seed_hash: Seq<u8>,
    recorded_hash: Seq<u8>,
    queried_hash: Seq<u8>,
)
    requires
        spec_paths_bounded(m1, m0, seed_hash, recorded_hash),
        !(m0.contains_key(seed_hash) && m0[seed_hash].contains_key(queried_hash)),
        queried_hash != recorded_hash,
    ensures
        !(m1.contains_key(seed_hash) && m1[seed_hash].contains_key(queried_hash)),
{
}

} // verus!
