//! The delegation service: decodes and validates a presented token,
//! binds it to the calling session key through the nonce, derives the
//! user's signing seed and principal, records and serves delegation
//! signatures, and manages the cached key set.

use vstd::prelude::*;

use crate::crypto::{
    calculate_seed, delegation_signature_msg_hash, der_encode_canister_sig_key, sha256_of,
    spec_canister_sig_pk_der, spec_delegation_msg_hash, spec_seed_blob,
};
use crate::delegation::{
    spec_paths_bounded, spec_salt_is_empty, spec_signature_cbor, DelegationRepository,
};
use crate::hex::{hex_decode, spec_all_hex, spec_hex_bytes};
use crate::jwk::{Auth0JWK, Auth0JWKSet};
use crate::date_time::DateTime;
use crate::jwt::{
    decode_jwt, spec_decode_jwt, spec_exp_ns, spec_validate, JWTClaims, JWTClaimsView,
    NANOS_IN_SECONDS,
};
use crate::principal::{spec_self_authenticating, UserPrincipal};
use crate::strutil::{ascii_eq_ignore_case, spec_ascii_lower};
use crate::tree::nested_model;
use crate::user::{
    spec_db_conflict_msg, spec_sub_conflict_msg, spec_user_at, spec_user_by_db_id,
    spec_user_by_sub, User, UserRepository,
};
use crate::uuid::{spec_uuid_parse, spec_uuid_parse_error, Uuid};

verus! {

/// The answer to a delegation preparation: the user's DER-encoded public
/// key and the delegation's expiration in nanoseconds.
#[derive(Debug)]
pub struct PrepareDelegationResponse {
    pub user_key: Vec<u8>,
    pub expiration: u64,
}

/// A delegation: the session key it empowers, its expiration, and no
/// target restriction.
#[derive(Debug)]
pub struct Delegation {
    pub pubkey: Vec<u8>,
    pub expiration: u64,
    pub targets: Option<Vec<UserPrincipal>>,
}

/// A delegation together with its canister signature.
#[derive(Debug)]
pub struct SignedDelegation {
    pub delegation: Delegation,
    pub signature: Vec<u8>,
}

/// The answer to a delegation retrieval.
#[derive(Debug)]
pub enum GetDelegationResponse {
    SignedDelegation(SignedDelegation),
    NoSuchDelegation,
}

/// The outcome of decoding, validating and binding a token: the claims
/// and the session key from the nonce, or the first failure's message.
pub open spec fn spec_check_authorization(
    jwks: Option<Auth0JWKSet>,
    caller: Seq<u8>,
    jwt: Seq<char>,
    now_s: u64,
) -> Result<(JWTClaimsView, Seq<u8>), Seq<char>> {
    match spec_decode_jwt(jwt, jwks) {
        Err(e) => Err(e.spec_message()),
        Ok(claims) => match spec_validate(claims, now_s) {
            Err(e) => Err(e.spec_message()),
            Ok(_) => {
                if !(claims.nonce.len() % 2 == 0 && spec_all_hex(claims.nonce)) {
                    Err("invalid nonce hex"@)
                } else {
                    let session_key = spec_hex_bytes(claims.nonce);
                    if caller != spec_self_authenticating(session_key) {
                        Err("caller and token principal mismatch"@)
                    } else {
                        Ok((claims, session_key))
                    }
                }
            },
        },
    }
}

/// The failures of a preparation that precede any state change, in
/// checking order: authorization, the presence of the nested user id,
/// its shape, and the subject length; each with its message.
pub open spec fn spec_prepare_early_failure(
    jwks: Option<Auth0JWKSet>,
    caller: Seq<u8>,
    jwt: Seq<char>,
    now_ns: u64,
) -> Option<Seq<char>> {
    match spec_check_authorization(jwks, caller, jwt, now_ns / NANOS_IN_SECONDS) {
        Err(m) => Some(m),
        Ok((claims, _)) => match claims.hasura_claims {
            None => Some("User ID not found in hasura claims"@),
            Some(h) => {
                if spec_uuid_parse(h.x_hasura_user_id) is None {
                    Some(spec_uuid_parse_error(h.x_hasura_user_id))
                } else if vstd::utf8::encode_utf8(claims.sub).len() > 255 {
                    Some("token subject is too long"@)
                } else {
                    None
                }
            },
        },
    }
}

/// The directory conflict a preparation can hit after recording the
/// signature: the derived principal is free, but the token subject or
/// the directory id is already bound to another principal.
pub open spec fn spec_prepare_conflict(
    users: Seq<(UserPrincipal, User)>,
    salt: Seq<u8>,
    canister_id: Seq<u8>,
    claims: JWTClaimsView,
) -> Option<Seq<char>> {
    let principal = spec_self_authenticating(
        spec_canister_sig_pk_der(
            canister_id,
            sha256_of(spec_seed_blob(salt, vstd::utf8::encode_utf8(claims.sub))),
        ),
    );
    if spec_user_at(users, principal) is Some {
        None
    } else if spec_user_by_sub(users, claims.sub) is Some {
        Some(spec_sub_conflict_msg(claims.sub))
    } else if spec_user_by_db_id(
        users,
        spec_uuid_parse(claims.hasura_claims.unwrap().x_hasura_user_id).unwrap(),
    ) is Some {
        Some(
            spec_db_conflict_msg(
                spec_uuid_parse(claims.hasura_claims.unwrap().x_hasura_user_id).unwrap(),
            ),
        )
    } else {
        None
    }
}

/// The delegation service.
pub struct DelegationService {}

impl DelegationService {
    pub fn new() -> (r: DelegationService) {
        DelegationService {  }
    }

    /// Initializes the salt from platform randomness when it is still the
    /// empty sentinel; a set salt is never replaced.
    pub fn ensure_salt_initialized(&self, repo: &mut DelegationRepository, random: [u8; 32])
        ensures
            spec_salt_is_empty(old(repo).salt@) ==> final(repo).salt@ == random@,
            !spec_salt_is_empty(old(repo).salt@) ==> final(repo).salt@ == old(repo).salt@,
            final(repo).sigs == old(repo).sigs,
            final(repo).jwks == old(repo).jwks,
    {
        if repo.salt_is_empty() {
            repo.set_salt(random);
        }
    }

    /// Decodes the token against the cached key set, validates its
    /// claims, and requires the caller to be the self-authenticating
    /// principal of the key named in the nonce.
    pub fn check_authorization(
        &self,
        repo: &DelegationRepository,
        caller: &UserPrincipal,
        jwt: &str,
        now_s: u64,
    ) -> (r: Result<(JWTClaims, Vec<u8>), String>)
        ensures
            r is Ok <==> spec_check_authorization(repo.jwks, caller@, jwt@, now_s) is Ok,
            r is Ok ==> ({
                let (claims, key) = r->Ok_0;
                &&& Some(claims@) == Some(
                    spec_check_authorization(repo.jwks, caller@, jwt@, now_s)->Ok_0.0,
                )
                &&& key@ == spec_check_authorization(repo.jwks, caller@, jwt@, now_s)->Ok_0.1
            }),
            r is Err ==> r->Err_0@ == spec_check_authorization(
                repo.jwks,
                caller@,
                jwt@,
                now_s,
            )->Err_0,
    {
        let claims = match decode_jwt(jwt, repo.jwks.as_ref()) {
            Ok(c) => c,
            Err(e) => {
                return Err(e.message());
            },
        };
        match claims.validate(now_s) {
            Ok(_) => {},
            Err(e) => {
                return Err(e.message());
            },
        }
        let session_key = match hex_decode(claims.nonce.as_str()) {
            Some(k) => k,
            None => {
                return Err(String::from_str("invalid nonce hex"));
            },
        };
        let token_principal = UserPrincipal::self_authenticating(&session_key);
        if !caller.equals(&token_principal) {
            return Err(String::from_str("caller and token principal mismatch"));
        }
        Ok((claims, session_key))
    }

    /// Prepares a delegation: after authorization, derives the user's
    /// seed from the salt and the token subject, records the signature
    /// over the session key and the token's expiration, and creates the
    /// user on first sight.  Returns the user's DER-encoded public key
    /// and the expiration.
    pub fn prepare_delegation(
        &self,
        repo: &mut DelegationRepository,
        users: &mut UserRepository,
        caller: &UserPrincipal,
        jwt: &str,
        canister_id: &Vec<u8>,
        now_ns: u64,
    ) -> (r: Result<PrepareDelegationResponse, String>)
        requires
            old(users).wf(),
            canister_id@.len() <= 29,
            !spec_salt_is_empty(old(repo).salt@),
        ensures
            final(repo).salt@ == old(repo).salt@,
            final(repo).jwks == old(repo).jwks,
            final(users).wf(),
            r is Err ==> final(users).entries@ == old(users).entries@,
            spec_prepare_early_failure(old(repo).jwks, caller@, jwt@, now_ns) matches Some(m)
                ==> (r matches Err(e) && e@ == m && nested_model(&final(repo).sigs)
                == nested_model(&old(repo).sigs)),
            spec_prepare_early_failure(old(repo).jwks, caller@, jwt@, now_ns) is None ==> ({
                let claims = spec_check_authorization(
                    old(repo).jwks,
                    caller@,
                    jwt@,
                    now_ns / NANOS_IN_SECONDS,
                )->Ok_0.0;
                let session_key = spec_check_authorization(
                    old(repo).jwks,
                    caller@,
                    jwt@,
                    now_ns / NANOS_IN_SECONDS,
                )->Ok_0.1;
                let seed = sha256_of(
                    spec_seed_blob(old(repo).salt@, vstd::utf8::encode_utf8(claims.sub)),
                );
                let mh = spec_delegation_msg_hash(session_key, spec_exp_ns(claims.exp));
                &&& nested_model(&final(repo).sigs).contains_key(sha256_of(seed))
                &&& nested_model(&final(repo).sigs)[sha256_of(seed)].contains_key(mh)
                &&& spec_paths_bounded(
                    nested_model(&final(repo).sigs),
                    nested_model(&old(repo).sigs),
                    sha256_of(seed),
                    mh,
                )
                &&& (match spec_prepare_conflict(
                    old(users).entries@,
                    old(repo).salt@,
                    canister_id@,
                    claims,
                ) {
                    Some(m) => r matches Err(e) && e@ == m,
                    None => r is Ok,
                })
            }),
            r is Ok ==> ({
                let claims = spec_check_authorization(
                    old(repo).jwks,
                    caller@,
                    jwt@,
                    now_ns / NANOS_IN_SECONDS,
                )->Ok_0.0;
                let seed = sha256_of(
                    spec_seed_blob(old(repo).salt@, vstd::utf8::encode_utf8(claims.sub)),
                );
                let principal = spec_self_authenticating(
                    spec_canister_sig_pk_der(canister_id@, seed),
                );
                let resp = r->Ok_0;
                let old_entries = old(users).entries@;
                let new_entries = final(users).entries@;
                &&& resp.user_key@ == spec_canister_sig_pk_der(canister_id@, seed)
                &&& resp.expiration == spec_exp_ns(claims.exp)
                &&& (if spec_user_at(old_entries, principal) is Some {
                    new_entries == old_entries
                } else {
                    let created = new_entries.last();
                    &&& new_entries.len() == old_entries.len() + 1
                    &&& new_entries.drop_last() == old_entries
                    &&& created.0@ == principal
                    &&& created.1.jwt_sub@ == claims.sub
                    &&& Some(created.1.db_id) == spec_uuid_parse(
                        claims.hasura_claims.unwrap().x_hasura_user_id,
                    )
                    &&& created.1.created_at.secs == now_ns / NANOS_IN_SECONDS
                })
                &&& spec_user_at(new_entries, principal) is Some
            }),
    {
        let now_s = now_ns / NANOS_IN_SECONDS;
        let (claims, session_key) = match self.check_authorization(repo, caller, jwt, now_s) {
            Ok(p) => p,
            Err(e) => {
                return Err(e);
            },
        };
        let db_id_text = match claims.user_id() {
            Some(id) => id,
            None => {
                return Err(String::from_str("User ID not found in hasura claims"));
            },
        };
        let db_id = match Uuid::try_from_text(db_id_text.as_str()) {
            Ok(u) => u,
            Err(e) => {
                return Err(e);
            },
        };
        let expiration = claims.expiration_timestamp_ns();
        let salt = repo.get_salt();
        let seed = match calculate_seed(&salt, claims.sub.as_str()) {
            Ok(s) => s,
            Err(e) => {
                return Err(e);
            },
        };
        let seed_vec = vstd::slice::slice_to_vec(&seed);
        let msg_hash = delegation_signature_msg_hash(&session_key, expiration);
        repo.add_delegation_signature(&seed_vec, &msg_hash, now_ns);
        let user_key = der_encode_canister_sig_key(canister_id, &seed_vec);
        let user_principal = UserPrincipal::self_authenticating(&user_key);
        if users.get_user_by_principal(&user_principal).is_none() {
            proof {
                vstd::arithmetic::div_mod::lemma_div_is_ordered(
                    now_ns as int,
                    u64::MAX as int,
                    NANOS_IN_SECONDS as int,
                );
            }
            let created_at = match DateTime::new(now_s) {
                Ok(d) => d,
                Err(e) => {
                    return Err(e);
                },
            };
            let user = User { jwt_sub: claims.sub.clone(), db_id, created_at };
            let ghost old_entries = users.entries@;
            let ghost pushed_principal = user_principal@;
            match users.create_user(user_principal, user) {
                Ok(_) => {},
                Err(e) => {
                    return Err(e);
                },
            }
            proof {
                crate::user::lemma_user_at_push(
                    old_entries,
                    users.entries@.last(),
                    pushed_principal,
                );
                assert(users.entries@.drop_last() =~= old_entries);
            }
        }
        Ok(PrepareDelegationResponse { user_key, expiration })
    }

    /// Retrieves a delegation: after authorization, looks up the
    /// signature recorded for the session key and the given expiration,
    /// and returns it together with the delegation, or reports that none
    /// is recorded.
    pub fn get_delegation(
        &self,
        repo: &DelegationRepository,
        caller: &UserPrincipal,
        jwt: &str,
        expiration: u64,
        certificate: &Vec<u8>,
        now_ns: u64,
    ) -> (r: Result<GetDelegationResponse, String>)
        ensures
            r is Err <==> spec_check_authorization(
                repo.jwks,
                caller@,
                jwt@,
                now_ns / NANOS_IN_SECONDS,
            ) is Err,
            r is Err ==> r->Err_0@ == spec_check_authorization(
                repo.jwks,
                caller@,
                jwt@,
                now_ns / NANOS_IN_SECONDS,
            )->Err_0,
            r is Ok ==> ({
                let auth = spec_check_authorization(
                    repo.jwks,
                    caller@,
                    jwt@,
                    now_ns / NANOS_IN_SECONDS,
                );
                let claims = auth->Ok_0.0;
                let session_key = auth->Ok_0.1;
                let sub_bytes = vstd::utf8::encode_utf8(claims.sub);
                let seed = sha256_of(spec_seed_blob(repo.salt@, sub_bytes));
                let mh = spec_delegation_msg_hash(session_key, expiration);
                let present = sub_bytes.len() <= 255 && nested_model(&repo.sigs).contains_key(
                    sha256_of(seed),
                ) && nested_model(&repo.sigs)[sha256_of(seed)].contains_key(mh);
                match r->Ok_0 {
                    GetDelegationResponse::SignedDelegation(sd) => {
                        &&& present
                        &&& sd.delegation.pubkey@ == session_key
                        &&& sd.delegation.expiration == expiration
                        &&& sd.delegation.targets is None
                        &&& sd.signature@ == spec_signature_cbor(
                            certificate@,
                            &repo.sigs,
                            sha256_of(seed),
                            mh,
                        )
                    },
                    GetDelegationResponse::NoSuchDelegation => !present,
                }
            }),
    {
        let now_s = now_ns / NANOS_IN_SECONDS;
        let (claims, session_key) = match self.check_authorization(repo, caller, jwt, now_s) {
            Ok(p) => p,
            Err(e) => {
                return Err(e);
            },
        };
        let salt = repo.get_salt();
        let seed = match calculate_seed(&salt, claims.sub.as_str()) {
            Ok(s) => s,
            Err(_) => {
                return Ok(GetDelegationResponse::NoSuchDelegation);
            },
        };
        let seed_vec = vstd::slice::slice_to_vec(&seed);
        let msg_hash = delegation_signature_msg_hash(&session_key, expiration);
        match repo.get_signature(&seed_vec, &msg_hash, certificate) {
            Ok(signature) => Ok(
                GetDelegationResponse::SignedDelegation(
                    SignedDelegation {
                        delegation: Delegation {
                            pubkey: session_key,
                            expiration,
                            targets: None,
                        },
                        signature,
                    },
                ),
            ),
            Err(_) => Ok(GetDelegationResponse::NoSuchDelegation),
        }
    }

    /// The cached key set.
    pub fn get_jwks(&self, repo: &DelegationRepository) -> (r: Option<Auth0JWKSet>)
        ensures
            match r {
                Some(k) => repo.jwks matches Some(j) && k@ == j@,
                None => repo.jwks is None,
            },
    {
        repo.get_jwks()
    }

    /// Installs a key set once: a second explicit installation is
    /// rejected; refreshes go through the fetch path.
    pub fn set_jwks(&self, repo: &mut DelegationRepository, jwks: Auth0JWKSet) -> (r: Result<
        (),
        String,
    >)
        ensures
            r is Ok <==> old(repo).jwks is None,
            r is Ok ==> (final(repo).jwks matches Some(j) && j@ == jwks@),
            r is Err ==> *final(repo) == *old(repo) && r->Err_0@
                == "JWKS already set. Call sync_jwks to fetch the JWKS from the auth provider"@,
    {
        if repo.jwks.is_some() {
            return Err(
                String::from_str(
                    "JWKS already set. Call sync_jwks to fetch the JWKS from the auth provider",
                ),
            );
        }
        repo.set_jwks(jwks);
        Ok(())
    }

    /// Parses a fetched key-set document and replaces the cache with it.
    /// Returns how many keys the document holds.
    pub fn store_jwks_payload(&self, repo: &mut DelegationRepository, body: &Vec<u8>) -> (r: Result<
        usize,
        String,
    >)
        ensures
            r is Ok <==> jwks_count_of(body@) is Some && (forall|i: int|
                0 <= i < jwks_count_of(body@).unwrap() ==> #[trigger] jwk_at_of(body@, i) is Some),
            r is Ok ==> r->Ok_0 == jwks_count_of(body@).unwrap(),
            r is Ok ==> (final(repo).jwks matches Some(set) && set.keys@.len() == jwks_count_of(
                body@,
            ).unwrap() && (forall|i: int|
                0 <= i < set.keys@.len() ==> #[trigger] set.keys@[i]@ == spec_jwk_of_fields(
                    jwk_at_of(body@, i).unwrap(),
                ))),
            r is Err ==> *final(repo) == *old(repo) && r->Err_0@ == "Error parsing JWKS"@,
    {
        let count = match parse_jwks_count(body) {
            Some(c) => c,
            None => {
                return Err(String::from_str("Error parsing JWKS"));
            },
        };
        let mut keys: Vec<Auth0JWK> = Vec::new();
        for i in 0..count
            invariant
                jwks_count_of(body@) == Some(count),
                keys@.len() == i,
                forall|j: int|
                    0 <= j < i ==> #[trigger] jwk_at_of(body@, j) is Some && keys@[j]@
                        == spec_jwk_of_fields(jwk_at_of(body@, j).unwrap()),
            decreases count - i,
        {
            let (kty, key_use, n, e, kid, x5t, x5c, alg) = match parse_jwk_at(body, i) {
                Some(f) => f,
                None => {
                    return Err(String::from_str("Error parsing JWKS"));
                },
            };
            let key = Auth0JWK { kty, key_use, n, e, kid, x5t, x5c, alg };
            keys.push(key);
        }
        let set = Auth0JWKSet { keys };
        let ghost keysv = set.keys@;
        let ghost builtv = set@;
        repo.set_jwks(set);
        proof {
            let j = repo.jwks.unwrap();
            assert(j@ == builtv);
            assert(j.keys@.len() == builtv.len());
            assert forall|i: int|
                0 <= i < j.keys@.len() implies #[trigger] j.keys@[i]@ == spec_jwk_of_fields(
                jwk_at_of(body@, i).unwrap(),
            ) by {
                assert(j@[i] == j.keys@[i]@);
                assert(builtv[i] == keysv[i]@);
            }
        }
        Ok(count)
    }

    /// Shapes a fetched key-set response for consensus: only the
    /// content-type header is kept; the body passes through unchanged and
    /// the caller forces the status to 200.
    pub fn transform_jwks_response(&self, headers: &Vec<(String, String)>) -> (r: Vec<
        (String, String),
    >)
        ensures
            headers_view(r@) == headers_view(headers@).filter(
                |h: (Seq<char>, Seq<char>)| spec_ascii_lower(h.0) == "content-type"@,
            ),
    {
        let mut out: Vec<(String, String)> = Vec::new();
        let n = headers.len();
        proof {
            reveal(Seq::filter);
            assert(headers_view(headers@.take(0)).filter(
                |h: (Seq<char>, Seq<char>)| spec_ascii_lower(h.0) == "content-type"@,
            ) =~= Seq::<(Seq<char>, Seq<char>)>::empty());
            assert(headers_view(out@) =~= Seq::<(Seq<char>, Seq<char>)>::empty());
        }
        for i in 0..n
            invariant
                n == headers@.len(),
                headers_view(out@) == headers_view(headers@.take(i as int)).filter(
                    |h: (Seq<char>, Seq<char>)| spec_ascii_lower(h.0) == "content-type"@,
                ),
            decreases n - i,
        {
            let ghost prev = headers_view(out@);
            let matched = ascii_eq_ignore_case(headers[i].0.as_str(), "content-type");
            if matched {
                out.push((headers[i].0.clone(), headers[i].1.clone()));
            }
            proof {
                reveal(Seq::filter);
                reveal_strlit("content-type");
                let s1 = headers_view(headers@.take(i + 1));
                assert(s1.drop_last() =~= headers_view(headers@.take(i as int)));
                assert(s1.last() == (headers@[i as int].0@, headers@[i as int].1@));
                assert(spec_ascii_lower("content-type"@) =~= "content-type"@);
                if matched {
                    assert(headers_view(out@) =~= prev.push(s1.last()));
                } else {
                    assert(headers_view(out@) =~= prev);
                }
            }
        }
        proof {
            assert(headers@.take(n as int) =~= headers@);
        }
        out
    }
}

/// The view of a header list.
pub open spec fn headers_view(s: Seq<(String, String)>) -> Seq<(Seq<char>, Seq<char>)> {
    s.map_values(|h: (String, String)| (h.0@, h.1@))
}

/// The number of keys a key-set document holds, when it parses.
pub uninterp spec fn jwks_count_of(bytes: Seq<u8>) -> Option<usize>;

/// The fields of the key at the given index of a key-set document: key
/// type, use, modulus, exponent, key id, thumbprint, certificate chain,
/// and algorithm, when the key is of that shape.
pub uninterp spec fn jwk_at_of(bytes: Seq<u8>, i: int) -> Option<
    (
        Seq<char>,
        Seq<char>,
        Seq<char>,
        Seq<char>,
        Seq<char>,
        Seq<char>,
        Seq<Seq<char>>,
        Seq<char>,
    ),
>;

/// The key view assembled from parsed fields.
pub open spec fn spec_jwk_of_fields(
    f: (
        Seq<char>,
        Seq<char>,
        Seq<char>,
        Seq<char>,
        Seq<char>,
        Seq<char>,
        Seq<Seq<char>>,
        Seq<char>,
    ),
) -> crate::jwk::JwkView {
    crate::jwk::JwkView {
        kty: f.0,
        key_use: f.1,
        n: f.2,
        e: f.3,
        kid: f.4,
        x5t: f.5,
        x5c: f.6,
        alg: f.7,
    }
}

/// Relies on serde_json: how many entries the document's `keys` array
/// holds, a function of the bytes alone.
#[verifier::external_body]
fn parse_jwks_count(body: &Vec<u8>) -> (r: Option<usize>)
    ensures
        r == jwks_count_of(body@),
{
    let v: serde_json::Value = serde_json::from_slice(body).ok()?;
    Some(v.get("keys")?.as_array()?.len())
}

/// Relies on serde_json: the fields of the key at the given index, a
/// function of the bytes and the index alone.
#[verifier::external_body]
fn parse_jwk_at(body: &Vec<u8>, i: usize) -> (r: Option<
    (String, String, String, String, String, String, Vec<String>, String),
>)
    ensures
        r is Some <==> jwk_at_of(body@, i as int) is Some,
        r is Some ==> ({
            let t = r.unwrap();
            let f = jwk_at_of(body@, i as int).unwrap();
            t.0@ == f.0 && t.1@ == f.1 && t.2@ == f.2 && t.3@ == f.3 && t.4@ == f.4 && t.5@ == f.5
                && t.6@.map_values(|s: String| s@) == f.6 && t.7@ == f.7
        }),
{
    let v: serde_json::Value = serde_json::from_slice(body).ok()?;
    let k = v.get("keys")?.as_array()?.get(i)?;
    Some((
        k.get("kty")?.as_str()?.to_string(),
        k.get("use")?.as_str()?.to_string(),
        k.get("n")?.as_str()?.to_string(),
        k.get("e")?.as_str()?.to_string(),
        k.get("kid")?.as_str()?.to_string(),
        k.get("x5t")?.as_str()?.to_string(),
        serde_json::from_value(k.get("x5c")?.clone()).ok()?,
        k.get("alg")?.as_str()?.to_string(),
    ))
}

} // verus!
