//! The identity provider's public-key set: RSA keys identified by a key
//! id, with lookup by that id.

use vstd::prelude::*;

use crate::strutil::str_eq;

verus! {

/// One RSA public key of the provider's key set.  The `key_use` field
/// carries the key-use indicator of the wire format.
#[derive(Debug, Clone)]
pub struct Auth0JWK {
    pub kty: String,
    pub key_use: String,
    pub n: String,
    pub e: String,
    pub kid: String,
    pub x5t: String,
    pub x5c: Vec<String>,
    pub alg: String,
}

/// The provider's key set: an ordered list of keys.
#[derive(Debug, Clone)]
pub struct Auth0JWKSet {
    pub keys: Vec<Auth0JWK>,
}

/// The view of one key: its fields as character sequences.
pub struct JwkView {
    pub kty: Seq<char>,
    pub key_use: Seq<char>,
    pub n: Seq<char>,
    pub e: Seq<char>,
    pub kid: Seq<char>,
    pub x5t: Seq<char>,
    pub x5c: Seq<Seq<char>>,
    pub alg: Seq<char>,
}

impl View for Auth0JWK {
    type V = JwkView;

    open spec fn view(&self) -> JwkView {
        JwkView {
            kty: self.kty@,
            key_use: self.key_use@,
            n: self.n@,
            e: self.e@,
            kid: self.kid@,
            x5t: self.x5t@,
            x5c: self.x5c@.map_values(|s: String| s@),
            alg: self.alg@,
        }
    }
}

impl View for Auth0JWKSet {
    type V = Seq<JwkView>;

    open spec fn view(&self) -> Seq<JwkView> {
        self.keys@.map_values(|k: Auth0JWK| k@)
    }
}

impl Auth0JWK {
    /// A copy of this key.
    pub fn duplicate(&self) -> (r: Auth0JWK)
        ensures
            r@ == self@,
    {
        let r = Auth0JWK {
            kty: self.kty.clone(),
            key_use: self.key_use.clone(),
            n: self.n.clone(),
            e: self.e.clone(),
            kid: self.kid.clone(),
            x5t: self.x5t.clone(),
            x5c: clone_strings(&self.x5c),
            alg: self.alg.clone(),
        };
        proof {
            assert(r@ == self@);
        }
        r
    }
}

/// A copy of a list of strings.
pub fn clone_strings(v: &Vec<String>) -> (r: Vec<String>)
    ensures
        r@.map_values(|s: String| s@) == v@.map_values(|s: String| s@),
{
    let mut r: Vec<String> = Vec::new();
    let n = v.len();
    for i in 0..n
        invariant
            n == v@.len(),
            r@.len() == i,
            forall|j: int| 0 <= j < i ==> r@[j]@ == v@[j]@,
    {
        r.push(v[i].clone());
    }
    proof {
        assert(r@.map_values(|s: String| s@) =~= v@.map_values(|s: String| s@));
    }
    r
}

impl Auth0JWKSet {
    /// A copy of this key set.
    pub fn duplicate(&self) -> (r: Auth0JWKSet)
        ensures
            r@ == self@,
    {
        let mut keys: Vec<Auth0JWK> = Vec::new();
        let n = self.keys.len();
        for i in 0..n
            invariant
                n == self.keys@.len(),
                keys@.len() == i,
                forall|j: int| 0 <= j < i ==> keys@[j]@ == self.keys@[j]@,
        {
            keys.push(self.keys[i].duplicate());
        }
        let r = Auth0JWKSet { keys };
        proof {
            assert(r@ =~= self@);
        }
        r
    }
}

/// The first key of the list bearing the given id.
pub open spec fn spec_find_key(keys: Seq<Auth0JWK>, kid: Seq<char>) -> Option<Auth0JWK>
    decreases keys.len(),
{
    if keys.len() == 0 {
        None
    } else if keys.first().kid@ == kid {
        Some(keys.first())
    } else {
        spec_find_key(keys.drop_first(), kid)
    }
}

impl Auth0JWKSet {
    /// Looks up a key by its id: the first key with that id, if any.
    pub fn find_key(&self, kid: &str) -> (r: Option<&Auth0JWK>)
        ensures
            match r {
                Some(k) => spec_find_key(self.keys@, kid@) == Some(*k),
                None => spec_find_key(self.keys@, kid@) is None,
            },
    {
        let n = self.keys.len();
        proof {
            assert(self.keys@.skip(0) =~= self.keys@);
        }
        for i in 0..n
            invariant
                n == self.keys@.len(),
                spec_find_key(self.keys@, kid@) == spec_find_key(self.keys@.skip(i as int), kid@),
        {
            proof {
                assert(self.keys@.skip(i as int).first() == self.keys@[i as int]);
                assert(self.keys@.skip(i as int).drop_first() =~= self.keys@.skip(i + 1));
            }
            if str_eq(self.keys[i].kid.as_str(), kid) {
                return Some(&self.keys[i]);
            }
        }
        proof {
            assert(self.keys@.skip(n as int) =~= Seq::<Auth0JWK>::empty());
        }
        None
    }
}

} // verus!
