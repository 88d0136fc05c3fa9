//! Principal identities: opaque byte strings of at most 29 bytes with two
//! distinguished constructions, the anonymous principal and the
//! self-authenticating principal derived from a public key.

use vstd::prelude::*;

verus! {

/// The digest of the 224-bit variant of the hash function used for
/// self-authenticating principals; 28 bytes, a function of the input alone.
pub uninterp spec fn sha224_of(bytes: Seq<u8>) -> Seq<u8>;

/// The canonical text form of principal bytes.
pub uninterp spec fn principal_text_of(bytes: Seq<u8>) -> Seq<char>;

/// A principal identity of at most 29 bytes.
#[derive(Debug, Clone)]
pub struct UserPrincipal {
    pub bytes: Vec<u8>,
}

impl View for UserPrincipal {
    type V = Seq<u8>;

    open spec fn view(&self) -> Seq<u8> {
        self.bytes@
    }
}

/// The byte string of the anonymous principal: the single tag byte 4.
pub open spec fn spec_anonymous_principal() -> Seq<u8> {
    seq![4u8]
}

/// The byte string of the self-authenticating principal of a public key:
/// its 28-byte digest followed by the tag byte 2.
pub open spec fn spec_self_authenticating(public_key: Seq<u8>) -> Seq<u8> {
    sha224_of(public_key) + seq![2u8]
}

impl UserPrincipal {
    /// Principal bytes are at most 29 bytes long.
    pub open spec fn wf(&self) -> bool {
        self@.len() <= 29
    }

    /// Builds a principal from raw bytes.
    pub fn from_bytes(bytes: Vec<u8>) -> (p: UserPrincipal)
        requires
            bytes@.len() <= 29,
        ensures
            p@ == bytes@,
            p.wf(),
    {
        UserPrincipal { bytes }
    }

    /// The raw bytes of this principal.
    pub fn as_bytes(&self) -> (b: &Vec<u8>)
        ensures
            b@ == self@,
    {
        &self.bytes
    }

    /// A copy of the raw bytes of this principal.
    pub fn to_bytes(&self) -> (b: Vec<u8>)
        ensures
            b@ == self@,
    {
        self.bytes.clone()
    }

    /// The anonymous principal.
    pub fn anonymous() -> (p: UserPrincipal)
        ensures
            p@ == spec_anonymous_principal(),
            p.wf(),
    {
        UserPrincipal { bytes: vec![4u8] }
    }

    /// True when this principal is the anonymous principal.
    pub fn is_anonymous(&self) -> (r: bool)
        ensures
            r == (self@ == spec_anonymous_principal()),
    {
        let r = self.bytes.len() == 1 && self.bytes[0] == 4u8;
        proof {
            if r {
                assert(self@ =~= spec_anonymous_principal());
            }
        }
        r
    }

    /// The self-authenticating principal of a public key.
    pub fn self_authenticating(public_key: &Vec<u8>) -> (p: UserPrincipal)
        ensures
            p@ == spec_self_authenticating(public_key@),
            p.wf(),
    {
        UserPrincipal { bytes: self_authenticating_bytes(public_key) }
    }

    /// A copy of this principal.
    pub fn duplicate(&self) -> (p: UserPrincipal)
        ensures
            p@ == self@,
    {
        UserPrincipal { bytes: self.bytes.clone() }
    }

    /// Byte-wise equality of principals.
    pub fn equals(&self, other: &UserPrincipal) -> (r: bool)
        ensures
            r == (self@ == other@),
    {
        vec_u8_eq(&self.bytes, &other.bytes)
    }

    /// The canonical text form of this principal.
    pub fn to_text(&self) -> (s: String)
        requires
            self.wf(),
        ensures
            s@ == principal_text_of(self@),
    {
        principal_to_text(&self.bytes)
    }
}

/// Byte-wise equality of byte vectors.
pub fn vec_u8_eq(a: &Vec<u8>, b: &Vec<u8>) -> (r: bool)
    ensures
        r == (a@ == b@),
{
    if a.len() != b.len() {
        proof {
            assert(a@ != b@);
        }
        return false;
    }
    let n = a.len();
    for i in 0..n
        invariant
            n == a@.len() == b@.len(),
            forall|j: int| 0 <= j < i ==> a@[j] == b@[j],
    {
        if a[i] != b[i] {
            return false;
        }
    }
    proof {
        assert(a@ =~= b@);
    }
    true
}

/// Relies on candid's `Principal::self_authenticating`: the 224-bit digest
/// of the public key followed by the tag byte 2, 29 bytes in all.
#[verifier::external_body]
fn self_authenticating_bytes(public_key: &Vec<u8>) -> (r: Vec<u8>)
    ensures
        r@ == sha224_of(public_key@) + seq![2u8],
        r@ == spec_self_authenticating(public_key@),
        r@.len() == 29,
{
    candid::Principal::self_authenticating(public_key).as_slice().to_vec()
}

/// Relies on candid's `Principal::to_text`: the canonical text form of
/// principal bytes, a function of the bytes alone.
#[verifier::external_body]
fn principal_to_text(bytes: &Vec<u8>) -> (s: String)
    requires
        bytes@.len() <= 29,
    ensures
        s@ == principal_text_of(bytes@),
{
    candid::Principal::from_slice(bytes.as_slice()).to_text()
}

} // verus!
