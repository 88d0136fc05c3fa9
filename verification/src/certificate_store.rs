//! The certificate registry: certificates keyed by identifier, held in
//! identifier order, beside a certified two-level tree that holds, under
//! the registry label, each certificate's leaf hash at the path of its
//! user principal and identifier.

use vstd::prelude::*;

use crate::certificate::{
    spec_certificate_leaf_hash, Certificate, CertificateId, CertificateView,
};
use crate::crypto::{sha256_of, spec_with_domain};
use crate::principal::UserPrincipal;
use crate::tree::{
    nested_model, nested_root_of, nested_witness_of, spec_nested_insert, NestedHashTree,
    NestedModel,
};
use crate::uuid::{lemma_uuid_bytes_round_trip, Uuid};

verus! {

/// The label under which the registry tree is published.
pub open spec fn spec_certificates_label() -> Seq<u8> {
    "ssp_certificates"@.map_values(|c: char| c as u8)
}

/// The registry label as bytes.
pub fn certificates_label() -> (r: Vec<u8>)
    ensures
        r@ == spec_certificates_label(),
        r@.len() == 16,
{
    let s = "ssp_certificates";
    let r = s.as_bytes_vec();
    proof {
        vstd::string::is_ascii_spec_bytes(s);
        assert(s.is_ascii()) by {
            reveal_strlit("ssp_certificates");
        }
        assert(s@.len() == 16) by {
            reveal_strlit("ssp_certificates");
        }
        assert(r@ =~= spec_certificates_label());
    }
    r
}

/// The view of the registry entries.
pub open spec fn certs_view(s: Seq<(CertificateId, Certificate)>) -> Seq<
    (CertificateId, CertificateView),
> {
    s.map_values(|e: (CertificateId, Certificate)| (e.0, e.1@))
}

/// The first certificate stored under the given identifier.
pub open spec fn spec_cert_at(s: Seq<(CertificateId, Certificate)>, id: Uuid) -> Option<
    CertificateView,
>
    decreases s.len(),
{
    if s.len() == 0 {
        None
    } else if s.first().0 == id {
        Some(s.first().1@)
    } else {
        spec_cert_at(s.drop_first(), id)
    }
}

/// The tree contents cover the entries: each certificate's leaf hash
/// stands at the path of its principal and identifier.
pub open spec fn spec_tree_covers(m: NestedModel, s: Seq<(CertificateId, Certificate)>) -> bool {
    forall|i: int|
        0 <= i < s.len() ==> {
            let e = #[trigger] s[i];
            &&& m.contains_key(e.1.user_principal@)
            &&& m[e.1.user_principal@].contains_key(e.0.spec_bytes())
            &&& m[e.1.user_principal@][e.0.spec_bytes()] == spec_certificate_leaf_hash(e.1@)
        }
}

/// The certificate registry.
pub struct CertificateRepository {
    pub entries: Vec<(CertificateId, Certificate)>,
    pub tree: NestedHashTree,
}

impl CertificateRepository {
    /// Entries are sorted strictly by identifier value (so identifiers are
    /// unique), well-formed, and covered by the tree.
    pub open spec fn wf(&self) -> bool {
        &&& forall|i: int, j: int|
            0 <= i < j < self.entries@.len() ==> self.entries@[i].0.spec_val()
                < self.entries@[j].0.spec_val()
        &&& forall|i: int|
            0 <= i < self.entries@.len() ==> (#[trigger] self.entries@[i]).1.wf()
                && self.entries@[i].1.renderable()
        &&& spec_tree_covers(nested_model(&self.tree), self.entries@)
    }

    /// A fresh, empty registry.
    pub fn new() -> (r: CertificateRepository)
        ensures
            r.entries@.len() == 0,
            r.wf(),
    {
        CertificateRepository { entries: Vec::new(), tree: NestedHashTree::new() }
    }

    /// The certificate under the given identifier, with the serialized
    /// labeled witness for its path in the registry tree.
    #[verifier::rlimit(100)]
    #[verifier::loop_isolation(false)]
    pub fn get_certificate(&self, id: &CertificateId) -> (r: Option<(Certificate, Vec<u8>)>)
        requires
            self.wf(),
        ensures
            match r {
                Some((cert, witness)) => {
                    &&& spec_cert_at(self.entries@, *id) == Some(cert@)
                    &&& cert@.wf()
                    &&& cert@.renderable()
                    &&& witness@ == crate::cbor::spec_cbor_self_describe() + nested_witness_of(
                        &self.tree,
                        spec_certificates_label(),
                        cert@.user_principal,
                        Some(id.spec_bytes()),
                    )
                    &&& nested_model(&self.tree)[cert@.user_principal][id.spec_bytes()]
                        == spec_certificate_leaf_hash(cert@)
                },
                None => spec_cert_at(self.entries@, *id) is None,
            },
    {
        let n = self.entries.len();
        proof {
            assert(self.entries@.skip(0) =~= self.entries@);
        }
        for i in 0..n
            invariant
                n == self.entries@.len(),
                spec_cert_at(self.entries@, *id) == spec_cert_at(
                    self.entries@.skip(i as int),
                    *id,
                ),
            decreases n - i,
        {
            proof {
                assert(self.entries@.skip(i as int).first() == self.entries@[i as int]);
                assert(self.entries@.skip(i as int).drop_first() =~= self.entries@.skip(i + 1));
            }
            if self.entries[i].0.same(id) {
                proof {
                    let e = self.entries@[i as int];
                    assert(e.1.wf() && e.1.renderable());
                    assert(nested_model(&self.tree)[e.1.user_principal@][e.0.spec_bytes()]
                        == spec_certificate_leaf_hash(e.1@));
                }
                let cert = self.entries[i].1.duplicate();
                let label = certificates_label();
                let pb = cert.user_principal.to_bytes();
                let idb = id.to_bytes();
                let inner_witness = self.tree.witness_cbor(&label, &pb, Some(&idb));
                let mut witness: Vec<u8> = Vec::new();
                crate::cbor::cbor_push_self_describe(&mut witness);
                crate::cbor::append_all(&mut witness, &inner_witness);
                return Some((cert, witness));
            }
        }
        proof {
            assert(self.entries@.skip(n as int) =~= Seq::<(CertificateId, Certificate)>::empty());
        }
        None
    }

    /// The certificates of the given user principal, in identifier order.
    #[verifier::rlimit(100)]
    pub fn get_certificates_by_user_principal(&self, user_principal: &UserPrincipal) -> (r: Result<
        Vec<(CertificateId, Certificate)>,
        String,
    >)
        requires
            self.wf(),
        ensures
            r is Ok,
            certs_view(r->Ok_0@) == certs_view(self.entries@).filter(
                |e: (CertificateId, CertificateView)| e.1.user_principal == user_principal@,
            ),
    {
        let mut out: Vec<(CertificateId, Certificate)> = Vec::new();
        let n = self.entries.len();
        proof {
            reveal(Seq::filter);
            assert(certs_view(self.entries@.take(0)).filter(
                |e: (CertificateId, CertificateView)| e.1.user_principal == user_principal@,
            ) =~= Seq::<(CertificateId, CertificateView)>::empty());
            assert(certs_view(out@) =~= Seq::<(CertificateId, CertificateView)>::empty());
        }
        for i in 0..n
            invariant
                n == self.entries@.len(),
                certs_view(out@) == certs_view(self.entries@.take(i as int)).filter(
                    |e: (CertificateId, CertificateView)| e.1.user_principal == user_principal@,
                ),
            decreases n - i,
        {
            let ghost prev = certs_view(out@);
            let e = &self.entries[i];
            let matched = e.1.user_principal.equals(user_principal);
            if matched {
                out.push((e.0, e.1.duplicate()));
            }
            proof {
                reveal(Seq::filter);
                let s1 = certs_view(self.entries@.take(i + 1));
                assert(s1.drop_last() =~= certs_view(self.entries@.take(i as int)));
                assert(s1.last() == (self.entries@[i as int].0, self.entries@[i as int].1@));
                if matched {
                    assert(certs_view(out@) =~= prev.push(s1.last()));
                } else {
                    assert(certs_view(out@) =~= prev);
                }
            }
        }
        proof {
            assert(self.entries@.take(n as int) =~= self.entries@);
        }
        Ok(out)
    }

    /// The certificates bound to the given managed-user identifier, in
    /// identifier order.
    #[verifier::rlimit(100)]
    pub fn get_certificates_by_managed_user_id(&self, managed_user_id: &Uuid) -> (r: Result<
        Vec<(CertificateId, Certificate)>,
        String,
    >)
        requires
            self.wf(),
        ensures
            r is Ok,
            certs_view(r->Ok_0@) == certs_view(self.entries@).filter(
                |e: (CertificateId, CertificateView)| e.1.managed_user_id == Some(
                    *managed_user_id,
                ),
            ),
    {
        let mut out: Vec<(CertificateId, Certificate)> = Vec::new();
        let n = self.entries.len();
        proof {
            reveal(Seq::filter);
            assert(certs_view(self.entries@.take(0)).filter(
                |e: (CertificateId, CertificateView)| e.1.managed_user_id == Some(
                    *managed_user_id,
                ),
            ) =~= Seq::<(CertificateId, CertificateView)>::empty());
            assert(certs_view(out@) =~= Seq::<(CertificateId, CertificateView)>::empty());
        }
        for i in 0..n
            invariant
                n == self.entries@.len(),
                certs_view(out@) == certs_view(self.entries@.take(i as int)).filter(
                    |e: (CertificateId, CertificateView)| e.1.managed_user_id == Some(
                        *managed_user_id,
                    ),
                ),
            decreases n - i,
        {
            let ghost prev = certs_view(out@);
            let e = &self.entries[i];
            let matched = match &e.1.managed_user_id {
                Some(m) => m.same(managed_user_id),
                None => false,
            };
            if matched {
                out.push((e.0, e.1.duplicate()));
            }
            proof {
                reveal(Seq::filter);
                let s1 = certs_view(self.entries@.take(i + 1));
                assert(s1.drop_last() =~= certs_view(self.entries@.take(i as int)));
                assert(s1.last() == (self.entries@[i as int].0, self.entries@[i as int].1@));
                if matched {
                    assert(certs_view(out@) =~= prev.push(s1.last()));
                } else {
                    assert(certs_view(out@) =~= prev);
                }
            }
        }
        proof {
            assert(self.entries@.take(n as int) =~= self.entries@);
        }
        Ok(out)
    }

    /// Stores a certificate under the given identifier, replacing any
    /// certificate already there, and records its leaf hash in the tree.
    #[verifier::rlimit(100)]
    pub fn insert_certificate(&mut self, id: CertificateId, certificate: Certificate)
        requires
            old(self).wf(),
            certificate.wf(),
            certificate.renderable(),
        ensures
            final(self).wf(),
            spec_cert_at(final(self).entries@, id) == Some(certificate@),
            forall|o: Uuid|
                o != id ==> #[trigger] spec_cert_at(final(self).entries@, o) == spec_cert_at(
                    old(self).entries@,
                    o,
                ),
            nested_model(&final(self).tree) == spec_nested_insert(
                nested_model(&old(self).tree),
                certificate@.user_principal,
                id.spec_bytes(),
                spec_certificate_leaf_hash(certificate@),
            ),
    {
        let leaf = certificate.leaf_hash();
        let leaf_vec = vstd::slice::slice_to_vec(&leaf);
        let pb = certificate.user_principal.to_bytes();
        let idb = id.to_bytes();
        let ghost m0 = nested_model(&self.tree);
        self.tree.insert(&pb, &idb, &leaf_vec);
        let n = self.entries.len();
        let mut pos: usize = 0;
        while pos < n && self.entries[pos].0.lt(&id)
            invariant
                n == self.entries@.len(),
                pos <= n,
                forall|k: int| 0 <= k < pos ==> self.entries@[k].0.spec_val() < id.spec_val(),
            decreases n - pos,
        {
            pos = pos + 1;
        }
        let ghost olds = self.entries@;
        let replaced: bool = pos < n && self.entries[pos].0.same(&id);
        proof {
            if pos < n && !replaced {
                if self.entries@[pos as int].0.spec_val() == id.spec_val() {
                    crate::uuid::lemma_uuid_val_injective(self.entries@[pos as int].0, id);
                }
            }
        }
        if replaced {
            self.entries.remove(pos);
        }
        self.entries.insert(pos, (id, certificate));
        proof {
            lemma_insert_certificate_post(
                olds,
                self.entries@,
                pos as int,
                id,
                replaced,
                m0,
                nested_model(&self.tree),
            );
        }
    }

    /// Rebuilds the certified tree from the stored certificates: every
    /// entry's leaf hash is inserted at its path.  Used after a restart,
    /// when only the certificates themselves have survived.
    pub fn certify_all_certificates(&mut self)
        requires
            forall|i: int, j: int|
                0 <= i < j < old(self).entries@.len() ==> old(self).entries@[i].0.spec_val() < old(
                    self,
                ).entries@[j].0.spec_val(),
            forall|i: int|
                0 <= i < old(self).entries@.len() ==> (#[trigger] old(self).entries@[i]).1.wf()
                    && old(self).entries@[i].1.renderable(),
        ensures
            final(self).entries@ == old(self).entries@,
            final(self).wf(),
    {
        self.tree = NestedHashTree::new();
        let n = self.entries.len();
        for i in 0..n
            invariant
                n == self.entries@.len(),
                self.entries@ == old(self).entries@,
                forall|a: int, b: int|
                    0 <= a < b < self.entries@.len() ==> self.entries@[a].0.spec_val()
                        < self.entries@[b].0.spec_val(),
                forall|a: int|
                    0 <= a < self.entries@.len() ==> (#[trigger] self.entries@[a]).1.wf()
                        && self.entries@[a].1.renderable(),
                spec_tree_covers(nested_model(&self.tree), self.entries@.take(i as int)),
            decreases n - i,
        {
            let ghost m0 = nested_model(&self.tree);
            let cert = &self.entries[i];
            let leaf = cert.1.leaf_hash();
            let leaf_vec = vstd::slice::slice_to_vec(&leaf);
            let pb = cert.1.user_principal.to_bytes();
            let idb = cert.0.to_bytes();
            let ghost id_i = self.entries@[i as int].0;
            let ghost cert_i = self.entries@[i as int].1;
            self.tree.insert(&pb, &idb, &leaf_vec);
            proof {
                lemma_certify_step(m0, nested_model(&self.tree), self.entries@, i as int);
            }
        }
        proof {
            assert(self.entries@.take(n as int) =~= self.entries@);
        }
    }

    /// The labeled root hash to publish as certified data: the digest of
    /// the registry label over the tree's root hash.
    pub fn certified_data_root(&self) -> (h: [u8; 32])
        ensures
            h@ == spec_labeled_hash(spec_certificates_label(), nested_root_of(&self.tree)),
    {
        let label = certificates_label();
        let root = self.tree.root_hash();
        let root_vec = vstd::slice::slice_to_vec(&root);
        labeled_hash_bytes(&label, &root_vec)
    }
}

/// One step of recertification: inserting the entry at `i` extends the
/// coverage from the first `i` entries to the first `i + 1`.
#[verifier::rlimit(60)]
proof fn lemma_certify_step(
    m0: NestedModel,
    m1: NestedModel,
    entries: Seq<(CertificateId, Certificate)>,
    i: int,
)
    requires
        0 <= i < entries.len(),
        forall|a: int, b: int|
            0 <= a < b < entries.len() ==> entries[a].0.spec_val() < entries[b].0.spec_val(),
        spec_tree_covers(m0, entries.take(i)),
        m1 == spec_nested_insert(
            m0,
            entries[i].1.user_principal@,
            entries[i].0.spec_bytes(),
            spec_certificate_leaf_hash(entries[i].1@),
        ),
    ensures
        spec_tree_covers(m1, entries.take(i + 1)),
{
    assert forall|k: int| 0 <= k < i + 1 implies {
        let e = #[trigger] entries.take(i + 1)[k];
        &&& m1.contains_key(e.1.user_principal@)
        &&& m1[e.1.user_principal@].contains_key(e.0.spec_bytes())
        &&& m1[e.1.user_principal@][e.0.spec_bytes()] == spec_certificate_leaf_hash(e.1@)
    } by {
        let e = entries.take(i + 1)[k];
        assert(e == entries[k]);
        if k < i {
            assert(entries.take(i)[k] == e);
            if e.0.spec_bytes() == entries[i].0.spec_bytes() {
                lemma_uuid_bytes_round_trip(e.0);
                lemma_uuid_bytes_round_trip(entries[i].0);
                assert(e.0 == entries[i].0);
                assert(e.0.spec_val() < entries[i].0.spec_val());
                assert(false);
            }
            lemma_insert_preserves_cover(
                m0,
                entries[i].1.user_principal@,
                entries[i].0.spec_bytes(),
                spec_certificate_leaf_hash(entries[i].1@),
                e.1.user_principal@,
                e.0.spec_bytes(),
            );
        }
    }
}

/// The labeled hash of the certification scheme: the digest of the
/// labeled-node domain separator, the label, and the content hash.
pub open spec fn spec_labeled_hash(label: Seq<u8>, content_hash: Seq<u8>) -> Seq<u8> {
    sha256_of(
        spec_with_domain(
            "ic-hashtree-labeled"@.map_values(|c: char| c as u8),
            label + content_hash,
        ),
    )
}

/// Relies on `ic_certification::labeled_hash`: the 256-bit digest of the
/// domain separator `ic-hashtree-labeled` (with its length byte), the
/// label, and the content hash.
#[verifier::external_body]
pub fn labeled_hash_bytes(label: &Vec<u8>, content_hash: &Vec<u8>) -> (h: [u8; 32])
    requires
        content_hash@.len() == 32,
    ensures
        h@ == spec_labeled_hash(label@, content_hash@),
        h@ == sha256_of(
            spec_with_domain(
                "ic-hashtree-labeled"@.map_values(|c: char| c as u8),
                label@ + content_hash@,
            ),
        ),
{
    let mut arr = [0u8; 32];
    arr.copy_from_slice(content_hash.as_slice());
    ic_certification::labeled_hash(label.as_slice(), &arr)
}

/// An insertion at one path leaves every other path's value in place.
proof fn lemma_insert_preserves_cover(
    m: NestedModel,
    o: Seq<u8>,
    i: Seq<u8>,
    v: Seq<u8>,
    o2: Seq<u8>,
    i2: Seq<u8>,
)
    requires
        m.contains_key(o2),
        m[o2].contains_key(i2),
        o2 != o || i2 != i,
    ensures
        spec_nested_insert(m, o, i, v).contains_key(o2),
        spec_nested_insert(m, o, i, v)[o2].contains_key(i2),
        spec_nested_insert(m, o, i, v)[o2][i2] == m[o2][i2],
{
}

/// The first match in a concatenation: the left part decides when it has
/// the identifier, else the right part does.
proof fn lemma_cert_at_concat(x: Seq<(CertificateId, Certificate)>, y: Seq<(CertificateId, Certificate)>, id: Uuid)
    ensures
        spec_cert_at(x + y, id) == if spec_cert_at(x, id) is Some {
            spec_cert_at(x, id)
        } else {
            spec_cert_at(y, id)
        },
    decreases x.len(),
{
    if x.len() == 0 {
        assert(x + y =~= y);
    } else {
        assert((x + y).drop_first() =~= x.drop_first() + y);
        assert((x + y).first() == x.first());
        lemma_cert_at_concat(x.drop_first(), y, id);
    }
}

/// The common shape of a sorted insertion: the new entries are the old
/// ones with the certificate placed at `pos`, any old entry at `pos` with
/// the same identifier removed.
pub open spec fn spec_inserted_shape(
    olds: Seq<(CertificateId, Certificate)>,
    news: Seq<(CertificateId, Certificate)>,
    pos: int,
    id: Uuid,
    replaced: bool,
) -> bool {
    &&& 0 <= pos <= olds.len()
    &&& (forall|k: int| 0 <= k < pos ==> olds[k].0.spec_val() < id.spec_val())
    &&& (pos < olds.len() && !replaced ==> olds[pos].0.spec_val() > id.spec_val())
    &&& (replaced ==> pos < olds.len() && olds[pos].0 == id)
    &&& (replaced ==> news == olds.remove(pos).insert(pos, (id, news[pos].1)))
    &&& (!replaced ==> news == olds.insert(pos, (id, news[pos].1)))
    &&& news[pos].0 == id
    &&& (forall|i: int, j: int|
        0 <= i < j < olds.len() ==> olds[i].0.spec_val() < olds[j].0.spec_val())
}

proof fn lemma_post_shape(
    olds: Seq<(CertificateId, Certificate)>,
    news: Seq<(CertificateId, Certificate)>,
    pos: int,
    id: Uuid,
    replaced: bool,
)
    requires
        spec_inserted_shape(olds, news, pos, id, replaced),
    ensures
        news.len() == if replaced {
            olds.len() as int
        } else {
            (olds.len() + 1) as int
        },
        news[pos] == (id, news[pos].1),
        forall|i: int| 0 <= i < pos ==> news[i] == olds[i],
        replaced ==> forall|i: int| pos < i < news.len() ==> news[i] == olds[i],
        !replaced ==> forall|i: int| pos < i < news.len() ==> news[i] == olds[i - 1],
{
    if replaced {
        assert(news =~= olds.remove(pos).insert(pos, (id, news[pos].1)));
    } else {
        assert(news =~= olds.insert(pos, (id, news[pos].1)));
    }
}

#[verifier::rlimit(60)]
proof fn lemma_post_sorted(
    olds: Seq<(CertificateId, Certificate)>,
    news: Seq<(CertificateId, Certificate)>,
    pos: int,
    id: Uuid,
    replaced: bool,
)
    requires
        spec_inserted_shape(olds, news, pos, id, replaced),
    ensures
        forall|i: int, j: int|
            0 <= i < j < news.len() ==> news[i].0.spec_val() < news[j].0.spec_val(),
{
    lemma_post_shape(olds, news, pos, id, replaced);
    assert forall|i: int, j: int|
        0 <= i < j < news.len() implies news[i].0.spec_val() < news[j].0.spec_val() by {
        if replaced {
            if i == pos {
                assert(news[j] == olds[j]);
            } else if j == pos {
                assert(news[i] == olds[i]);
            } else {
                assert(news[i] == olds[i]);
                assert(news[j] == olds[j]);
            }
        } else {
            if i == pos {
                assert(news[j] == olds[j - 1]);
                assert(olds[pos].0.spec_val() <= olds[j - 1].0.spec_val());
            } else if j == pos {
                assert(news[i] == olds[i]);
            } else if i < pos && j > pos {
                assert(news[i] == olds[i]);
                assert(news[j] == olds[j - 1]);
                assert(olds[i].0.spec_val() < id.spec_val());
                assert(id.spec_val() < olds[j - 1].0.spec_val());
            } else if j < pos {
                assert(news[i] == olds[i]);
                assert(news[j] == olds[j]);
            } else {
                assert(news[i] == olds[i - 1]);
                assert(news[j] == olds[j - 1]);
            }
        }
    }
}

#[verifier::rlimit(60)]
proof fn lemma_post_wfness(
    olds: Seq<(CertificateId, Certificate)>,
    news: Seq<(CertificateId, Certificate)>,
    pos: int,
    id: Uuid,
    replaced: bool,
)
    requires
        spec_inserted_shape(olds, news, pos, id, replaced),
        forall|i: int| 0 <= i < olds.len() ==> (#[trigger] olds[i]).1.wf() && olds[i].1.renderable(),
        news[pos].1.wf(),
        news[pos].1.renderable(),
    ensures
        forall|i: int| 0 <= i < news.len() ==> (#[trigger] news[i]).1.wf() && news[i].1.renderable(),
{
    lemma_post_shape(olds, news, pos, id, replaced);
    assert forall|i: int|
        0 <= i < news.len() implies (#[trigger] news[i]).1.wf() && news[i].1.renderable() by {
        if i < pos {
            assert(news[i] == olds[i]);
        } else if i > pos {
            if replaced {
                assert(news[i] == olds[i]);
            } else {
                assert(news[i] == olds[i - 1]);
            }
        }
    }
}

#[verifier::rlimit(60)]
proof fn lemma_post_cover(
    olds: Seq<(CertificateId, Certificate)>,
    news: Seq<(CertificateId, Certificate)>,
    pos: int,
    id: Uuid,
    replaced: bool,
    m0: NestedModel,
    m1: NestedModel,
)
    requires
        spec_inserted_shape(olds, news, pos, id, replaced),
        spec_tree_covers(m0, olds),
        m1 == spec_nested_insert(
            m0,
            news[pos].1.user_principal@,
            id.spec_bytes(),
            spec_certificate_leaf_hash(news[pos].1@),
        ),
    ensures
        spec_tree_covers(m1, news),
{
    lemma_post_shape(olds, news, pos, id, replaced);
    let e = news[pos];
    assert forall|i: int| 0 <= i < news.len() implies {
        let en = #[trigger] news[i];
        &&& m1.contains_key(en.1.user_principal@)
        &&& m1[en.1.user_principal@].contains_key(en.0.spec_bytes())
        &&& m1[en.1.user_principal@][en.0.spec_bytes()] == spec_certificate_leaf_hash(en.1@)
    } by {
        let en = news[i];
        if i == pos {
        } else {
            if i < pos {
                assert(en == olds[i]);
            } else if replaced {
                assert(en == olds[i]);
            } else {
                assert(en == olds[i - 1]);
            }
            assert(en.0.spec_val() != id.spec_val());
            if en.0.spec_bytes() == id.spec_bytes() {
                lemma_uuid_bytes_round_trip(en.0);
                lemma_uuid_bytes_round_trip(id);
                assert(en.0 == id);
                assert(false);
            }
            lemma_insert_preserves_cover(
                m0,
                e.1.user_principal@,
                id.spec_bytes(),
                spec_certificate_leaf_hash(e.1@),
                en.1.user_principal@,
                en.0.spec_bytes(),
            );
        }
    }
}

#[verifier::rlimit(60)]
proof fn lemma_post_lookup(
    olds: Seq<(CertificateId, Certificate)>,
    news: Seq<(CertificateId, Certificate)>,
    pos: int,
    id: Uuid,
    replaced: bool,
)
    requires
        spec_inserted_shape(olds, news, pos, id, replaced),
    ensures
        spec_cert_at(news, id) == Some(news[pos].1@),
        forall|o: Uuid| o != id ==> #[trigger] spec_cert_at(news, o) == spec_cert_at(olds, o),
{
    let e = news[pos];
    let tail = if replaced {
        olds.skip(pos + 1)
    } else {
        olds.skip(pos)
    };
    lemma_post_shape(olds, news, pos, id, replaced);
    assert(news =~= (olds.take(pos) + seq![e]) + tail);
    assert(olds =~= olds.take(pos) + olds.skip(pos));
    if replaced {
        assert(olds.skip(pos) =~= seq![olds[pos]] + olds.skip(pos + 1));
    }
    lemma_cert_at_concat(olds.take(pos) + seq![e], tail, id);
    lemma_cert_at_concat(olds.take(pos), seq![e], id);
    assert forall|k: int|
        0 <= k < olds.take(pos).len() implies olds.take(pos)[k].0.spec_val() < id.spec_val() by {
        assert(olds.take(pos)[k] == olds[k]);
    }
    lemma_cert_at_absent_prefix(olds.take(pos), id);
    assert(spec_cert_at(seq![e], id) == Some(e.1@)) by {
        assert(seq![e].first() == e);
    }
    assert(spec_cert_at(news, id) == Some(e.1@));
    assert forall|o: Uuid| o != id implies #[trigger] spec_cert_at(news, o) == spec_cert_at(
        olds,
        o,
    ) by {
        lemma_cert_at_concat(olds.take(pos) + seq![e], tail, o);
        lemma_cert_at_concat(olds.take(pos), seq![e], o);
        lemma_cert_at_concat(olds.take(pos), olds.skip(pos), o);
        assert(spec_cert_at(seq![e], o) is None) by {
            assert(seq![e].first() == e);
            assert(seq![e].drop_first() =~= Seq::<(CertificateId, Certificate)>::empty());
            assert(spec_cert_at(Seq::<(CertificateId, Certificate)>::empty(), o) is None);
        }
        if replaced {
            lemma_cert_at_concat(seq![olds[pos]], olds.skip(pos + 1), o);
            assert(spec_cert_at(seq![olds[pos]], o) is None) by {
                assert(seq![olds[pos]].first() == olds[pos]);
                assert(seq![olds[pos]].drop_first() =~= Seq::<
                    (CertificateId, Certificate),
                >::empty());
                assert(spec_cert_at(Seq::<(CertificateId, Certificate)>::empty(), o) is None);
                assert(olds[pos].0 == id);
            }
        }
    }
}

/// What holds of the registry after the sorted insertion of a
/// certificate.
proof fn lemma_insert_certificate_post(
    olds: Seq<(CertificateId, Certificate)>,
    news: Seq<(CertificateId, Certificate)>,
    pos: int,
    id: Uuid,
    replaced: bool,
    m0: NestedModel,
    m1: NestedModel,
)
    requires
        spec_inserted_shape(olds, news, pos, id, replaced),
        forall|i: int| 0 <= i < olds.len() ==> (#[trigger] olds[i]).1.wf() && olds[i].1.renderable(),
        news[pos].1.wf(),
        news[pos].1.renderable(),
        spec_tree_covers(m0, olds),
        m1 == spec_nested_insert(
            m0,
            news[pos].1.user_principal@,
            id.spec_bytes(),
            spec_certificate_leaf_hash(news[pos].1@),
        ),
    ensures
        forall|i: int, j: int| 0 <= i < j < news.len() ==> news[i].0.spec_val() < news[j].0.spec_val(),
        forall|i: int| 0 <= i < news.len() ==> (#[trigger] news[i]).1.wf() && news[i].1.renderable(),
        spec_tree_covers(m1, news),
        spec_cert_at(news, id) == Some(news[pos].1@),
        forall|o: Uuid|
            o != id ==> #[trigger] spec_cert_at(news, o) == spec_cert_at(olds, o),
{
    lemma_post_sorted(olds, news, pos, id, replaced);
    lemma_post_wfness(olds, news, pos, id, replaced);
    lemma_post_cover(olds, news, pos, id, replaced, m0, m1);
    lemma_post_lookup(olds, news, pos, id, replaced);
}

/// A prefix of entries below the identifier's value cannot hold it.
proof fn lemma_cert_at_absent_prefix(s: Seq<(CertificateId, Certificate)>, id: Uuid)
    requires
        forall|k: int| 0 <= k < s.len() ==> s[k].0.spec_val() < id.spec_val(),
    ensures
        spec_cert_at(s, id) is None,
    decreases s.len(),
{
    if s.len() > 0 {
        assert(s.first().0.spec_val() < id.spec_val());
        assert(s.first().0 != id);
        lemma_cert_at_absent_prefix(s.drop_first(), id);
        assert forall|k: int|
            0 <= k < s.drop_first().len() implies s.drop_first()[k].0.spec_val()
            < id.spec_val() by {
            assert(s.drop_first()[k] == s[k + 1]);
        }
    }
}

} // verus!
