//! Certificates: immutable records bound to a user principal, with a
//! deterministic self-describing CBOR encoding whose bytes determine the
//! record, and the leaf hash under which a certificate stands in the
//! certified registry tree.

use vstd::prelude::*;
use vstd::utf8::encode_utf8;

use crate::cbor::{
    cbor_push_bytes, cbor_push_map_header, cbor_push_null, cbor_push_opt_text,
    cbor_push_self_describe, cbor_push_text, lemma_cbor_bytes_frame, lemma_cbor_opt_text_frame,
    lemma_cbor_text_frame, spec_cbor_bytes, spec_cbor_map_header, spec_cbor_opt_text,
    spec_cbor_self_describe, spec_cbor_text, spec_opt_view,
};
use crate::crypto::{sha256_of, spec_with_domain};
use crate::date_time::{rfc3339_of, DateTime};
use crate::hex::{hex_encode, spec_hex_of};
use crate::principal::UserPrincipal;
use crate::uuid::{lemma_uuid_text_round_trip, Uuid};

verus! {

pub type CertificateId = Uuid;

/// The fields of a certificate, in the order of the stored encoding.
#[derive(Debug, Clone)]
pub struct CertificateContent {
    pub external_id: Option<String>,
    pub file_uri: Option<String>,
    pub issued_at: DateTime,
    pub issuer_club_name: Option<String>,
    pub issuer_full_name: Option<String>,
    pub name: String,
    pub notes: Option<String>,
    pub sport_category: String,
}

/// A certificate: immutable once written.
#[derive(Debug, Clone)]
pub struct Certificate {
    pub content: CertificateContent,
    pub created_at: DateTime,
    pub managed_user_id: Option<Uuid>,
    pub user_principal: UserPrincipal,
}

/// The view of certificate content: texts as character sequences.
pub struct CertificateContentView {
    pub external_id: Option<Seq<char>>,
    pub file_uri: Option<Seq<char>>,
    pub issued_at: DateTime,
    pub issuer_club_name: Option<Seq<char>>,
    pub issuer_full_name: Option<Seq<char>>,
    pub name: Seq<char>,
    pub notes: Option<Seq<char>>,
    pub sport_category: Seq<char>,
}

/// The view of a certificate: its content view, its timestamps, its
/// managed-user identifier, and its principal's bytes.
pub struct CertificateView {
    pub content: CertificateContentView,
    pub created_at: DateTime,
    pub managed_user_id: Option<Uuid>,
    pub user_principal: Seq<u8>,
}

impl View for CertificateContent {
    type V = CertificateContentView;

    open spec fn view(&self) -> CertificateContentView {
        CertificateContentView {
            external_id: spec_opt_view(self.external_id),
            file_uri: spec_opt_view(self.file_uri),
            issued_at: self.issued_at,
            issuer_club_name: spec_opt_view(self.issuer_club_name),
            issuer_full_name: spec_opt_view(self.issuer_full_name),
            name: self.name@,
            notes: spec_opt_view(self.notes),
            sport_category: self.sport_category@,
        }
    }
}

impl View for Certificate {
    type V = CertificateView;

    open spec fn view(&self) -> CertificateView {
        CertificateView {
            content: self.content@,
            created_at: self.created_at,
            managed_user_id: self.managed_user_id,
            user_principal: self.user_principal@,
        }
    }
}

/// The length of an optional character sequence; zero when absent.
pub open spec fn spec_opt_chars_len(o: Option<Seq<char>>) -> int {
    match o {
        Some(s) => s.len() as int,
        None => 0,
    }
}

impl CertificateContentView {
    /// The field bounds of the data model: character counts for the texts,
    /// a byte count for the file reference.
    pub open spec fn wf(&self) -> bool {
        &&& self.name.len() <= 100
        &&& self.sport_category.len() <= 80
        &&& spec_opt_chars_len(self.notes) <= 500
        &&& (self.file_uri matches Some(f) ==> encode_utf8(f).len() <= 1572864)
        &&& spec_opt_chars_len(self.external_id) <= 100
        &&& spec_opt_chars_len(self.issuer_full_name) <= 100
        &&& spec_opt_chars_len(self.issuer_club_name) <= 100
        &&& self.issued_at.wf()
    }
}

impl CertificateView {
    pub open spec fn wf(&self) -> bool {
        &&& self.content.wf()
        &&& self.created_at.wf()
        &&& self.user_principal.len() <= 29
    }

    /// The rendered timestamps have encodings no longer than the largest
    /// length header.  The rendering wrapper yields 25 ASCII characters, so
    /// this holds of every value it returns; `check_renderable` derives it.
    pub open spec fn renderable(&self) -> bool {
        &&& encode_utf8(rfc3339_of(self.created_at.secs)).len() <= 0xFFFF_FFFF
        &&& encode_utf8(rfc3339_of(self.content.issued_at.secs)).len() <= 0xFFFF_FFFF
    }
}

impl CertificateContent {
    pub open spec fn wf(&self) -> bool {
        self@.wf()
    }
}

impl Certificate {
    pub open spec fn wf(&self) -> bool {
        self@.wf()
    }

    pub open spec fn renderable(&self) -> bool {
        self@.renderable()
    }
}

/// A copy of an optional string.
pub fn opt_string_duplicate(o: &Option<String>) -> (r: Option<String>)
    ensures
        spec_opt_view(r) == spec_opt_view(*o),
{
    match o {
        Some(s) => Some(s.clone()),
        None => None,
    }
}

impl CertificateContent {
    /// A copy of this content.
    pub fn duplicate(&self) -> (c: CertificateContent)
        ensures
            c@ == self@,
    {
        CertificateContent {
            external_id: opt_string_duplicate(&self.external_id),
            file_uri: opt_string_duplicate(&self.file_uri),
            issued_at: self.issued_at,
            issuer_club_name: opt_string_duplicate(&self.issuer_club_name),
            issuer_full_name: opt_string_duplicate(&self.issuer_full_name),
            name: self.name.clone(),
            notes: opt_string_duplicate(&self.notes),
            sport_category: self.sport_category.clone(),
        }
    }
}

impl Certificate {
    /// A copy of this certificate.
    pub fn duplicate(&self) -> (c: Certificate)
        ensures
            c@ == self@,
    {
        Certificate {
            content: self.content.duplicate(),
            created_at: self.created_at,
            managed_user_id: self.managed_user_id,
            user_principal: self.user_principal.duplicate(),
        }
    }
}

/// The CBOR encoding of certificate content: a definite-length map of the
/// eight fields, keys and fields in declaration order.
pub open spec fn spec_content_cbor(c: CertificateContentView) -> Seq<u8> {
    spec_cbor_map_header(8) + spec_cbor_text("external_id"@) + spec_cbor_opt_text(c.external_id)
        + spec_cbor_text("file_uri"@) + spec_cbor_opt_text(c.file_uri) + spec_cbor_text(
        "issued_at"@,
    ) + spec_cbor_text(rfc3339_of(c.issued_at.secs)) + spec_cbor_text("issuer_club_name"@)
        + spec_cbor_opt_text(c.issuer_club_name) + spec_cbor_text("issuer_full_name"@)
        + spec_cbor_opt_text(c.issuer_full_name) + spec_cbor_text("name"@) + spec_cbor_text(c.name)
        + spec_cbor_text("notes"@) + spec_cbor_opt_text(c.notes) + spec_cbor_text(
        "sport_category"@,
    ) + spec_cbor_text(c.sport_category)
}

/// The text of an optional identifier.
pub open spec fn spec_opt_uuid_text(o: Option<Uuid>) -> Option<Seq<char>> {
    match o {
        Some(u) => Some(u.spec_text()),
        None => None,
    }
}

/// The self-describing CBOR encoding of a certificate: the tag, then a
/// definite-length map of the four fields in declaration order.
pub open spec fn spec_certificate_cbor(c: CertificateView) -> Seq<u8> {
    spec_cbor_self_describe() + spec_cbor_map_header(4) + spec_cbor_text("content"@)
        + spec_content_cbor(c.content) + spec_cbor_text("created_at"@) + spec_cbor_text(
        rfc3339_of(c.created_at.secs),
    ) + spec_cbor_text("managed_user_id"@) + spec_cbor_opt_text(
        spec_opt_uuid_text(c.managed_user_id),
    ) + spec_cbor_text("user_principal"@) + spec_cbor_bytes(c.user_principal)
}

impl Certificate {
    /// The stored CBOR encoding of this certificate.
    #[verifier::rlimit(100)]
    pub fn certificate_cbor(&self) -> (out: Vec<u8>)
        requires
            self.created_at.wf(),
            self.content.issued_at.wf(),
        ensures
            out@ == spec_certificate_cbor(self@),
    {
        let mut out: Vec<u8> = Vec::new();
        cbor_push_self_describe(&mut out);
        cbor_push_map_header(&mut out, 4);
        cbor_push_text(&mut out, "content");
        push_content_cbor(&mut out, &self.content);
        cbor_push_text(&mut out, "created_at");
        let created = self.created_at.to_string();
        cbor_push_text(&mut out, created.as_str());
        cbor_push_text(&mut out, "managed_user_id");
        match &self.managed_user_id {
            Some(u) => {
                let t = u.to_string();
                cbor_push_text(&mut out, t.as_str());
            },
            None => {
                cbor_push_null(&mut out);
            },
        }
        cbor_push_text(&mut out, "user_principal");
        cbor_push_bytes(&mut out, self.user_principal.as_bytes());
        proof {
            assert(out@ =~= spec_certificate_cbor(self@));
        }
        out
    }

    /// The stored CBOR encoding, rendered as lowercase hexadecimal text.
    pub fn certificate_cbor_hex(&self) -> (s: String)
        requires
            self.created_at.wf(),
            self.content.issued_at.wf(),
        ensures
            s@ == spec_hex_of(spec_certificate_cbor(self@)),
    {
        let cbor = self.certificate_cbor();
        hex_encode(cbor.as_slice())
    }

    /// The leaf hash under which this certificate stands in the registry
    /// tree.
    pub fn leaf_hash(&self) -> (h: [u8; 32])
        requires
            self.created_at.wf(),
            self.content.issued_at.wf(),
        ensures
            h@ == spec_certificate_leaf_hash(self@),
    {
        let cbor = self.certificate_cbor();
        leaf_hash_bytes(&cbor)
    }

    /// Establishes that this certificate's rendered timestamps are short,
    /// by rendering them.
    pub fn check_renderable(&self)
        requires
            self.created_at.wf(),
            self.content.issued_at.wf(),
        ensures
            self.renderable(),
    {
        let a = self.created_at.to_string();
        let b = self.content.issued_at.to_string();
        proof {
            vstd::utf8::is_ascii_chars_encode_utf8(a@);
            vstd::utf8::is_ascii_chars_encode_utf8(b@);
        }
    }
}

/// The leaf hash of certificate bytes: the domain-separated digest of the
/// data under the leaf domain separator.
pub open spec fn spec_leaf_hash(data: Seq<u8>) -> Seq<u8> {
    sha256_of(spec_with_domain("ic-hashtree-leaf"@.map_values(|c: char| c as u8), data))
}

pub open spec fn spec_certificate_leaf_hash(c: CertificateView) -> Seq<u8> {
    spec_leaf_hash(spec_certificate_cbor(c))
}

/// Relies on `ic_certification::leaf_hash`: the 256-bit digest of the
/// domain separator `ic-hashtree-leaf` (with its length byte) followed by
/// the data.
#[verifier::external_body]
pub fn leaf_hash_bytes(data: &Vec<u8>) -> (h: [u8; 32])
    ensures
        h@ == spec_leaf_hash(data@),
        h@ == sha256_of(spec_with_domain("ic-hashtree-leaf"@.map_values(|c: char| c as u8), data@)),
{
    ic_certification::leaf_hash(data.as_slice())
}

#[verifier::rlimit(100)]
fn push_content_cbor(out: &mut Vec<u8>, c: &CertificateContent)
    requires
        c.issued_at.wf(),
    ensures
        final(out)@ == old(out)@ + spec_content_cbor(c@),
{
    cbor_push_map_header(out, 8);
    cbor_push_text(out, "external_id");
    cbor_push_opt_text(out, &c.external_id);
    cbor_push_text(out, "file_uri");
    cbor_push_opt_text(out, &c.file_uri);
    cbor_push_text(out, "issued_at");
    let issued = c.issued_at.to_string();
    cbor_push_text(out, issued.as_str());
    cbor_push_text(out, "issuer_club_name");
    cbor_push_opt_text(out, &c.issuer_club_name);
    cbor_push_text(out, "issuer_full_name");
    cbor_push_opt_text(out, &c.issuer_full_name);
    cbor_push_text(out, "name");
    cbor_push_text(out, c.name.as_str());
    cbor_push_text(out, "notes");
    cbor_push_opt_text(out, &c.notes);
    cbor_push_text(out, "sport_category");
    cbor_push_text(out, c.sport_category.as_str());
    proof {
        let g = old(out)@;
        let x1 = spec_cbor_map_header(8);
        let x2 = spec_cbor_text("external_id"@);
        let x3 = spec_cbor_opt_text(c@.external_id);
        let x4 = spec_cbor_text("file_uri"@);
        let x5 = spec_cbor_opt_text(c@.file_uri);
        let x6 = spec_cbor_text("issued_at"@);
        let x7 = spec_cbor_text(rfc3339_of(c.issued_at.secs));
        let x8 = spec_cbor_text("issuer_club_name"@);
        let x9 = spec_cbor_opt_text(c@.issuer_club_name);
        let x10 = spec_cbor_text("issuer_full_name"@);
        let x11 = spec_cbor_opt_text(c@.issuer_full_name);
        let x12 = spec_cbor_text("name"@);
        let x13 = spec_cbor_text(c.name@);
        let x14 = spec_cbor_text("notes"@);
        let x15 = spec_cbor_opt_text(c@.notes);
        let x16 = spec_cbor_text("sport_category"@);
        let x17 = spec_cbor_text(c.sport_category@);
        let p2 = x1 + x2;
        let p3 = p2 + x3;
        let p4 = p3 + x4;
        let p5 = p4 + x5;
        let p6 = p5 + x6;
        let p7 = p6 + x7;
        let p8 = p7 + x8;
        let p9 = p8 + x9;
        let p10 = p9 + x10;
        let p11 = p10 + x11;
        let p12 = p11 + x12;
        let p13 = p12 + x13;
        let p14 = p13 + x14;
        let p15 = p14 + x15;
        let p16 = p15 + x16;
        lemma_assoc(g, x1, x2);
        lemma_assoc(g, p2, x3);
        lemma_assoc(g, p3, x4);
        lemma_assoc(g, p4, x5);
        lemma_assoc(g, p5, x6);
        lemma_assoc(g, p6, x7);
        lemma_assoc(g, p7, x8);
        lemma_assoc(g, p8, x9);
        lemma_assoc(g, p9, x10);
        lemma_assoc(g, p10, x11);
        lemma_assoc(g, p11, x12);
        lemma_assoc(g, p12, x13);
        lemma_assoc(g, p13, x14);
        lemma_assoc(g, p14, x15);
        lemma_assoc(g, p15, x16);
        lemma_assoc(g, p16, x17);
        assert(out@ == g + spec_content_cbor(c@));
    }
}

/// Concatenation of byte sequences is associative.
pub proof fn lemma_assoc(a: Seq<u8>, b: Seq<u8>, c: Seq<u8>)
    ensures
        (a + b) + c == a + (b + c),
{
    assert((a + b) + c =~= a + (b + c));
}

/// Appending nothing changes nothing.
pub proof fn lemma_add_empty(a: Seq<u8>)
    ensures
        a + Seq::<u8>::empty() == a,
{
    assert(a + Seq::<u8>::empty() =~= a);
}

/// Equal sequences with an equal prefix have equal tails.
pub proof fn lemma_peel(a: Seq<u8>, x: Seq<u8>, y: Seq<u8>)
    requires
        a + x == a + y,
    ensures
        x == y,
{
    assert(x =~= (a + x).subrange(a.len() as int, (a + x).len() as int));
    assert(y =~= (a + y).subrange(a.len() as int, (a + y).len() as int));
}

/// UTF-8 uses at most four bytes per character.
pub proof fn lemma_encode_utf8_len(chars: Seq<char>)
    ensures
        encode_utf8(chars).len() <= 4 * chars.len(),
    decreases chars.len(),
{
    if chars.len() > 0 {
        lemma_encode_utf8_len(chars.drop_first());
    }
}

proof fn lemma_opt_utf8_bound(o: Option<Seq<char>>, chars: int)
    requires
        spec_opt_chars_len(o) <= chars,
        0 <= chars,
    ensures
        o is Some ==> encode_utf8(o.unwrap()).len() <= 4 * chars,
{
    if o is Some {
        lemma_encode_utf8_len(o.unwrap());
    }
}

/// Framing of a content encoding: equal bytes with whatever remainders
/// carry equal rendered fields and equal remainders.
#[verifier::rlimit(100)]
pub proof fn lemma_content_frame(
    c1: CertificateContentView,
    r1: Seq<u8>,
    c2: CertificateContentView,
    r2: Seq<u8>,
)
    requires
        c1.wf(),
        c2.wf(),
        encode_utf8(rfc3339_of(c1.issued_at.secs)).len() <= 0xFFFF_FFFF,
        encode_utf8(rfc3339_of(c2.issued_at.secs)).len() <= 0xFFFF_FFFF,
        spec_content_cbor(c1) + r1 == spec_content_cbor(c2) + r2,
    ensures
        c1.external_id == c2.external_id,
        c1.file_uri == c2.file_uri,
        rfc3339_of(c1.issued_at.secs) == rfc3339_of(c2.issued_at.secs),
        c1.issuer_club_name == c2.issuer_club_name,
        c1.issuer_full_name == c2.issuer_full_name,
        c1.name == c2.name,
        c1.notes == c2.notes,
        c1.sport_category == c2.sport_category,
        r1 == r2,
{
    lemma_opt_utf8_bound(c1.external_id, 100);
    lemma_opt_utf8_bound(c1.issuer_club_name, 100);
    lemma_opt_utf8_bound(c1.issuer_full_name, 100);
    lemma_opt_utf8_bound(c1.notes, 500);
    lemma_opt_utf8_bound(c2.external_id, 100);
    lemma_opt_utf8_bound(c2.issuer_club_name, 100);
    lemma_opt_utf8_bound(c2.issuer_full_name, 100);
    lemma_opt_utf8_bound(c2.notes, 500);
    lemma_encode_utf8_len(c1.name);
    lemma_encode_utf8_len(c2.name);
    lemma_encode_utf8_len(c1.sport_category);
    lemma_encode_utf8_len(c2.sport_category);
    let x1_1 = spec_cbor_map_header(8);
    let x2_1 = spec_cbor_text("external_id"@);
    let x3_1 = spec_cbor_opt_text(c1.external_id);
    let x4_1 = spec_cbor_text("file_uri"@);
    let x5_1 = spec_cbor_opt_text(c1.file_uri);
    let x6_1 = spec_cbor_text("issued_at"@);
    let x7_1 = spec_cbor_text(rfc3339_of(c1.issued_at.secs));
    let x8_1 = spec_cbor_text("issuer_club_name"@);
    let x9_1 = spec_cbor_opt_text(c1.issuer_club_name);
    let x10_1 = spec_cbor_text("issuer_full_name"@);
    let x11_1 = spec_cbor_opt_text(c1.issuer_full_name);
    let x12_1 = spec_cbor_text("name"@);
    let x13_1 = spec_cbor_text(c1.name);
    let x14_1 = spec_cbor_text("notes"@);
    let x15_1 = spec_cbor_opt_text(c1.notes);
    let x16_1 = spec_cbor_text("sport_category"@);
    let x17_1 = spec_cbor_text(c1.sport_category);
    let t17_1 = x17_1 + r1;
    let t16_1 = x16_1 + t17_1;
    let t15_1 = x15_1 + t16_1;
    let t14_1 = x14_1 + t15_1;
    let t13_1 = x13_1 + t14_1;
    let t12_1 = x12_1 + t13_1;
    let t11_1 = x11_1 + t12_1;
    let t10_1 = x10_1 + t11_1;
    let t9_1 = x9_1 + t10_1;
    let t8_1 = x8_1 + t9_1;
    let t7_1 = x7_1 + t8_1;
    let t6_1 = x6_1 + t7_1;
    let t5_1 = x5_1 + t6_1;
    let t4_1 = x4_1 + t5_1;
    let t3_1 = x3_1 + t4_1;
    let t2_1 = x2_1 + t3_1;
    let x3_2 = spec_cbor_opt_text(c2.external_id);
    let x5_2 = spec_cbor_opt_text(c2.file_uri);
    let x7_2 = spec_cbor_text(rfc3339_of(c2.issued_at.secs));
    let x9_2 = spec_cbor_opt_text(c2.issuer_club_name);
    let x11_2 = spec_cbor_opt_text(c2.issuer_full_name);
    let x13_2 = spec_cbor_text(c2.name);
    let x15_2 = spec_cbor_opt_text(c2.notes);
    let x17_2 = spec_cbor_text(c2.sport_category);
    let t17_2 = x17_2 + r2;
    let t16_2 = x16_1 + t17_2;
    let t15_2 = x15_2 + t16_2;
    let t14_2 = x14_1 + t15_2;
    let t13_2 = x13_2 + t14_2;
    let t12_2 = x12_1 + t13_2;
    let t11_2 = x11_2 + t12_2;
    let t10_2 = x10_1 + t11_2;
    let t9_2 = x9_2 + t10_2;
    let t8_2 = x8_1 + t9_2;
    let t7_2 = x7_2 + t8_2;
    let t6_2 = x6_1 + t7_2;
    let t5_2 = x5_2 + t6_2;
    let t4_2 = x4_1 + t5_2;
    let t3_2 = x3_2 + t4_2;
    let t2_2 = x2_1 + t3_2;
    lemma_content_chain_form(c1, r1);
    lemma_content_chain_form(c2, r2);
    lemma_peel(x1_1, t2_1, t2_2);
    lemma_peel(x2_1, t3_1, t3_2);
    lemma_cbor_opt_text_frame(c1.external_id, t4_1, c2.external_id, t4_2);
    lemma_peel(x4_1, t5_1, t5_2);
    lemma_cbor_opt_text_frame(c1.file_uri, t6_1, c2.file_uri, t6_2);
    lemma_peel(x6_1, t7_1, t7_2);
    lemma_cbor_text_frame(rfc3339_of(c1.issued_at.secs), t8_1, rfc3339_of(c2.issued_at.secs), t8_2);
    lemma_peel(x8_1, t9_1, t9_2);
    lemma_cbor_opt_text_frame(c1.issuer_club_name, t10_1, c2.issuer_club_name, t10_2);
    lemma_peel(x10_1, t11_1, t11_2);
    lemma_cbor_opt_text_frame(c1.issuer_full_name, t12_1, c2.issuer_full_name, t12_2);
    lemma_peel(x12_1, t13_1, t13_2);
    lemma_cbor_text_frame(c1.name, t14_1, c2.name, t14_2);
    lemma_peel(x14_1, t15_1, t15_2);
    lemma_cbor_opt_text_frame(c1.notes, t16_1, c2.notes, t16_2);
    lemma_peel(x16_1, t17_1, t17_2);
    lemma_cbor_text_frame(c1.sport_category, r1, c2.sport_category, r2);
}

/// The left-nested content encoding with a remainder equals the
/// right-nested chain of its items.
proof fn lemma_content_chain_form(c: CertificateContentView, r: Seq<u8>)
    ensures
        spec_content_cbor(c) + r == spec_cbor_map_header(8) + (spec_cbor_text("external_id"@) + (
        spec_cbor_opt_text(c.external_id) + (spec_cbor_text("file_uri"@) + (spec_cbor_opt_text(
            c.file_uri,
        ) + (spec_cbor_text("issued_at"@) + (spec_cbor_text(rfc3339_of(c.issued_at.secs)) + (
        spec_cbor_text("issuer_club_name"@) + (spec_cbor_opt_text(c.issuer_club_name) + (
        spec_cbor_text("issuer_full_name"@) + (spec_cbor_opt_text(c.issuer_full_name) + (
        spec_cbor_text("name"@) + (spec_cbor_text(c.name) + (spec_cbor_text("notes"@) + (
        spec_cbor_opt_text(c.notes) + (spec_cbor_text("sport_category"@) + (spec_cbor_text(
            c.sport_category,
        ) + r)))))))))))))))),
{
    let x1 = spec_cbor_map_header(8);
    let x2 = spec_cbor_text("external_id"@);
    let x3 = spec_cbor_opt_text(c.external_id);
    let x4 = spec_cbor_text("file_uri"@);
    let x5 = spec_cbor_opt_text(c.file_uri);
    let x6 = spec_cbor_text("issued_at"@);
    let x7 = spec_cbor_text(rfc3339_of(c.issued_at.secs));
    let x8 = spec_cbor_text("issuer_club_name"@);
    let x9 = spec_cbor_opt_text(c.issuer_club_name);
    let x10 = spec_cbor_text("issuer_full_name"@);
    let x11 = spec_cbor_opt_text(c.issuer_full_name);
    let x12 = spec_cbor_text("name"@);
    let x13 = spec_cbor_text(c.name);
    let x14 = spec_cbor_text("notes"@);
    let x15 = spec_cbor_opt_text(c.notes);
    let x16 = spec_cbor_text("sport_category"@);
    let x17 = spec_cbor_text(c.sport_category);
    let p2 = x1 + x2;
    let p3 = p2 + x3;
    let p4 = p3 + x4;
    let p5 = p4 + x5;
    let p6 = p5 + x6;
    let p7 = p6 + x7;
    let p8 = p7 + x8;
    let p9 = p8 + x9;
    let p10 = p9 + x10;
    let p11 = p10 + x11;
    let p12 = p11 + x12;
    let p13 = p12 + x13;
    let p14 = p13 + x14;
    let p15 = p14 + x15;
    let p16 = p15 + x16;
    let t17 = x17 + r;
    let t16 = x16 + t17;
    let t15 = x15 + t16;
    let t14 = x14 + t15;
    let t13 = x13 + t14;
    let t12 = x12 + t13;
    let t11 = x11 + t12;
    let t10 = x10 + t11;
    let t9 = x9 + t10;
    let t8 = x8 + t9;
    let t7 = x7 + t8;
    let t6 = x6 + t7;
    let t5 = x5 + t6;
    let t4 = x4 + t5;
    let t3 = x3 + t4;
    lemma_assoc(p16, x17, r);
    lemma_assoc(p15, x16, t17);
    lemma_assoc(p14, x15, t16);
    lemma_assoc(p13, x14, t15);
    lemma_assoc(p12, x13, t14);
    lemma_assoc(p11, x12, t13);
    lemma_assoc(p10, x11, t12);
    lemma_assoc(p9, x10, t11);
    lemma_assoc(p8, x9, t10);
    lemma_assoc(p7, x8, t9);
    lemma_assoc(p6, x7, t8);
    lemma_assoc(p5, x6, t7);
    lemma_assoc(p4, x5, t6);
    lemma_assoc(p3, x4, t5);
    lemma_assoc(p2, x3, t4);
    lemma_assoc(x1, x2, t3);
}

/// The certificate encoding determines the rendered record: its content
/// texts, its rendered timestamps, its managed-user identifier, and its
/// user principal.  In particular, decoding the stored bytes yields the
/// record that was encoded.
pub proof fn lemma_certificate_cbor_determines(c1: CertificateView, c2: CertificateView)
    requires
        c1.wf(),
        c2.wf(),
        c1.renderable(),
        c2.renderable(),
        spec_certificate_cbor(c1) == spec_certificate_cbor(c2),
    ensures
        c1.content.external_id == c2.content.external_id,
        c1.content.file_uri == c2.content.file_uri,
        rfc3339_of(c1.content.issued_at.secs) == rfc3339_of(c2.content.issued_at.secs),
        c1.content.issuer_club_name == c2.content.issuer_club_name,
        c1.content.issuer_full_name == c2.content.issuer_full_name,
        c1.content.name == c2.content.name,
        c1.content.notes == c2.content.notes,
        c1.content.sport_category == c2.content.sport_category,
        rfc3339_of(c1.created_at.secs) == rfc3339_of(c2.created_at.secs),
        c1.managed_user_id == c2.managed_user_id,
        c1.user_principal == c2.user_principal,
{
    let x1 = spec_cbor_self_describe();
    let x2 = spec_cbor_map_header(4);
    let x3 = spec_cbor_text("content"@);
    let x4_1 = spec_content_cbor(c1.content);
    let x5 = spec_cbor_text("created_at"@);
    let x6_1 = spec_cbor_text(rfc3339_of(c1.created_at.secs));
    let x7 = spec_cbor_text("managed_user_id"@);
    let x8_1 = spec_cbor_opt_text(spec_opt_uuid_text(c1.managed_user_id));
    let x9 = spec_cbor_text("user_principal"@);
    let x10_1 = spec_cbor_bytes(c1.user_principal);
    let x4_2 = spec_content_cbor(c2.content);
    let x6_2 = spec_cbor_text(rfc3339_of(c2.created_at.secs));
    let x8_2 = spec_cbor_opt_text(spec_opt_uuid_text(c2.managed_user_id));
    let x10_2 = spec_cbor_bytes(c2.user_principal);
    let t10_1 = x10_1;
    let t9_1 = x9 + t10_1;
    let t8_1 = x8_1 + t9_1;
    let t7_1 = x7 + t8_1;
    let t6_1 = x6_1 + t7_1;
    let t5_1 = x5 + t6_1;
    let t4_1 = x4_1 + t5_1;
    let t3_1 = x3 + t4_1;
    let t2_1 = x2 + t3_1;
    let t10_2 = x10_2;
    let t9_2 = x9 + t10_2;
    let t8_2 = x8_2 + t9_2;
    let t7_2 = x7 + t8_2;
    let t6_2 = x6_2 + t7_2;
    let t5_2 = x5 + t6_2;
    let t4_2 = x4_2 + t5_2;
    let t3_2 = x3 + t4_2;
    let t2_2 = x2 + t3_2;
    lemma_certificate_chain_form(c1);
    lemma_certificate_chain_form(c2);
    lemma_peel(x1, t2_1, t2_2);
    lemma_peel(x2, t3_1, t3_2);
    lemma_peel(x3, t4_1, t4_2);
    lemma_content_frame(c1.content, t5_1, c2.content, t5_2);
    lemma_peel(x5, t6_1, t6_2);
    lemma_cbor_text_frame(
        rfc3339_of(c1.created_at.secs),
        t7_1,
        rfc3339_of(c2.created_at.secs),
        t7_2,
    );
    lemma_peel(x7, t8_1, t8_2);
    if c1.managed_user_id is Some {
        lemma_uuid_text_round_trip(c1.managed_user_id.unwrap());
        lemma_encode_utf8_len(c1.managed_user_id.unwrap().spec_text());
    }
    if c2.managed_user_id is Some {
        lemma_uuid_text_round_trip(c2.managed_user_id.unwrap());
        lemma_encode_utf8_len(c2.managed_user_id.unwrap().spec_text());
    }
    lemma_cbor_opt_text_frame(
        spec_opt_uuid_text(c1.managed_user_id),
        t9_1,
        spec_opt_uuid_text(c2.managed_user_id),
        t9_2,
    );
    match (c1.managed_user_id, c2.managed_user_id) {
        (Some(u1), Some(u2)) => {
            lemma_uuid_text_round_trip(u1);
            lemma_uuid_text_round_trip(u2);
            assert(u1 == u2);
        },
        _ => {},
    }
    lemma_peel(x9, t10_1, t10_2);
    lemma_add_empty(x10_1);
    lemma_add_empty(x10_2);
    lemma_cbor_bytes_frame(
        c1.user_principal,
        Seq::<u8>::empty(),
        c2.user_principal,
        Seq::<u8>::empty(),
    );
}

/// The left-nested certificate encoding equals the right-nested chain of
/// its items.
proof fn lemma_certificate_chain_form(c: CertificateView)
    ensures
        spec_certificate_cbor(c) == spec_cbor_self_describe() + (spec_cbor_map_header(4) + (
        spec_cbor_text("content"@) + (spec_content_cbor(c.content) + (spec_cbor_text(
            "created_at"@,
        ) + (spec_cbor_text(rfc3339_of(c.created_at.secs)) + (spec_cbor_text("managed_user_id"@)
            + (spec_cbor_opt_text(spec_opt_uuid_text(c.managed_user_id)) + (spec_cbor_text(
            "user_principal"@,
        ) + spec_cbor_bytes(c.user_principal))))))))),
{
    let x1 = spec_cbor_self_describe();
    let x2 = spec_cbor_map_header(4);
    let x3 = spec_cbor_text("content"@);
    let x4 = spec_content_cbor(c.content);
    let x5 = spec_cbor_text("created_at"@);
    let x6 = spec_cbor_text(rfc3339_of(c.created_at.secs));
    let x7 = spec_cbor_text("managed_user_id"@);
    let x8 = spec_cbor_opt_text(spec_opt_uuid_text(c.managed_user_id));
    let x9 = spec_cbor_text("user_principal"@);
    let x10 = spec_cbor_bytes(c.user_principal);
    let p2 = x1 + x2;
    let p3 = p2 + x3;
    let p4 = p3 + x4;
    let p5 = p4 + x5;
    let p6 = p5 + x6;
    let p7 = p6 + x7;
    let p8 = p7 + x8;
    let p9 = p8 + x9;
    let t10 = x10;
    let t9 = x9 + t10;
    let t8 = x8 + t9;
    let t7 = x7 + t8;
    let t6 = x6 + t7;
    let t5 = x5 + t6;
    let t4 = x4 + t5;
    let t3 = x3 + t4;
    lemma_assoc(p8, x9, x10);
    lemma_assoc(p7, x8, t9);
    lemma_assoc(p6, x7, t8);
    lemma_assoc(p5, x6, t7);
    lemma_assoc(p4, x5, t6);
    lemma_assoc(p3, x4, t5);
    lemma_assoc(p2, x3, t4);
    lemma_assoc(x1, x2, t3);
}

} // verus!
