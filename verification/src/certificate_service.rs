//! The certificate service: validates requests, resolves the owning
//! user, stores certificates, and serves reads under the caller's access
//! restriction.

use vstd::prelude::*;

use crate::api::{
    CertificatePreviewWithId, CertificateWithId, CreateCertificateRequest,
    CreateCertificateResponse, GetCertificateResponse, GetUserCertificatesRequest,
    GetUserCertificatesResponse, ValidateRequest,
};
use crate::certificate::{
    spec_certificate_cbor, Certificate, CertificateContent, CertificateId, CertificateView,
};
use crate::certificate_store::{certs_view, spec_cert_at, CertificateRepository};
use crate::cbor::spec_opt_view;
use crate::date_time::{DateTime, MAX_DATE_TIME_SECS, MICROS_IN_SECOND};
use crate::hex::spec_hex_of;
use crate::principal::UserPrincipal;
use crate::user::{spec_user_by_db_id, UserRepository};
use crate::uuid::{
    spec_random_masked, spec_uuid_of_bytes, spec_uuid_parse, spec_uuid_parse_error, Uuid,
};

verus! {

/// The listing a request denotes, over the registry and directory
/// contents: by principal when one is given, else by the principal bound
/// to the directory id; when the principal listing is empty, the
/// managed-user listing, restricted to the caller's own certificates for
/// a user caller.
pub open spec fn spec_user_certificates(
    certs: Seq<(CertificateId, CertificateView)>,
    users: Seq<(UserPrincipal, crate::user::User)>,
    principal: Option<Seq<u8>>,
    db_id: Option<Uuid>,
    restriction: Option<Seq<u8>>,
) -> Seq<(CertificateId, CertificateView)> {
    let maybe_principal = if principal is Some {
        principal
    } else {
        match spec_user_by_db_id(users, db_id.unwrap()) {
            Some(pu) => Some(pu.0),
            None => None,
        }
    };
    let by_principal = match maybe_principal {
        Some(p) => certs.filter(|e: (CertificateId, CertificateView)| e.1.user_principal == p),
        None => Seq::<(CertificateId, CertificateView)>::empty(),
    };
    if by_principal.len() > 0 {
        by_principal
    } else {
        match db_id {
            Some(d) => {
                let by_managed = certs.filter(
                    |e: (CertificateId, CertificateView)| e.1.managed_user_id == Some(d),
                );
                match restriction {
                    Some(p) => by_managed.filter(
                        |e: (CertificateId, CertificateView)| e.1.user_principal == p,
                    ),
                    None => by_managed,
                }
            },
            None => Seq::<(CertificateId, CertificateView)>::empty(),
        }
    }
}

/// Every certificate a restricted caller is shown is their own.  The
/// premises are exactly what holds in a successful restricted call: a
/// given principal is the caller's, and a directory id bound to a
/// principal is bound to the caller's (other cases are rejected before
/// any listing).
pub proof fn lemma_user_certificates_restricted(
    certs: Seq<(CertificateId, CertificateView)>,
    users: Seq<(UserPrincipal, crate::user::User)>,
    principal: Option<Seq<u8>>,
    db_id: Option<Uuid>,
    caller: Seq<u8>,
)
    requires
        principal is Some ==> principal == Some(caller),
        principal is None ==> db_id is Some,
        principal is None && db_id is Some && spec_user_by_db_id(users, db_id.unwrap()) is Some
            ==> spec_user_by_db_id(users, db_id.unwrap()).unwrap().0 == caller,
    ensures
        forall|i: int|
            0 <= i < spec_user_certificates(certs, users, principal, db_id, Some(caller)).len()
                ==> (#[trigger] spec_user_certificates(
                certs,
                users,
                principal,
                db_id,
                Some(caller),
            )[i]).1.user_principal == caller,
{
    let result = spec_user_certificates(certs, users, principal, db_id, Some(caller));
    assert forall|i: int|
        0 <= i < result.len() implies (#[trigger] result[i]).1.user_principal == caller by {
        let maybe_principal = if principal is Some {
            principal
        } else {
            match spec_user_by_db_id(users, db_id.unwrap()) {
                Some(pu) => Some(pu.0),
                None => None,
            }
        };
        let by_principal = match maybe_principal {
            Some(p) => certs.filter(
                |e: (CertificateId, CertificateView)| e.1.user_principal == p,
            ),
            None => Seq::<(CertificateId, CertificateView)>::empty(),
        };
        if by_principal.len() > 0 {
            match maybe_principal {
                Some(p) => {
                    certs.lemma_filter_pred(
                        |e: (CertificateId, CertificateView)| e.1.user_principal == p,
                        i,
                    );
                },
                None => {},
            }
        } else {
            match db_id {
                Some(d) => {
                    let by_managed = certs.filter(
                        |e: (CertificateId, CertificateView)| e.1.managed_user_id == Some(d),
                    );
                    by_managed.lemma_filter_pred(
                        |e: (CertificateId, CertificateView)| e.1.user_principal == caller,
                        i,
                    );
                },
                None => {},
            }
        }
    }
}

/// The outcome of a listing request: the first failure with its message
/// — an invalid request, an unparseable directory id, or a caller
/// restricted to another user's data — or the denoted listing.
pub open spec fn spec_list_certificates(
    certs: Seq<(CertificateId, CertificateView)>,
    users: Seq<(UserPrincipal, crate::user::User)>,
    request: GetUserCertificatesRequest,
    restriction: Option<Seq<u8>>,
) -> Result<Seq<(CertificateId, CertificateView)>, Seq<char>> {
    if !request.spec_valid() {
        Err(request.spec_validation_error())
    } else {
        let db_parsed = match request.user_db_id {
            Some(d) => spec_uuid_parse(d@),
            None => None,
        };
        if request.user_db_id is Some && db_parsed is None {
            Err(spec_uuid_parse_error(request.user_db_id.unwrap()@))
        } else {
            let maybe_principal = if request.user_principal is Some {
                Some(request.user_principal.unwrap()@)
            } else {
                match spec_user_by_db_id(users, db_parsed.unwrap()) {
                    Some(pu) => Some(pu.0),
                    None => None,
                }
            };
            if restriction is Some && maybe_principal is Some && maybe_principal.unwrap()
                != restriction.unwrap() {
                Err("User can only access their own certificates"@)
            } else {
                Ok(
                    spec_user_certificates(
                        certs,
                        users,
                        spec_restriction_ref(request.user_principal),
                        db_parsed,
                        restriction,
                    ),
                )
            }
        }
    }
}

/// The outcome of a creation request: the first failure with its message
/// — an invalid request, and on the backend path an unparseable or
/// unknown directory id, then an out-of-range date or an unparseable
/// managed id — or the resolved owner and parsed managed id.
pub open spec fn spec_create_certificate(
    users: Seq<(UserPrincipal, crate::user::User)>,
    request: CreateCertificateRequest,
    caller: Option<Seq<u8>>,
    now_s: u64,
) -> Result<(Seq<u8>, Option<Uuid>), Seq<char>> {
    if !request.spec_valid() {
        Err(request.spec_validation_error())
    } else {
        let owner = match caller {
            Some(p) => Ok(p),
            None => match spec_uuid_parse(request.user_db_id@) {
                None => Err(spec_uuid_parse_error(request.user_db_id@)),
                Some(d) => match spec_user_by_db_id(users, d) {
                    None => Err("User with database id "@ + d.spec_text() + " does not exist"@),
                    Some(pu) => Ok(pu.0),
                },
            },
        };
        match owner {
            Err(m) => Err(m),
            Ok(owner_bytes) => {
                if now_s > MAX_DATE_TIME_SECS {
                    Err("Failed to convert timestamp to date time"@)
                } else if request.content.issued_at / MICROS_IN_SECOND > MAX_DATE_TIME_SECS {
                    Err("Failed to convert timestamp to date time"@)
                } else {
                    match request.managed_user_db_id {
                        Some(t) => match spec_uuid_parse(t@) {
                            None => Err(spec_uuid_parse_error(t@)),
                            Some(m) => Ok((owner_bytes, Some(m))),
                        },
                        None => Ok((owner_bytes, None)),
                    }
                }
            },
        }
    }
}

/// The certificate service.
pub struct CertificateService {}

impl CertificateService {
    pub fn new() -> (r: CertificateService) {
        CertificateService {  }
    }

    /// Retrieves a certificate by the text of its identifier, with the
    /// platform's data certificate and the witness of its path.  A user
    /// caller may only retrieve their own certificates.
    pub fn get_certificate(
        &self,
        certs: &CertificateRepository,
        id: &str,
        only_user_principal: Option<&UserPrincipal>,
        ic_certificate: Vec<u8>,
    ) -> (r: Result<GetCertificateResponse, String>)
        requires
            certs.wf(),
        ensures
            spec_uuid_parse(id@) is None ==> (r matches Err(m) && m@ == spec_uuid_parse_error(
                id@,
            )),
            spec_uuid_parse(id@) matches Some(u) ==> match spec_cert_at(certs.entries@, u) {
                None => r matches Err(m) && m@ == "Certificate not found"@,
                Some(cv) => {
                    match only_user_principal {
                        Some(p) => {
                            if cv.user_principal != p@ {
                                r matches Err(m) && m@
                                    == "User can only access their own certificates"@
                            } else {
                                r is Ok
                            }
                        },
                        None => r is Ok,
                    }
                },
            },
            r is Ok ==> ({
                let u = spec_uuid_parse(id@).unwrap();
                let cv = spec_cert_at(certs.entries@, u).unwrap();
                let resp = r->Ok_0;
                &&& resp.certificate.id@ == u.spec_text()
                &&& resp.certificate.certificate_cbor_hex@ == spec_hex_of(
                    spec_certificate_cbor(cv),
                )
                &&& (only_user_principal matches Some(p) ==> cv.user_principal == p@)
            }),
    {
        let uuid = match Uuid::try_from_text(id) {
            Ok(u) => u,
            Err(e) => {
                return Err(e);
            },
        };
        let (cert, witness) = match certs.get_certificate(&uuid) {
            Some(cw) => cw,
            None => {
                return Err(String::from_str("Certificate not found"));
            },
        };
        if let Some(p) = only_user_principal {
            if !cert.user_principal.equals(p) {
                return Err(String::from_str("User can only access their own certificates"));
            }
        }
        let id_text = uuid.to_string();
        let cbor_hex = cert.certificate_cbor_hex();
        Ok(
            GetCertificateResponse {
                certificate: CertificateWithId { id: id_text, certificate_cbor_hex: cbor_hex },
                ic_certificate,
                ic_certificate_witness: witness,
            },
        )
    }

    /// Lists a user's certificates under the caller's restriction: by
    /// principal, else by directory id, falling back to the managed-user
    /// index; a user caller sees only their own.
    pub fn get_user_certificates(
        &self,
        certs: &CertificateRepository,
        users: &UserRepository,
        request: &GetUserCertificatesRequest,
        only_user_principal: Option<&UserPrincipal>,
    ) -> (r: Result<GetUserCertificatesResponse, String>)
        requires
            certs.wf(),
        ensures
            r is Ok <==> spec_list_certificates(
                certs_view(certs.entries@),
                users.entries@,
                *request,
                spec_restriction_opt_ref(only_user_principal),
            ) is Ok,
            r is Err ==> r->Err_0@ == spec_list_certificates(
                certs_view(certs.entries@),
                users.entries@,
                *request,
                spec_restriction_opt_ref(only_user_principal),
            )->Err_0,
            r is Ok ==> ({
                let listing = spec_list_certificates(
                    certs_view(certs.entries@),
                    users.entries@,
                    *request,
                    spec_restriction_opt_ref(only_user_principal),
                )->Ok_0;
                let resp = r->Ok_0;
                &&& resp.certificates@.len() == listing.len()
                &&& (forall|i: int|
                    0 <= i < listing.len() ==> {
                        &&& (#[trigger] resp.certificates@[i]).id@ == listing[i].0.spec_text()
                        &&& resp.certificates@[i].name@ == listing[i].1.content.name
                    })
            }),
    {
        match request.validate() {
            Ok(_) => {},
            Err(e) => {
                return Err(e);
            },
        }
        let maybe_user_db_id = match &request.user_db_id {
            Some(text) => {
                match Uuid::try_from_text(text.as_str()) {
                    Ok(u) => Some(u),
                    Err(e) => {
                        return Err(e);
                    },
                }
            },
            None => None,
        };
        let maybe_user_principal: Option<UserPrincipal> = match &request.user_principal {
            Some(p) => Some(p.duplicate()),
            None => {
                let d = maybe_user_db_id.as_ref().unwrap();
                match users.get_user_by_db_id(d) {
                    Some((p, _)) => Some(p),
                    None => None,
                }
            },
        };
        let mut certificates: Vec<(CertificateId, Certificate)> = Vec::new();
        if let Some(user_principal) = &maybe_user_principal {
            if let Some(p) = only_user_principal {
                if !p.equals(user_principal) {
                    return Err(
                        String::from_str("User can only access their own certificates"),
                    );
                }
            }
            certificates = match certs.get_certificates_by_user_principal(user_principal) {
                Ok(c) => c,
                Err(e) => {
                    return Err(e);
                },
            };
        }
        if certificates.len() == 0 {
            if let Some(user_db_id) = &maybe_user_db_id {
                let by_managed = match certs.get_certificates_by_managed_user_id(user_db_id) {
                    Ok(c) => c,
                    Err(e) => {
                        return Err(e);
                    },
                };
                certificates = match only_user_principal {
                    Some(p) => retain_owned_by(by_managed, p),
                    None => by_managed,
                };
            }
        }
        let previews = map_previews(&certificates);
        Ok(GetUserCertificatesResponse { certificates: previews })
    }

    /// Creates a certificate: validates the request, resolves the owning
    /// principal (the caller for a user, else the user bound to the
    /// requested directory id), stores the record under a fresh random
    /// identifier, and certifies it.
    pub fn create_certificate(
        &self,
        certs: &mut CertificateRepository,
        users: &UserRepository,
        request: &CreateCertificateRequest,
        calling_user_principal: Option<&UserPrincipal>,
        random_id_bytes: [u8; 16],
        now_s: u64,
    ) -> (r: Result<CreateCertificateResponse, String>)
        requires
            old(certs).wf(),
            users.wf(),
            calling_user_principal matches Some(p) ==> p.wf(),
        ensures
            final(certs).wf(),
            r is Ok <==> spec_create_certificate(
                users.entries@,
                *request,
                spec_restriction_opt_ref(calling_user_principal),
                now_s,
            ) is Ok,
            r is Err ==> r->Err_0@ == spec_create_certificate(
                users.entries@,
                *request,
                spec_restriction_opt_ref(calling_user_principal),
                now_s,
            )->Err_0,
            r is Err ==> final(certs).entries@ == old(certs).entries@,
            r is Ok ==> ({
                let outcome = spec_create_certificate(
                    users.entries@,
                    *request,
                    spec_restriction_opt_ref(calling_user_principal),
                    now_s,
                )->Ok_0;
                let id = spec_uuid_of_bytes(spec_random_masked(random_id_bytes@));
                let resp = r->Ok_0;
                let stored = spec_cert_at(final(certs).entries@, id);
                &&& resp.id@ == id.spec_text()
                &&& stored matches Some(cv)
                &&& stored.unwrap().content.name == request.content.name@
                &&& stored.unwrap().content.sport_category == request.content.sport_category@
                &&& stored.unwrap().content.notes == spec_opt_view(request.content.notes)
                &&& stored.unwrap().content.file_uri == spec_opt_view(request.content.file_uri)
                &&& stored.unwrap().content.external_id == spec_opt_view(
                    request.content.external_id,
                )
                &&& stored.unwrap().content.issuer_full_name == spec_opt_view(
                    request.content.issuer_full_name,
                )
                &&& stored.unwrap().content.issuer_club_name == spec_opt_view(
                    request.content.issuer_club_name,
                )
                &&& stored.unwrap().content.issued_at.secs == request.content.issued_at
                    / MICROS_IN_SECOND
                &&& stored.unwrap().created_at.secs == now_s
                &&& stored.unwrap().managed_user_id == outcome.1
                &&& stored.unwrap().user_principal == outcome.0
                &&& (forall|o: Uuid|
                    o != id ==> #[trigger] spec_cert_at(final(certs).entries@, o) == spec_cert_at(
                        old(certs).entries@,
                        o,
                    ))
            }),
    {
        match request.validate() {
            Ok(_) => {},
            Err(e) => {
                return Err(e);
            },
        }
        let user_principal: UserPrincipal = match calling_user_principal {
            Some(p) => p.duplicate(),
            None => {
                let user_db_id = match Uuid::try_from_text(request.user_db_id.as_str()) {
                    Ok(u) => u,
                    Err(e) => {
                        return Err(e);
                    },
                };
                match users.get_user_by_db_id(&user_db_id) {
                    Some((p, _)) => p,
                    None => {
                        let id_text = user_db_id.to_string();
                        let mut msg = String::from_str("User with database id ");
                        msg.append(id_text.as_str());
                        msg.append(" does not exist");
                        return Err(msg);
                    },
                }
            },
        };
        let created_at = match DateTime::new(now_s) {
            Ok(d) => d,
            Err(e) => {
                return Err(e);
            },
        };
        let issued_at = match DateTime::from_timestamp_micros(request.content.issued_at) {
            Ok(d) => d,
            Err(e) => {
                return Err(e);
            },
        };
        let managed_user_id = match &request.managed_user_db_id {
            Some(text) => {
                match Uuid::try_from_text(text.as_str()) {
                    Ok(u) => Some(u),
                    Err(e) => {
                        return Err(e);
                    },
                }
            },
            None => None,
        };
        let content = CertificateContent {
            external_id: crate::certificate::opt_string_duplicate(&request.content.external_id),
            file_uri: crate::certificate::opt_string_duplicate(&request.content.file_uri),
            issued_at,
            issuer_club_name: crate::certificate::opt_string_duplicate(
                &request.content.issuer_club_name,
            ),
            issuer_full_name: crate::certificate::opt_string_duplicate(
                &request.content.issuer_full_name,
            ),
            name: request.content.name.clone(),
            notes: crate::certificate::opt_string_duplicate(&request.content.notes),
            sport_category: request.content.sport_category.clone(),
        };
        let certificate = Certificate { content, created_at, managed_user_id, user_principal };
        proof {
            let cv = certificate@;
            assert(cv.content.name == request.content.name@);
            assert(cv.content.sport_category == request.content.sport_category@);
            assert(cv.content.notes == crate::cbor::spec_opt_view(request.content.notes));
            assert(cv.content.file_uri == crate::cbor::spec_opt_view(request.content.file_uri));
            assert(cv.content.external_id == crate::cbor::spec_opt_view(
                request.content.external_id,
            ));
            assert(cv.content.issuer_full_name == crate::cbor::spec_opt_view(
                request.content.issuer_full_name,
            ));
            assert(cv.content.issuer_club_name == crate::cbor::spec_opt_view(
                request.content.issuer_club_name,
            ));
            assert(cv.content.name.len() <= 100);
            assert(cv.content.sport_category.len() <= 80);
            assert(crate::certificate::spec_opt_chars_len(cv.content.notes) <= 500);
            assert(cv.content.file_uri matches Some(f) ==> vstd::utf8::encode_utf8(f).len()
                <= 1572864);
            assert(crate::certificate::spec_opt_chars_len(cv.content.external_id) <= 100);
            assert(crate::certificate::spec_opt_chars_len(cv.content.issuer_full_name) <= 100);
            assert(crate::certificate::spec_opt_chars_len(cv.content.issuer_club_name) <= 100);
            assert(cv.content.issued_at.wf());
            assert(cv.content.wf());
            if calling_user_principal is None {
                crate::user::lemma_user_by_db_id_wf(
                    users.entries@,
                    spec_uuid_parse(request.user_db_id@).unwrap(),
                );
            }
            assert(cv.wf());
        }
        certificate.check_renderable();
        let id = Uuid::from_random_bytes(random_id_bytes);
        certs.insert_certificate(id, certificate);
        let id_text = id.to_string();
        Ok(CreateCertificateResponse { id: id_text })
    }

    /// Rebuilds the registry's certified tree from its stored
    /// certificates.
    pub fn certify_all_certificates(&self, certs: &mut CertificateRepository)
        requires
            old(certs).wf(),
        ensures
            final(certs).entries@ == old(certs).entries@,
            final(certs).wf(),
    {
        certs.certify_all_certificates();
    }
}

/// The restriction view of an optional owned principal.
pub open spec fn spec_restriction_ref(o: Option<UserPrincipal>) -> Option<Seq<u8>> {
    match o {
        Some(p) => Some(p@),
        None => None,
    }
}

/// The restriction view of an optional borrowed principal.
pub open spec fn spec_restriction_opt_ref(o: Option<&UserPrincipal>) -> Option<Seq<u8>> {
    match o {
        Some(p) => Some(p@),
        None => None,
    }
}

/// Keeps the certificates owned by the given principal.
fn retain_owned_by(list: Vec<(CertificateId, Certificate)>, p: &UserPrincipal) -> (r: Vec<
    (CertificateId, Certificate),
>)
    ensures
        certs_view(r@) == certs_view(list@).filter(
            |e: (CertificateId, CertificateView)| e.1.user_principal == p@,
        ),
{
    let mut out: Vec<(CertificateId, Certificate)> = Vec::new();
    let n = list.len();
    proof {
        reveal(Seq::filter);
        assert(certs_view(list@.take(0)).filter(
            |e: (CertificateId, CertificateView)| e.1.user_principal == p@,
        ) =~= Seq::<(CertificateId, CertificateView)>::empty());
        assert(certs_view(out@) =~= Seq::<(CertificateId, CertificateView)>::empty());
    }
    for i in 0..n
        invariant
            n == list@.len(),
            certs_view(out@) == certs_view(list@.take(i as int)).filter(
                |e: (CertificateId, CertificateView)| e.1.user_principal == p@,
            ),
        decreases n - i,
    {
        let ghost prev = certs_view(out@);
        let matched = list[i].1.user_principal.equals(p);
        if matched {
            out.push((list[i].0, list[i].1.duplicate()));
        }
        proof {
            reveal(Seq::filter);
            let s1 = certs_view(list@.take(i + 1));
            assert(s1.drop_last() =~= certs_view(list@.take(i as int)));
            assert(s1.last() == (list@[i as int].0, list@[i as int].1@));
            if matched {
                assert(certs_view(out@) =~= prev.push(s1.last()));
            } else {
                assert(certs_view(out@) =~= prev);
            }
        }
    }
    proof {
        assert(list@.take(n as int) =~= list@);
    }
    out
}

/// The creation answer for a new identifier.
pub fn map_create_certificate_response(certificate_id: &CertificateId) -> (r:
    CreateCertificateResponse)
    ensures
        r.id@ == certificate_id.spec_text(),
{
    CreateCertificateResponse { id: certificate_id.to_string() }
}

/// The preview of one certificate: its identifier and title.
pub fn map_certificate_preview_with_id(id: &CertificateId, certificate: &Certificate) -> (r:
    CertificatePreviewWithId)
    ensures
        r.id@ == id.spec_text(),
        r.name@ == certificate.content.name@,
{
    CertificatePreviewWithId { id: id.to_string(), name: certificate.content.name.clone() }
}

/// A certificate with its identifier and hex-rendered encoding.
pub fn map_certificate_with_id(id: &CertificateId, certificate: &Certificate) -> (r:
    CertificateWithId)
    requires
        certificate.created_at.wf(),
        certificate.content.issued_at.wf(),
    ensures
        r.id@ == id.spec_text(),
        r.certificate_cbor_hex@ == spec_hex_of(spec_certificate_cbor(certificate@)),
{
    CertificateWithId {
        id: id.to_string(),
        certificate_cbor_hex: certificate.certificate_cbor_hex(),
    }
}

/// The previews of a listing, in order.
fn map_previews(list: &Vec<(CertificateId, Certificate)>) -> (r: Vec<CertificatePreviewWithId>)
    ensures
        r@.len() == list@.len(),
        forall|i: int|
            0 <= i < list@.len() ==> {
                &&& (#[trigger] r@[i]).id@ == list@[i].0.spec_text()
                &&& r@[i].name@ == list@[i].1.content.name@
            },
{
    let mut out: Vec<CertificatePreviewWithId> = Vec::new();
    let n = list.len();
    for i in 0..n
        invariant
            n == list@.len(),
            out@.len() == i,
            forall|j: int|
                0 <= j < i ==> {
                    &&& (#[trigger] out@[j]).id@ == list@[j].0.spec_text()
                    &&& out@[j].name@ == list@[j].1.content.name@
                },
        decreases n - i,
    {
        out.push(map_certificate_preview_with_id(&list[i].0, &list[i].1));
    }
    out
}

} // verus!
