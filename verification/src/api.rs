//! Request and response shapes of the public operations, and request
//! validation: field bounds checked before any side effect, each failure
//! with its exact message.

use vstd::prelude::*;

use crate::principal::UserPrincipal;

verus! {

pub const MAX_NAME_CHARS_COUNT: usize = 100;

pub const MAX_SPORT_CATEGORY_CHARS_COUNT: usize = 80;

pub const MAX_NOTES_CHARS_COUNT: usize = 500;

/// 1.5 mebibytes.
pub const MAX_FILE_BYTES_SIZE: usize = 1572864;

pub const MAX_EXTERNAL_ID_CHARS_COUNT: usize = 100;

pub const MAX_ISSUER_FULL_NAME_CHARS_COUNT: usize = 100;

pub const MAX_ISSUER_CLUB_NAME_CHARS_COUNT: usize = 100;

/// A request's self-validation: rejected requests name the violated
/// bound.
pub trait ValidateRequest {
    /// Whether every field bound holds.
    spec fn spec_valid(&self) -> bool;

    /// The message of the first violated bound.
    spec fn spec_validation_error(&self) -> Seq<char>;

    /// Validates the request, based on its fields.
    fn validate(&self) -> (r: Result<(), String>)
        ensures
            r is Ok <==> self.spec_valid(),
            r is Err ==> r->Err_0@ == self.spec_validation_error(),
    ;
}

/// The content of a certificate to create; the issue date is given in
/// microseconds since the epoch.
#[derive(Debug)]
pub struct CreateCertificateContentRequest {
    pub name: String,
    pub issued_at: u64,
    pub sport_category: String,
    pub notes: Option<String>,
    pub file_uri: Option<String>,
    pub external_id: Option<String>,
    pub issuer_full_name: Option<String>,
    pub issuer_club_name: Option<String>,
}

/// A request to create a certificate for the user with the given
/// directory id, possibly on behalf of a managed user.
#[derive(Debug)]
pub struct CreateCertificateRequest {
    pub user_db_id: String,
    pub content: CreateCertificateContentRequest,
    pub managed_user_db_id: Option<String>,
}

/// The length of an optional string in characters; zero when absent.
pub open spec fn spec_opt_chars(o: Option<String>) -> int {
    match o {
        Some(s) => s@.len() as int,
        None => 0,
    }
}

/// The byte length of an optional string; zero when absent.
pub open spec fn spec_opt_bytes(o: Option<String>) -> int {
    match o {
        Some(s) => vstd::utf8::encode_utf8(s@).len() as int,
        None => 0,
    }
}

impl ValidateRequest for CreateCertificateRequest {
    open spec fn spec_valid(&self) -> bool {
        &&& self.content.name@.len() > 0
        &&& self.content.name@.len() <= MAX_NAME_CHARS_COUNT
        &&& self.content.sport_category@.len() > 0
        &&& self.content.sport_category@.len() <= MAX_SPORT_CATEGORY_CHARS_COUNT
        &&& spec_opt_chars(self.content.notes) <= MAX_NOTES_CHARS_COUNT
        &&& spec_opt_bytes(self.content.file_uri) <= MAX_FILE_BYTES_SIZE
        &&& spec_opt_chars(self.content.external_id) <= MAX_EXTERNAL_ID_CHARS_COUNT
        &&& spec_opt_chars(self.content.issuer_full_name) <= MAX_ISSUER_FULL_NAME_CHARS_COUNT
        &&& spec_opt_chars(self.content.issuer_club_name) <= MAX_ISSUER_CLUB_NAME_CHARS_COUNT
    }

    open spec fn spec_validation_error(&self) -> Seq<char> {
        if self.content.name@.len() == 0 {
            "Title cannot be empty."@
        } else if self.content.name@.len() > MAX_NAME_CHARS_COUNT {
            "Title cannot be longer than 100 characters."@
        } else if self.content.sport_category@.len() == 0 {
            "Sport category cannot be empty."@
        } else if self.content.sport_category@.len() > MAX_SPORT_CATEGORY_CHARS_COUNT {
            "Sport category cannot be longer than 80 characters."@
        } else if spec_opt_chars(self.content.notes) > MAX_NOTES_CHARS_COUNT {
            "Notes cannot be longer than 500 characters."@
        } else if spec_opt_bytes(self.content.file_uri) > MAX_FILE_BYTES_SIZE {
            "File bytes cannot be longer than 1572864 bytes."@
        } else if spec_opt_chars(self.content.external_id) > MAX_EXTERNAL_ID_CHARS_COUNT {
            "External ID cannot be longer than 100 characters."@
        } else if spec_opt_chars(self.content.issuer_full_name)
            > MAX_ISSUER_FULL_NAME_CHARS_COUNT {
            "Issuer full name cannot be longer than 100 characters."@
        } else {
            "Issuer club name cannot be longer than 100 characters."@
        }
    }

    fn validate(&self) -> (r: Result<(), String>) {
        let content = &self.content;
        if content.name.as_str().unicode_len() == 0 {
            return Err(String::from_str("Title cannot be empty."));
        }
        if content.name.as_str().unicode_len() > MAX_NAME_CHARS_COUNT {
            return Err(String::from_str("Title cannot be longer than 100 characters."));
        }
        if content.sport_category.as_str().unicode_len() == 0 {
            return Err(String::from_str("Sport category cannot be empty."));
        }
        if content.sport_category.as_str().unicode_len() > MAX_SPORT_CATEGORY_CHARS_COUNT {
            return Err(String::from_str("Sport category cannot be longer than 80 characters."));
        }
        if let Some(notes) = &content.notes {
            if notes.as_str().unicode_len() > MAX_NOTES_CHARS_COUNT {
                return Err(String::from_str("Notes cannot be longer than 500 characters."));
            }
        }
        if let Some(file_uri) = &content.file_uri {
            if file_uri.as_str().as_bytes_vec().len() > MAX_FILE_BYTES_SIZE {
                return Err(
                    String::from_str("File bytes cannot be longer than 1572864 bytes."),
                );
            }
        }
        if let Some(external_id) = &content.external_id {
            if external_id.as_str().unicode_len() > MAX_EXTERNAL_ID_CHARS_COUNT {
                return Err(String::from_str("External ID cannot be longer than 100 characters."));
            }
        }
        if let Some(issuer_full_name) = &content.issuer_full_name {
            if issuer_full_name.as_str().unicode_len() > MAX_ISSUER_FULL_NAME_CHARS_COUNT {
                return Err(
                    String::from_str("Issuer full name cannot be longer than 100 characters."),
                );
            }
        }
        if let Some(issuer_club_name) = &content.issuer_club_name {
            if issuer_club_name.as_str().unicode_len() > MAX_ISSUER_CLUB_NAME_CHARS_COUNT {
                return Err(
                    String::from_str("Issuer club name cannot be longer than 100 characters."),
                );
            }
        }
        Ok(())
    }
}

/// A request for a user's certificates, by exactly one of the user's
/// principal or directory id.
#[derive(Debug)]
pub struct GetUserCertificatesRequest {
    pub user_principal: Option<UserPrincipal>,
    pub user_db_id: Option<String>,
}

impl ValidateRequest for GetUserCertificatesRequest {
    open spec fn spec_valid(&self) -> bool {
        (self.user_principal is Some) != (self.user_db_id is Some)
    }

    open spec fn spec_validation_error(&self) -> Seq<char> {
        if self.user_principal is None && self.user_db_id is None {
            "Either user_principal or user_db_id must be provided."@
        } else {
            "Only one of user_principal or user_db_id can be provided."@
        }
    }

    fn validate(&self) -> (r: Result<(), String>) {
        if self.user_principal.is_none() && self.user_db_id.is_none() {
            return Err(
                String::from_str("Either user_principal or user_db_id must be provided."),
            );
        }
        if self.user_principal.is_some() && self.user_db_id.is_some() {
            return Err(
                String::from_str("Only one of user_principal or user_db_id can be provided."),
            );
        }
        Ok(())
    }
}

/// The answer to a creation: the new certificate's identifier as text.
#[derive(Debug)]
pub struct CreateCertificateResponse {
    pub id: String,
}

/// One entry of a certificate listing: identifier and title.
#[derive(Debug)]
pub struct CertificatePreviewWithId {
    pub id: String,
    pub name: String,
}

/// The answer to a listing.
#[derive(Debug)]
pub struct GetUserCertificatesResponse {
    pub certificates: Vec<CertificatePreviewWithId>,
}

/// A certificate with its identifier and its hex-rendered stored
/// encoding.
#[derive(Debug)]
pub struct CertificateWithId {
    pub id: String,
    pub certificate_cbor_hex: String,
}

/// The answer to a retrieval: the certificate, the platform's data
/// certificate, and the witness of the certificate's path in the
/// registry tree.
#[derive(Debug)]
pub struct GetCertificateResponse {
    pub certificate: CertificateWithId,
    pub ic_certificate: Vec<u8>,
    pub ic_certificate_witness: Vec<u8>,
}

} // verus!
