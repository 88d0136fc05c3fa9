//! Caller classification: controller, backend, or registered user.  The
//! platform's controller check is performed outside and handed in as a
//! value; the backend is the configured principal; a user is any
//! principal in the directory.

use vstd::prelude::*;

use crate::config::{spec_config_view, ConfigRepository};
use crate::principal::UserPrincipal;
use crate::user::{spec_user_at, UserRepository};

verus! {

/// The access-control service.
pub struct AccessControlService {}

impl AccessControlService {
    pub fn new() -> (r: AccessControlService) {
        AccessControlService {  }
    }

    /// Requires the caller to be a controller; the platform's verdict is
    /// handed in.
    pub fn assert_principal_is_controller(&self, caller_is_controller: bool) -> (r: Result<
        (),
        String,
    >)
        ensures
            r is Ok <==> caller_is_controller,
            r is Err ==> r->Err_0@ == "Caller is not a controller"@,
    {
        if !caller_is_controller {
            return Err(String::from_str("Caller is not a controller"));
        }
        Ok(())
    }

    /// Requires the caller to be a registered user.
    pub fn assert_principal_is_user(
        &self,
        users: &UserRepository,
        calling_principal: &UserPrincipal,
    ) -> (r: Result<(), String>)
        requires
            calling_principal.wf(),
        ensures
            r is Ok <==> spec_user_at(users.entries@, calling_principal@) is Some,
    {
        if users.get_user_by_principal(calling_principal).is_none() {
            let mut msg = String::from_str("Caller ");
            let text = calling_principal.to_text();
            msg.append(text.as_str());
            msg.append(" is not a user");
            return Err(msg);
        }
        Ok(())
    }

    /// Requires the caller to be the configured backend principal.
    pub fn assert_principal_is_backend(
        &self,
        config: &ConfigRepository,
        calling_principal: &UserPrincipal,
    ) -> (r: Result<(), String>)
        ensures
            r is Ok <==> spec_config_view(config.config) == Some(calling_principal@),
            r is Err ==> (spec_config_view(config.config) is None ==> r->Err_0@
                == "Backend principal not set"@),
            r is Err ==> (spec_config_view(config.config) is Some ==> r->Err_0@
                == "Caller is not the backend"@),
    {
        match &config.config.backend_principal {
            None => Err(String::from_str("Backend principal not set")),
            Some(backend) => {
                if !calling_principal.equals(backend) {
                    Err(String::from_str("Caller is not the backend"))
                } else {
                    Ok(())
                }
            },
        }
    }

    /// Classifies a caller for certificate access: the backend sees
    /// everything (no restriction); a registered user sees only their own
    /// data; anyone else is rejected.
    pub fn assert_principal_is_user_or_backend(
        &self,
        config: &ConfigRepository,
        users: &UserRepository,
        calling_principal: &UserPrincipal,
    ) -> (r: Result<Option<UserPrincipal>, String>)
        requires
            calling_principal.wf(),
        ensures
            spec_config_view(config.config) == Some(calling_principal@) ==> r == Result::<
                Option<UserPrincipal>,
                String,
            >::Ok(None),
            spec_config_view(config.config) != Some(calling_principal@) && spec_user_at(
                users.entries@,
                calling_principal@,
            ) is Some ==> (r matches Ok(Some(p)) && p@ == calling_principal@),
            spec_config_view(config.config) != Some(calling_principal@) && spec_user_at(
                users.entries@,
                calling_principal@,
            ) is None ==> (r matches Err(m) && m@
                == "Caller is not the backend or a registered user"@),
    {
        match self.assert_principal_is_backend(config, calling_principal) {
            Ok(_) => Ok(None),
            Err(_) => {
                match self.assert_principal_is_user(users, calling_principal) {
                    Ok(_) => Ok(Some(calling_principal.duplicate())),
                    Err(_) => Err(
                        String::from_str("Caller is not the backend or a registered user"),
                    ),
                }
            },
        }
    }
}

} // verus!
