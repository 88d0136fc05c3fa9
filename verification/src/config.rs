//! The persistent configuration: at most one backend principal, and its
//! store and service.  Only a controller may read or change it; the
//! callers enforce that and hand the outcome of the platform's controller
//! check in as a value.

use vstd::prelude::*;

use crate::principal::{spec_anonymous_principal, UserPrincipal};

verus! {

/// The configuration: the off-chain backend principal, when one is set.
#[derive(Debug, Clone)]
pub struct Config {
    pub backend_principal: Option<UserPrincipal>,
}

/// The view of a configuration: the backend principal's bytes.
pub open spec fn spec_config_view(c: Config) -> Option<Seq<u8>> {
    match c.backend_principal {
        Some(p) => Some(p@),
        None => None,
    }
}

impl Config {
    pub open spec fn wf(&self) -> bool {
        self.backend_principal matches Some(p) ==> p.wf()
    }

    /// A copy of this configuration.
    pub fn duplicate(&self) -> (c: Config)
        ensures
            spec_config_view(c) == spec_config_view(*self),
            c.wf() == self.wf(),
    {
        Config {
            backend_principal: match &self.backend_principal {
                Some(p) => Some(p.duplicate()),
                None => None,
            },
        }
    }
}

/// The configuration store: a single cell.
#[derive(Debug)]
pub struct ConfigRepository {
    pub config: Config,
}

impl ConfigRepository {
    pub open spec fn wf(&self) -> bool {
        self.config.wf()
    }

    /// A fresh store holds the default configuration: no backend
    /// principal.
    pub fn new() -> (r: ConfigRepository)
        ensures
            spec_config_view(r.config) is None,
            r.wf(),
    {
        ConfigRepository { config: Config { backend_principal: None } }
    }

    /// The stored configuration.
    pub fn get_config(&self) -> (c: Config)
        ensures
            spec_config_view(c) == spec_config_view(self.config),
            self.wf() ==> c.wf(),
    {
        self.config.duplicate()
    }

    /// Replaces the stored configuration.
    pub fn set_config(&mut self, config: Config) -> (r: Result<(), String>)
        ensures
            r is Ok,
            final(self).config == config,
    {
        self.config = config;
        Ok(())
    }
}

/// The configuration service: reads and changes the configuration on
/// behalf of a controller.
#[derive(Debug)]
pub struct ConfigService {}

impl ConfigService {
    pub fn new() -> (r: ConfigService) {
        ConfigService {  }
    }

    /// Sets the backend principal.  The anonymous principal is rejected;
    /// any other principal replaces the stored one.
    pub fn set_backend_principal(&self, repo: &mut ConfigRepository, backend: UserPrincipal) -> (r:
        Result<(), String>)
        requires
            backend.wf(),
        ensures
            r is Ok <==> backend@ != spec_anonymous_principal(),
            r is Ok ==> spec_config_view(final(repo).config) == Some(backend@) && final(repo).wf(),
            r is Err ==> *final(repo) == *old(repo) && r->Err_0@
                == "Backend principal cannot be anonymous"@,
    {
        if backend.is_anonymous() {
            return Err(String::from_str("Backend principal cannot be anonymous"));
        }
        let mut config = repo.get_config();
        config.backend_principal = Some(backend);
        let r = repo.set_config(config);
        r
    }

    /// The stored configuration.
    pub fn get_config(&self, repo: &ConfigRepository) -> (c: Config)
        ensures
            spec_config_view(c) == spec_config_view(repo.config),
            repo.wf() ==> c.wf(),
    {
        repo.get_config()
    }
}

} // verus!
