use vstd::prelude::*;

use crate::config::{Config, ConfigError, SessionPlan, node_address, credentials_of};
use crate::recycling::RecyclingMethod;

verus! {

/// Marks the session types a pool may hand out; the set of them is closed.
pub trait Sealed {}

/// What the pool needs to open and check sessions: the connection settings
/// and the recycling method.
pub struct Manager {
    pub config: Config,
    pub recycling: RecyclingMethod,
}

impl Manager {
    /// A manager for `config` that reuses returned sessions without a check.
    pub fn new(config: Config) -> (r: Self)
        ensures
            r.config == config,
            r.recycling is Fast,
    {
        Manager { config, recycling: RecyclingMethod::Fast }
    }

    /// Like `new`, but refuses a configuration that cannot open a session.
    pub fn try_new(config: Config) -> (r: Result<Self, ConfigError>)
        ensures
            r is Ok <==> config.spec_is_valid(),
            r is Ok ==> r->Ok_0.config == config && r->Ok_0.recycling is Fast,
            r is Err ==> r->Err_0 == ConfigError::EmptyHosts,
    {
        match config.validate() {
            Ok(()) => Ok(Manager::new(config)),
            Err(e) => Err(e),
        }
    }

    /// Sets how returned sessions are checked.
    pub fn with_recycling_method(self, method: RecyclingMethod) -> (r: Self)
        ensures
            r.config == self.config,
            r.recycling == method,
    {
        Manager { config: self.config, recycling: method }
    }

    /// What a new session is opened with: the first host, the keyspace, the
    /// credentials when both are set, and TLS with the CA certificate.
    pub fn session_plan(&self) -> (r: Result<SessionPlan, ConfigError>)
        ensures
            r is Ok <==> self.config.spec_is_valid(),
            r is Err ==> r->Err_0 == ConfigError::EmptyHosts,
            r is Ok ==> {
                let p = r->Ok_0;
                &&& p.node@ == node_address(self.config.hosts@[0]@, self.config.port)
                &&& p.keyspace@ == self.config.keyspace@
                &&& credentials_of(p.credentials, self.config.username, self.config.password)
                &&& p.use_tls == self.config.spec_tls_enabled()
                &&& (p.ca_cert is Some <==> self.config.ca_cert is Some)
                &&& (p.ca_cert is Some ==> p.ca_cert->0@ == self.config.ca_cert->0@)
                &&& p.connection_timeout == self.config.connection_timeout
            },
    {
        self.config.session_plan()
    }

    /// The statement a returned session is checked with, if any.
    pub fn recycle_query(&self) -> (r: Option<String>)
        ensures
            r is Some <==> self.recycling.statement() is Some,
            r is Some ==> r->0@ == self.recycling.statement()->0,
    {
        self.recycling.query()
    }
}

} // verus!
