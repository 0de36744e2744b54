use vstd::prelude::*;

verus! {

/// Connection timeout given by `Config::new`, in milliseconds.
pub const DEFAULT_CONNECTION_TIMEOUT_MS: u64 = 60000;

/// Why a configuration cannot be turned into a session.
#[derive(PartialEq, Eq, Structural, Clone, Copy, Debug)]
pub enum ConfigError {
    /// No host to connect to.
    EmptyHosts,
}

/// Connection settings for the database cluster.
#[derive(Clone, Debug)]
pub struct Config {
    /// Nodes to connect to, in order of preference.
    pub hosts: Vec<String>,
    /// Port to connect on.
    pub port: u16,
    /// Keyspace the session uses.
    pub keyspace: String,
    /// User name for authentication, if required.
    pub username: Option<String>,
    /// Password for authentication, if required.
    pub password: Option<String>,
    /// Connection timeout in milliseconds.
    pub connection_timeout: Option<u64>,
    /// Whether TLS was asked for explicitly.
    pub use_ssl: bool,
    /// Path to the CA certificate; its presence implies TLS.
    pub ca_cert: Option<String>,
}

/// Everything a session builder needs, read off a valid `Config`.
#[derive(Clone, Debug)]
pub struct SessionPlan {
    /// The node address, `host:port`, of the first configured host.
    pub node: String,
    pub keyspace: String,
    /// User name and password, present only when both are configured.
    pub credentials: Option<(String, String)>,
    pub use_tls: bool,
    pub ca_cert: Option<String>,
    /// Connection timeout in milliseconds.
    pub connection_timeout: Option<u64>,
}

/// The character of a decimal digit.
pub open spec fn digit_char(d: nat) -> char {
    if d == 0 { '0' }
    else if d == 1 { '1' }
    else if d == 2 { '2' }
    else if d == 3 { '3' }
    else if d == 4 { '4' }
    else if d == 5 { '5' }
    else if d == 6 { '6' }
    else if d == 7 { '7' }
    else if d == 8 { '8' }
    else { '9' }
}

/// The decimal digits of `n`, most significant first, without leading zeros.
pub open spec fn decimal(n: nat) -> Seq<char>
    decreases n,
{
    if n < 10 {
        seq![digit_char(n)]
    } else {
        decimal(n / 10) + seq![digit_char(n % 10)]
    }
}

/// `creds` holds a user name and password exactly when both are given, and then those.
pub open spec fn credentials_of(creds: Option<(String, String)>, username: Option<String>, password: Option<String>) -> bool {
    match (creds, username, password) {
        (Some((cu, cp)), Some(u), Some(pw)) => cu@ == u@ && cp@ == pw@,
        (None, None, _) => true,
        (None, Some(_), None) => true,
        _ => false,
    }
}

/// The address `host:port` of one node.
pub open spec fn node_address(host: Seq<char>, port: u16) -> Seq<char> {
    host + seq![':'] + decimal(port as nat)
}

/// Relies on std's `format!` with `Display` for `String` and `u16`: the host,
/// a colon, then the port in decimal.
#[verifier::external_body]
fn format_node(host: &String, port: u16) -> (r: String)
    ensures
        r@ == node_address(host@, port),
{
    format!("{}:{}", host, port)
}

impl Config {
    /// Whether sessions are opened over TLS: asked for, or implied by a CA certificate.
    pub open spec fn spec_tls_enabled(&self) -> bool {
        self.use_ssl || self.ca_cert is Some
    }

    /// Whether the configuration can produce a session.
    pub open spec fn spec_is_valid(&self) -> bool {
        self.hosts@.len() > 0
    }

    /// A configuration with no authentication, no TLS and the default timeout.
    pub fn new(hosts: Vec<String>, port: u16, keyspace: String) -> (r: Self)
        ensures
            r.hosts == hosts,
            r.port == port,
            r.keyspace == keyspace,
            r.username is None,
            r.password is None,
            r.connection_timeout == Some(DEFAULT_CONNECTION_TIMEOUT_MS),
            !r.use_ssl,
            r.ca_cert is None,
    {
        Config {
            hosts,
            port,
            keyspace,
            username: None,
            password: None,
            connection_timeout: Some(DEFAULT_CONNECTION_TIMEOUT_MS),
            use_ssl: false,
            ca_cert: None,
        }
    }

    /// Sets user name and password.
    pub fn with_auth(self, username: String, password: String) -> (r: Self)
        ensures
            r == (Config { username: Some(username), password: Some(password), ..self }),
    {
        let mut c = self;
        c.username = Some(username);
        c.password = Some(password);
        c
    }

    /// Sets user name, password and CA certificate, and turns TLS on.
    pub fn with_auth_and_cert(self, username: String, password: String, cert: String) -> (r: Self)
        ensures
            r == (Config {
                username: Some(username),
                password: Some(password),
                use_ssl: true,
                ca_cert: Some(cert),
                ..self
            }),
    {
        let mut c = self;
        c.username = Some(username);
        c.password = Some(password);
        c.use_ssl = true;
        c.ca_cert = Some(cert);
        c
    }

    /// Sets the CA certificate and turns TLS on.
    pub fn with_ca_cert(self, cert: String) -> (r: Self)
        ensures
            r == (Config { use_ssl: true, ca_cert: Some(cert), ..self }),
    {
        let mut c = self;
        c.use_ssl = true;
        c.ca_cert = Some(cert);
        c
    }

    /// Sets the connection timeout, in milliseconds.
    pub fn with_connection_timeout(self, timeout: u64) -> (r: Self)
        ensures
            r == (Config { connection_timeout: Some(timeout), ..self }),
    {
        let mut c = self;
        c.connection_timeout = Some(timeout);
        c
    }

    /// Asks for TLS, or stops asking; a CA certificate still implies it.
    pub fn with_ssl(self, use_ssl: bool) -> (r: Self)
        ensures
            r == (Config { use_ssl, ..self }),
    {
        let mut c = self;
        c.use_ssl = use_ssl;
        c
    }

    /// Whether sessions are opened over TLS.
    #[verifier::when_used_as_spec(spec_tls_enabled)]
    pub fn tls_enabled(&self) -> (r: bool)
        ensures
            r == self.spec_tls_enabled(),
    {
        self.use_ssl || self.ca_cert.is_some()
    }

    /// Checks that there is a host to connect to.
    pub fn validate(&self) -> (r: Result<(), ConfigError>)
        ensures
            r is Ok <==> self.spec_is_valid(),
            r is Err ==> r->Err_0 == ConfigError::EmptyHosts,
    {
        if self.hosts.len() == 0 {
            Err(ConfigError::EmptyHosts)
        } else {
            Ok(())
        }
    }

    /// User name and password, when both are set.
    pub fn credentials(&self) -> (r: Option<(String, String)>)
        ensures
            credentials_of(r, self.username, self.password),
    {
        match (&self.username, &self.password) {
            (Some(u), Some(p)) => Some((u.clone(), p.clone())),
            _ => None,
        }
    }

    /// The address `host:port` of the first host, the node a session is opened on.
    pub fn contact_point(&self) -> (r: Result<String, ConfigError>)
        ensures
            r is Ok <==> self.spec_is_valid(),
            r is Ok ==> r->Ok_0@ == node_address(self.hosts@[0]@, self.port),
            r is Err ==> r->Err_0 == ConfigError::EmptyHosts,
    {
        if self.hosts.len() == 0 {
            Err(ConfigError::EmptyHosts)
        } else {
            Ok(format_node(&self.hosts[0], self.port))
        }
    }

    /// The address `host:port` of every host, in order.
    pub fn known_nodes(&self) -> (r: Vec<String>)
        ensures
            r@.len() == self.hosts@.len(),
            forall|i: int| 0 <= i < r@.len() ==> #[trigger] r@[i]@ == node_address(self.hosts@[i]@, self.port),
    {
        let mut out: Vec<String> = Vec::new();
        let mut i: usize = 0;
        while i < self.hosts.len()
            invariant
                i <= self.hosts@.len(),
                out@.len() == i,
                forall|j: int| 0 <= j < i ==> #[trigger] out@[j]@ == node_address(self.hosts@[j]@, self.port),
            decreases self.hosts@.len() - i,
        {
            out.push(format_node(&self.hosts[i], self.port));
            i = i + 1;
        }
        out
    }

    /// What a session builder is given for this configuration: the first
    /// host's address, the keyspace, the credentials when both are set, and
    /// the TLS settings.
    pub fn session_plan(&self) -> (r: Result<SessionPlan, ConfigError>)
        ensures
            r is Ok <==> self.spec_is_valid(),
            r is Err ==> r->Err_0 == ConfigError::EmptyHosts,
            r is Ok ==> {
                let p = r->Ok_0;
                &&& p.node@ == node_address(self.hosts@[0]@, self.port)
                &&& p.keyspace@ == self.keyspace@
                &&& credentials_of(p.credentials, self.username, self.password)
                &&& p.use_tls == self.spec_tls_enabled()
                &&& (p.ca_cert is Some <==> self.ca_cert is Some)
                &&& (p.ca_cert is Some ==> p.ca_cert->0@ == self.ca_cert->0@)
                &&& p.connection_timeout == self.connection_timeout
            },
    {
        let node = match self.contact_point() {
            Ok(n) => n,
            Err(e) => return Err(e),
        };
        let ca_cert = match &self.ca_cert {
            Some(c) => Some(c.clone()),
            None => None,
        };
        Ok(SessionPlan {
            node,
            keyspace: self.keyspace.clone(),
            credentials: self.credentials(),
            use_tls: self.tls_enabled(),
            ca_cert,
            connection_timeout: self.connection_timeout,
        })
    }
}

} // verus!
