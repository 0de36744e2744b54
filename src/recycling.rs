use vstd::prelude::*;

verus! {

/// Lightweight probe that succeeds on any healthy session.
pub const VERIFY_QUERY: &'static str = "SELECT now() FROM system.local";

/// Session-reset script: closes cursors, drops session settings, listeners,
/// advisory locks and temporary state.
pub const CLEAN_QUERY: &'static str = "CLOSE ALL; SET SESSION AUTHORIZATION DEFAULT; RESET ALL; UNLISTEN *; SELECT pg_advisory_unlock_all(); DISCARD TEMP; DISCARD SEQUENCES;";

/// How a session that comes back to the pool is checked before it is reused.
#[derive(Clone, Debug)]
pub enum RecyclingMethod {
    /// No check at all: the session is reused as it is.
    Fast,
    /// Run a trivial probe.
    Verified,
    /// Run the session-reset script.
    Clean,
    /// Run a statement chosen by the caller.
    Custom(String),
}

impl RecyclingMethod {
    /// The statement run against a returning session, if any.
    pub open spec fn statement(&self) -> Option<Seq<char>> {
        match self {
            RecyclingMethod::Fast => None,
            RecyclingMethod::Verified => Some(VERIFY_QUERY@),
            RecyclingMethod::Clean => Some(CLEAN_QUERY@),
            RecyclingMethod::Custom(sql) => Some(sql@),
        }
    }

    /// Whether a returning session is checked with a statement.
    pub open spec fn spec_validates(&self) -> bool {
        !(self is Fast)
    }

    /// The statement to run against a returning session; `None` means the
    /// session is accepted without a round trip.
    pub fn query(&self) -> (r: Option<String>)
        ensures
            r is Some <==> self.statement() is Some,
            r is Some ==> r->0@ == self.statement()->0,
    {
        match self {
            RecyclingMethod::Fast => None,
            RecyclingMethod::Verified => Some(VERIFY_QUERY.to_owned()),
            RecyclingMethod::Clean => Some(CLEAN_QUERY.to_owned()),
            RecyclingMethod::Custom(sql) => Some(sql.clone()),
        }
    }

    /// Whether a returning session is checked with a statement.
    #[verifier::when_used_as_spec(spec_validates)]
    pub fn validates(&self) -> (r: bool)
        ensures
            r == self.spec_validates(),
            r == (self.statement() is Some),
    {
        match self {
            RecyclingMethod::Fast => false,
            _ => true,
        }
    }
}

impl Default for RecyclingMethod {
    fn default() -> (r: Self)
        ensures
            r is Fast,
    {
        RecyclingMethod::Fast
    }
}

} // verus!
