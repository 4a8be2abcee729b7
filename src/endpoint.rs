use vstd::prelude::*;
use vstd::string::StringExecFns;

verus! {

/// Whether the rendezvous service is reached over TLS.
#[derive(Clone, Copy, Debug, PartialEq, Eq, Structural)]
pub enum Security {
    Secure,
    Insecure,
}

/// The URL scheme for a choice of security.
pub open spec fn scheme_of(s: Security) -> Seq<char> {
    match s {
        Security::Secure => "https"@,
        Security::Insecure => "http"@,
    }
}

impl Security {
    /// The URL scheme: `https` when secure, `http` otherwise.
    pub fn to_protocol_prefix(&self) -> (r: String)
        ensures
            r@ == scheme_of(*self),
    {
        match self {
            Security::Secure => String::from_str("https"),
            Security::Insecure => String::from_str("http"),
        }
    }
}

/// Where the rendezvous service is found: the scheme and the host (with its
/// port) that every request URL starts with.
#[derive(Clone, Debug)]
pub struct ServiceEndpoint {
    prefix: String,
}

impl View for ServiceEndpoint {
    type V = Seq<char>;

    closed spec fn view(&self) -> Seq<char> {
        self.prefix@
    }
}

impl ServiceEndpoint {
    /// The endpoint at `location` (a host and a port), reached with the scheme
    /// that `security` picks.
    pub fn new(location: &str, security: Security) -> (r: ServiceEndpoint)
        ensures
            r@ == scheme_of(security) + "://"@ + location@,
    {
        let prefix = security.to_protocol_prefix().concat("://").concat(location);
        ServiceEndpoint { prefix }
    }

    /// The URL of `path` at this endpoint.
    pub fn url(&self, path: &str) -> (r: String)
        ensures
            r@ == self@ + "/"@ + path@,
    {
        self.prefix.clone().concat("/").concat(path)
    }

    /// The URL of the liveness check.
    pub fn liveness_url(&self) -> (r: String)
        ensures
            r@ == self@ + "/"@ + "ok"@,
    {
        self.url("ok")
    }

    /// The URL at which sessions are created.
    pub fn sessions_url(&self) -> (r: String)
        ensures
            r@ == self@ + "/"@ + "session"@,
    {
        self.url("session")
    }

    /// The URL of session `id`, for reads and admissions.
    pub fn session_url(&self, id: &str) -> (r: String)
        ensures
            r@ == self@ + "/"@ + "session/"@ + id@,
    {
        let path = String::from_str("session/").concat(id);
        let r = self.url(path.as_str());
        assert(r@ =~= self@ + "/"@ + "session/"@ + id@);
        r
    }
}

} // verus!
