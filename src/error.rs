use vstd::prelude::*;

verus! {

/// Every way in which a rendezvous operation can fail.
#[derive(Clone, Copy, Debug, PartialEq, Eq, Structural)]
pub enum RendezvousError {
    /// No session has the given identifier.
    SessionNotFound,
    /// The candidate's address could not be read as an IPv6 address.
    MalformedAddress,
    /// The candidate's address belongs to another family than IPv6.
    UnsupportedAddressFamily,
    /// The service could not connect to the candidate before its deadline.
    UnreachableCandidate,
    /// No local interface address could be confirmed as an inbound path.
    NoReachablePath,
    /// The service reported the candidate reachable, but its probe never reached
    /// the local listener.
    ProbeNeverArrived,
    /// A fault inside the service (an I/O error after connecting, an identifier
    /// that was already taken).
    Internal,
    /// The request or its answer was lost on the way, or the answer was not
    /// understood.
    Transport,
}

pub const STATUS_OK: u16 = 200;
pub const STATUS_BAD_REQUEST: u16 = 400;
pub const STATUS_NOT_FOUND: u16 = 404;
pub const STATUS_CONFLICT: u16 = 409;
pub const STATUS_INTERNAL: u16 = 500;

/// The status code under which the service reports an error.
pub open spec fn status_of(e: RendezvousError) -> u16 {
    match e {
        RendezvousError::SessionNotFound => STATUS_NOT_FOUND,
        RendezvousError::MalformedAddress => STATUS_BAD_REQUEST,
        RendezvousError::UnsupportedAddressFamily => STATUS_BAD_REQUEST,
        RendezvousError::UnreachableCandidate => STATUS_CONFLICT,
        _ => STATUS_INTERNAL,
    }
}

/// What a client reads from the status code of an answer to one of its calls.
pub open spec fn status_result_spec(code: u16) -> Result<(), RendezvousError> {
    if code == STATUS_OK {
        Ok(())
    } else if code == STATUS_NOT_FOUND {
        Err(RendezvousError::SessionNotFound)
    } else if code == STATUS_BAD_REQUEST {
        Err(RendezvousError::MalformedAddress)
    } else if code == STATUS_CONFLICT {
        Err(RendezvousError::UnreachableCandidate)
    } else if code == STATUS_INTERNAL {
        Err(RendezvousError::Internal)
    } else {
        Err(RendezvousError::Transport)
    }
}

impl RendezvousError {
    /// The status code that the service answers with when an operation fails
    /// with this error.
    pub fn status_code(&self) -> (r: u16)
        ensures
            r == status_of(*self),
            r != STATUS_OK,
    {
        match self {
            RendezvousError::SessionNotFound => STATUS_NOT_FOUND,
            RendezvousError::MalformedAddress => STATUS_BAD_REQUEST,
            RendezvousError::UnsupportedAddressFamily => STATUS_BAD_REQUEST,
            RendezvousError::UnreachableCandidate => STATUS_CONFLICT,
            _ => STATUS_INTERNAL,
        }
    }
}

/// Reads the status code of an answer: success only on 200, and a distinct
/// error for each code that the service uses; any other code is a transport
/// fault.
pub fn status_result(code: u16) -> (r: Result<(), RendezvousError>)
    ensures
        r == status_result_spec(code),
{
    if code == STATUS_OK {
        Ok(())
    } else if code == STATUS_NOT_FOUND {
        Err(RendezvousError::SessionNotFound)
    } else if code == STATUS_BAD_REQUEST {
        Err(RendezvousError::MalformedAddress)
    } else if code == STATUS_CONFLICT {
        Err(RendezvousError::UnreachableCandidate)
    } else if code == STATUS_INTERNAL {
        Err(RendezvousError::Internal)
    } else {
        Err(RendezvousError::Transport)
    }
}

/// A client reads back every error that the service reports, except that an
/// address of another family arrives as a malformed address: both go out as 400.
pub proof fn lemma_status_round_trip(e: RendezvousError)
    requires
        e != RendezvousError::NoReachablePath,
        e != RendezvousError::ProbeNeverArrived,
        e != RendezvousError::Transport,
    ensures
        status_result_spec(status_of(e)) == (if e == RendezvousError::UnsupportedAddressFamily {
            Err::<(), RendezvousError>(RendezvousError::MalformedAddress)
        } else {
            Err::<(), RendezvousError>(e)
        }),
{
}

} // verus!
