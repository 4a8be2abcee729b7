use vstd::prelude::*;

use crate::error::RendezvousError;

verus! {

/// An IP address as the library reads it: its family and its bits, in network
/// order.
#[derive(Clone, Copy, Debug, PartialEq, Eq, Structural)]
pub enum IpAddress {
    V4(u32),
    V6(u128),
}

/// A candidate peer endpoint: an IPv6 address (its 128 bits, in network order)
/// and a TCP port. Two locations are equal when both parts are.
#[derive(Clone, Copy, Debug, PartialEq, Eq, Hash, Structural)]
pub struct SessionMemberLocation {
    pub addr: u128,
    pub port: u16,
}

/// The location that an address and a port name, where the address is IPv6.
pub open spec fn location_of(ip: IpAddress, port: u16) -> Result<SessionMemberLocation, RendezvousError> {
    match ip {
        IpAddress::V6(addr) => Ok(SessionMemberLocation { addr, port }),
        IpAddress::V4(_) => Err(RendezvousError::UnsupportedAddressFamily),
    }
}

impl SessionMemberLocation {
    /// The location of a socket address; an IPv4 address is refused.
    pub fn from_ip(ip: IpAddress, port: u16) -> (r: Result<SessionMemberLocation, RendezvousError>)
        ensures
            r == location_of(ip, port),
    {
        match ip {
            IpAddress::V6(addr) => Ok(SessionMemberLocation { addr, port }),
            IpAddress::V4(_) => Err(RendezvousError::UnsupportedAddressFamily),
        }
    }
}

/// A location as it travels on the wire: the address in its textual form.
#[derive(Clone, Debug)]
pub struct SessionMemberLocationSerde {
    pub addr: String,
    pub port: u16,
}

/// The answer to the creation of a session.
#[derive(Clone, Debug)]
pub struct CreateSessionResponse {
    pub session_id: String,
}

} // verus!
