//! Reachability-verified rendezvous: a registry of sessions whose members are
//! admitted only once the service has reached them, the mapping of its outcomes
//! onto transport status codes, and the client-side search for an inbound path.

pub mod discovery;
pub mod endpoint;
pub mod error;
pub mod location;
pub mod peers;
pub mod registry;
pub mod session;

pub use discovery::{AttemptOutcome, DiscoveryAction, PathDiscovery};
pub use endpoint::{Security, ServiceEndpoint};
pub use error::{status_result, RendezvousError};
pub use location::{CreateSessionResponse, IpAddress, SessionMemberLocation, SessionMemberLocationSerde};
pub use peers::{PeepClientState, PeerState};
pub use registry::{ProbeOutcome, SessionRegistry};
pub use session::Session;
