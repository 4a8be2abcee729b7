use vstd::prelude::*;

use crate::error::RendezvousError;
use crate::location::IpAddress;

verus! {

/// The IPv6 addresses among the addresses of the local interfaces, in their
/// order; addresses of other families are passed over.
pub open spec fn ipv6_candidates(addrs: Seq<IpAddress>) -> Seq<u128>
    decreases addrs.len(),
{
    if addrs.len() == 0 {
        Seq::empty()
    } else {
        let rest = ipv6_candidates(addrs.drop_last());
        match addrs.last() {
            IpAddress::V6(a) => rest.push(a),
            IpAddress::V4(_) => rest,
        }
    }
}

/// Errors of the caller's own making: trying another address cannot help.
pub open spec fn is_caller_error(e: RendezvousError) -> bool {
    e == RendezvousError::SessionNotFound || e == RendezvousError::MalformedAddress
        || e == RendezvousError::UnsupportedAddressFamily
}

/// How the attempt to establish one candidate address went.
#[derive(Clone, Copy, Debug, PartialEq, Eq, Structural)]
pub enum AttemptOutcome {
    /// No listener could be bound on the address.
    BindFailed,
    /// The service did not admit the candidate, or the request to it failed.
    Rejected(RendezvousError),
    /// The service admitted the candidate; whether its probe reached the local
    /// listener within the grace period.
    Admitted { probe_arrived: bool },
}

/// What the search for an inbound path does next.
#[derive(Clone, Copy, Debug, PartialEq, Eq, Structural)]
pub enum DiscoveryAction {
    /// Bind a listener on this address, advertise it, and wait for the probe.
    Attempt(u128),
    /// The last attempted address is the confirmed inbound path.
    Confirmed,
    /// The search is over without a path.
    Fail(RendezvousError),
}

/// The client-side search for an inbound path: the candidate addresses are tried
/// one after the other, until the service admits one and its probe arrives, or a
/// caller error makes further tries pointless, or no address is left.
pub struct PathDiscovery {
    candidates: Vec<u128>,
    next: usize,
    finished: bool,
}

impl PathDiscovery {
    /// The addresses still to be tried come from here on.
    pub closed spec fn spec_candidates(&self) -> Seq<u128> {
        self.candidates@
    }

    /// How many candidates have been handed out for an attempt.
    pub closed spec fn spec_next(&self) -> nat {
        self.next as nat
    }

    /// Whether the search has ended.
    pub closed spec fn spec_finished(&self) -> bool {
        self.finished
    }

    pub closed spec fn wf(&self) -> bool {
        self.next <= self.candidates@.len()
    }

    /// A search over the IPv6 addresses among `addrs`, in their order.
    pub fn new(addrs: &Vec<IpAddress>) -> (r: PathDiscovery)
        ensures
            r.wf(),
            r.spec_candidates() == ipv6_candidates(addrs@),
            r.spec_next() == 0,
            !r.spec_finished(),
    {
        let mut candidates: Vec<u128> = Vec::new();
        let mut i: usize = 0;
        while i < addrs.len()
            invariant
                i <= addrs@.len(),
                candidates@ == ipv6_candidates(addrs@.subrange(0, i as int)),
            decreases addrs@.len() - i,
        {
            proof {
                assert(addrs@.subrange(0, i as int + 1).drop_last() =~= addrs@.subrange(0, i as int));
            }
            match addrs[i] {
                IpAddress::V6(a) => candidates.push(a),
                IpAddress::V4(_) => {},
            }
            i = i + 1;
        }
        assert(addrs@.subrange(0, addrs@.len() as int) =~= addrs@);
        PathDiscovery { candidates, next: 0, finished: false }
    }

    /// Whether the search has ended.
    pub fn is_finished(&self) -> (r: bool)
        ensures
            r == self.spec_finished(),
    {
        self.finished
    }

    /// Hands out the next candidate, or ends the search when none is left.
    fn advance(&mut self) -> (r: DiscoveryAction)
        requires
            old(self).wf(),
        ensures
            final(self).wf(),
            final(self).spec_candidates() == old(self).spec_candidates(),
            old(self).spec_next() < old(self).spec_candidates().len() ==> r == DiscoveryAction::Attempt(
                old(self).spec_candidates()[old(self).spec_next() as int],
            ) && final(self).spec_next() == old(self).spec_next() + 1 && final(self).spec_finished()
                == old(self).spec_finished(),
            old(self).spec_next() >= old(self).spec_candidates().len() ==> r == DiscoveryAction::Fail(
                RendezvousError::NoReachablePath,
            ) && final(self).spec_next() == old(self).spec_next() && final(self).spec_finished(),
    {
        if self.next < self.candidates.len() {
            let a = self.candidates[self.next];
            self.next = self.next + 1;
            DiscoveryAction::Attempt(a)
        } else {
            self.finished = true;
            DiscoveryAction::Fail(RendezvousError::NoReachablePath)
        }
    }

    /// The first step: the first candidate, or failure when there is none.
    pub fn start(&mut self) -> (r: DiscoveryAction)
        requires
            old(self).wf(),
            !old(self).spec_finished(),
            old(self).spec_next() == 0,
        ensures
            final(self).wf(),
            final(self).spec_candidates() == old(self).spec_candidates(),
            old(self).spec_candidates().len() > 0 ==> r == DiscoveryAction::Attempt(
                old(self).spec_candidates()[0],
            ) && final(self).spec_next() == 1 && !final(self).spec_finished(),
            old(self).spec_candidates().len() == 0 ==> r == DiscoveryAction::Fail(
                RendezvousError::NoReachablePath,
            ) && final(self).spec_finished(),
    {
        self.advance()
    }

    /// The step after an attempt: an admitted candidate whose probe arrived is
    /// the path; one whose probe never arrived ends the search; a caller error
    /// ends it too; any other failure moves on to the next candidate, and when
    /// none is left the search fails for want of a reachable path.
    pub fn on_outcome(&mut self, outcome: AttemptOutcome) -> (r: DiscoveryAction)
        requires
            old(self).wf(),
            !old(self).spec_finished(),
        ensures
            final(self).wf(),
            final(self).spec_candidates() == old(self).spec_candidates(),
            r is Attempt ==> !final(self).spec_finished(),
            !(r is Attempt) ==> final(self).spec_finished(),
            match outcome {
                AttemptOutcome::Admitted { probe_arrived: true } => r == DiscoveryAction::Confirmed,
                AttemptOutcome::Admitted { probe_arrived: false } => r == DiscoveryAction::Fail(
                    RendezvousError::ProbeNeverArrived,
                ),
                AttemptOutcome::Rejected(e) if is_caller_error(e) => r == DiscoveryAction::Fail(e),
                _ => if old(self).spec_next() < old(self).spec_candidates().len() {
                    r == DiscoveryAction::Attempt(
                        old(self).spec_candidates()[old(self).spec_next() as int],
                    ) && final(self).spec_next() == old(self).spec_next() + 1
                } else {
                    r == DiscoveryAction::Fail(RendezvousError::NoReachablePath)
                },
            },
    {
        match outcome {
            AttemptOutcome::Admitted { probe_arrived } => {
                self.finished = true;
                if probe_arrived {
                    DiscoveryAction::Confirmed
                } else {
                    DiscoveryAction::Fail(RendezvousError::ProbeNeverArrived)
                }
            },
            AttemptOutcome::Rejected(e) => {
                match e {
                    RendezvousError::SessionNotFound
                    | RendezvousError::MalformedAddress
                    | RendezvousError::UnsupportedAddressFamily => {
                        self.finished = true;
                        DiscoveryAction::Fail(e)
                    },
                    _ => self.advance(),
                }
            },
            AttemptOutcome::BindFailed => self.advance(),
        }
    }
}

} // verus!
