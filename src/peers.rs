use vstd::prelude::*;

use crate::error::RendezvousError;
use crate::location::{location_of, IpAddress, SessionMemberLocation};

verus! {

/// What a client knows of one peer.
#[derive(Clone, Copy, Debug, PartialEq, Eq, Structural)]
pub struct PeerState {
    pub healthy: bool,
}

/// The peers that have connected to a client, each under its location.
pub struct PeepClientState {
    peers: Vec<(SessionMemberLocation, PeerState)>,
}

impl View for PeepClientState {
    type V = Map<SessionMemberLocation, PeerState>;

    closed spec fn view(&self) -> Map<SessionMemberLocation, PeerState> {
        Map::new(
            |l: SessionMemberLocation| exists|i: int| 0 <= i < self.peers@.len() && #[trigger] self.peers@[i].0 == l,
            |l: SessionMemberLocation|
                self.peers@[choose|i: int| 0 <= i < self.peers@.len() && #[trigger] self.peers@[i].0 == l].1,
        )
    }
}

impl PeepClientState {
    /// No location is listed twice.
    pub closed spec fn wf(&self) -> bool {
        forall|i: int, j: int|
            0 <= i < self.peers@.len() && 0 <= j < self.peers@.len() && i != j ==> #[trigger] self.peers@[i].0
                != #[trigger] self.peers@[j].0
    }

    /// A client that knows no peer.
    pub fn new() -> (r: PeepClientState)
        ensures
            r.wf(),
            r@ == Map::<SessionMemberLocation, PeerState>::empty(),
    {
        let r = PeepClientState { peers: Vec::new() };
        assert(r@ =~= Map::<SessionMemberLocation, PeerState>::empty());
        r
    }

    /// The number of known peers.
    pub fn peer_count(&self) -> (r: usize)
        requires
            self.wf(),
        ensures
            r == self@.len(),
    {
        proof {
            self.lemma_dom_len();
        }
        self.peers.len()
    }

    proof fn lemma_dom_len(&self)
        requires
            self.wf(),
        ensures
            self@.dom().len() == self.peers@.len(),
        decreases self.peers@.len(),
    {
        let keys = self.peers@.map_values(|p: (SessionMemberLocation, PeerState)| p.0);
        assert forall|i: int, j: int| 0 <= i < keys.len() && 0 <= j < keys.len() && i != j implies keys[i]
            != keys[j] by {
            assert(self.peers@[i].0 != self.peers@[j].0);
        }
        assert(keys.no_duplicates());
        keys.unique_seq_to_set();
        assert(self@.dom() =~= keys.to_set()) by {
            assert forall|l: SessionMemberLocation| self@.dom().contains(l) implies keys.to_set().contains(l) by {
                let i = choose|i: int| 0 <= i < self.peers@.len() && #[trigger] self.peers@[i].0 == l;
                assert(keys[i] == l);
            }
            assert forall|l: SessionMemberLocation| keys.to_set().contains(l) implies self@.dom().contains(l) by {
                let i = choose|i: int| 0 <= i < keys.len() && keys[i] == l;
                assert(self.peers@[i].0 == l);
            }
        }
    }

    /// Where location `l` stands in the list, if it does.
    fn position(&self, l: &SessionMemberLocation) -> (r: Option<usize>)
        requires
            self.wf(),
        ensures
            match r {
                Some(i) => i < self.peers@.len() && self.peers@[i as int].0 == *l,
                None => !self@.contains_key(*l),
            },
    {
        let mut i: usize = 0;
        while i < self.peers.len()
            invariant
                i <= self.peers@.len(),
                forall|j: int| 0 <= j < i ==> self.peers@[j].0 != *l,
            decreases self.peers@.len() - i,
        {
            if self.peers[i].0 == *l {
                return Some(i);
            }
            i = i + 1;
        }
        None
    }

    /// What is known of the peer at `l`.
    pub fn peer(&self, l: &SessionMemberLocation) -> (r: Option<PeerState>)
        requires
            self.wf(),
        ensures
            r == (if self@.contains_key(*l) {
                Some(self@[*l])
            } else {
                None::<PeerState>
            }),
    {
        match self.position(l) {
            Some(i) => {
                proof {
                    assert(self@.contains_key(*l));
                    let k = choose|k: int| 0 <= k < self.peers@.len() && #[trigger] self.peers@[k].0 == *l;
                    if k != i {
                        assert(self.peers@[k].0 != self.peers@[i as int].0);
                    }
                }
                Some(self.peers[i].1)
            },
            None => None,
        }
    }

    /// Records that a peer connected from address `ip` and port `port`: it is
    /// known as healthy from now on, and every other peer stays as it was. A peer
    /// with an address of another family than IPv6 is refused and nothing
    /// changes.
    pub fn record_inbound(&mut self, ip: IpAddress, port: u16) -> (r: Result<
        SessionMemberLocation,
        RendezvousError,
    >)
        requires
            old(self).wf(),
        ensures
            final(self).wf(),
            r == location_of(ip, port),
            r is Err ==> final(self)@ == old(self)@,
            r is Ok ==> final(self)@ == old(self)@.insert(r->Ok_0, PeerState { healthy: true }),
    {
        let l = match SessionMemberLocation::from_ip(ip, port) {
            Ok(l) => l,
            Err(e) => {
                return Err(e);
            },
        };
        let healthy = PeerState { healthy: true };
        match self.position(&l) {
            Some(i) => {
                self.peers.set(i, (l, healthy));
                proof {
                    let o = old(self);
                    assert forall|a: int, b: int|
                        0 <= a < self.peers@.len() && 0 <= b < self.peers@.len() && a != b implies #[trigger] self.peers@[a].0
                            != #[trigger] self.peers@[b].0 by {
                        assert(o.peers@[a].0 != o.peers@[b].0);
                    }
                    assert forall|m: SessionMemberLocation| #[trigger] self@.contains_key(m) == o@.insert(l, healthy).contains_key(m)
                        && (self@.contains_key(m) ==> self@[m] == o@.insert(l, healthy)[m]) by {
                        if self@.contains_key(m) {
                            let k = choose|k: int| 0 <= k < self.peers@.len() && #[trigger] self.peers@[k].0 == m;
                            assert(o.peers@[k].0 == m);
                            if m != l {
                                let k2 = choose|k2: int| 0 <= k2 < o.peers@.len() && #[trigger] o.peers@[k2].0 == m;
                                if k2 != k {
                                    assert(o.peers@[k2].0 != o.peers@[k].0);
                                }
                            } else {
                                if k != i {
                                    assert(self.peers@[k].0 != self.peers@[i as int].0);
                                }
                            }
                        }
                        if o@.insert(l, healthy).contains_key(m) && m != l {
                            let k2 = choose|k2: int| 0 <= k2 < o.peers@.len() && #[trigger] o.peers@[k2].0 == m;
                            assert(self.peers@[k2].0 == m);
                        }
                        if m == l {
                            assert(self.peers@[i as int].0 == m);
                        }
                    }
                    assert(self@ =~= o@.insert(l, healthy));
                }
            },
            None => {
                self.peers.push((l, healthy));
                proof {
                    let o = old(self);
                    let n = o.peers@.len() as int;
                    assert forall|a: int, b: int|
                        0 <= a < self.peers@.len() && 0 <= b < self.peers@.len() && a != b implies #[trigger] self.peers@[a].0
                            != #[trigger] self.peers@[b].0 by {
                        if a < n && b < n {
                            assert(o.peers@[a].0 != o.peers@[b].0);
                        } else if a < n {
                            assert(o.peers@[a].0 == self.peers@[a].0);
                        } else {
                            assert(o.peers@[b].0 == self.peers@[b].0);
                        }
                    }
                    assert forall|m: SessionMemberLocation| #[trigger] self@.contains_key(m) == o@.insert(l, healthy).contains_key(m)
                        && (self@.contains_key(m) ==> self@[m] == o@.insert(l, healthy)[m]) by {
                        if self@.contains_key(m) {
                            let k = choose|k: int| 0 <= k < self.peers@.len() && #[trigger] self.peers@[k].0 == m;
                            if m != l {
                                assert(k < n);
                                assert(o.peers@[k].0 == m);
                                let k2 = choose|k2: int| 0 <= k2 < o.peers@.len() && #[trigger] o.peers@[k2].0 == m;
                                if k2 != k {
                                    assert(o.peers@[k2].0 != o.peers@[k].0);
                                }
                            } else {
                                if k != n {
                                    assert(self.peers@[k].0 != self.peers@[n].0);
                                }
                            }
                        }
                        if o@.insert(l, healthy).contains_key(m) && m != l {
                            let k2 = choose|k2: int| 0 <= k2 < o.peers@.len() && #[trigger] o.peers@[k2].0 == m;
                            assert(self.peers@[k2].0 == m);
                        }
                        if m == l {
                            assert(self.peers@[n].0 == m);
                        }
                    }
                    assert(self@ =~= o@.insert(l, healthy));
                }
            },
        }
        Ok(l)
    }
}

} // verus!
