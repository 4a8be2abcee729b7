use vstd::prelude::*;
use vstd::hash_map::StringHashMap;

use crate::error::RendezvousError;
use crate::location::SessionMemberLocation;
use crate::session::{admitted, lemma_admission_idempotent, lemma_admitted_is_listed, member_id, Session};

verus! {

/// What the service's connection attempt to a candidate came to.
#[derive(Clone, Copy, Debug, PartialEq, Eq, Structural)]
pub enum ProbeOutcome {
    /// The connection was opened and closed again.
    Connected,
    /// The candidate refused the connection, or could not be reached.
    Refused,
    /// The deadline passed before the connection was opened.
    TimedOut,
    /// The connection was opened, but closing it failed.
    ShutdownFailed,
}

/// The error with which an admission fails after the given probe outcome, if any.
pub open spec fn probe_error(p: ProbeOutcome) -> Option<RendezvousError> {
    match p {
        ProbeOutcome::Connected => None,
        ProbeOutcome::Refused => Some(RendezvousError::UnreachableCandidate),
        ProbeOutcome::TimedOut => Some(RendezvousError::UnreachableCandidate),
        ProbeOutcome::ShutdownFailed => Some(RendezvousError::Internal),
    }
}

/// The sessions once `c` has been admitted to session `id`.
pub open spec fn after_admission(
    reg: Map<Seq<char>, Seq<SessionMemberLocation>>,
    id: Seq<char>,
    c: SessionMemberLocation,
) -> Map<Seq<char>, Seq<SessionMemberLocation>> {
    reg.insert(id, admitted(reg[id], c))
}

/// Relies on uuid::Uuid::new_v4, written out by its `Display`: a random
/// identifier in the hyphenated lower-case form, 36 characters with a hyphen
/// after the 8th, 12th, 16th and 20th hex digit; its digits are not known in
/// advance.
#[verifier::external_body]
fn random_session_id() -> (r: String)
    ensures
        is_hyphenated_shape(r@),
{
    uuid::Uuid::new_v4().to_string()
}

/// The shape of a session identifier: 36 characters, with hyphens at positions
/// 8, 13, 18 and 23.
pub open spec fn is_hyphenated_shape(id: Seq<char>) -> bool {
    &&& id.len() == 36
    &&& id[8] == '-'
    &&& id[13] == '-'
    &&& id[18] == '-'
    &&& id[23] == '-'
}

/// Every session of the service, by identifier, with its members.
pub struct SessionRegistry {
    slots: StringHashMap<usize>,
    sessions: Vec<Session>,
}

impl View for SessionRegistry {
    type V = Map<Seq<char>, Seq<SessionMemberLocation>>;

    closed spec fn view(&self) -> Map<Seq<char>, Seq<SessionMemberLocation>> {
        self.slots@.map_values(|i: usize| self.sessions@[i as int]@)
    }
}

impl SessionRegistry {
    /// Each identifier leads to the session that bears it, and no session lists
    /// a location twice.
    pub closed spec fn wf(&self) -> bool {
        &&& forall|id: Seq<char>| #[trigger]
            self.slots@.contains_key(id) ==> self.slots@[id] < self.sessions@.len()
                && self.sessions@[self.slots@[id] as int].spec_id() == id
        &&& forall|i: int| 0 <= i < self.sessions@.len() ==> #[trigger] self.sessions@[i].wf()
    }

    /// A registry without sessions.
    pub fn new() -> (r: SessionRegistry)
        ensures
            r.wf(),
            r@ == Map::<Seq<char>, Seq<SessionMemberLocation>>::empty(),
    {
        let r = SessionRegistry { slots: StringHashMap::new(), sessions: Vec::new() };
        assert(r@ =~= Map::<Seq<char>, Seq<SessionMemberLocation>>::empty());
        r
    }

    /// Whether a session has the identifier `id`.
    pub fn contains_session(&self, id: &str) -> (r: bool)
        requires
            self.wf(),
        ensures
            r == self@.contains_key(id@),
    {
        self.slots.contains_key(id)
    }

    /// Opens an empty session under `id`; an identifier that is already taken is
    /// refused as an internal fault, and nothing changes.
    pub fn open_session(&mut self, id: String) -> (r: Result<String, RendezvousError>)
        requires
            old(self).wf(),
        ensures
            final(self).wf(),
            old(self)@.contains_key(id@) ==> r == Err::<String, RendezvousError>(RendezvousError::Internal)
                && final(self)@ == old(self)@,
            !old(self)@.contains_key(id@) ==> r is Ok && r->Ok_0@ == id@
                && final(self)@ == old(self)@.insert(id@, Seq::<SessionMemberLocation>::empty()),
    {
        if self.slots.contains_key(id.as_str()) {
            return Err(RendezvousError::Internal);
        }
        let i = self.sessions.len();
        let key = id.clone();
        let answer = id.clone();
        self.sessions.push(Session::new(id));
        self.slots.insert(key, i);
        proof {
            let old_reg = old(self);
            assert forall|k: Seq<char>| #[trigger] self.slots@.contains_key(k) implies self.slots@[k]
                < self.sessions@.len() && self.sessions@[self.slots@[k] as int].spec_id() == k by {
                if k != answer@ {
                    assert(old_reg.slots@.contains_key(k));
                }
            }
            assert forall|j: int| 0 <= j < self.sessions@.len() implies #[trigger] self.sessions@[j].wf() by {
                if j < i {
                    assert(old_reg.sessions@[j] == self.sessions@[j]);
                }
            }
            assert(self@ =~= old_reg@.insert(answer@, Seq::<SessionMemberLocation>::empty()));
        }
        Ok(answer)
    }

    /// Opens an empty session under a fresh random identifier and returns the
    /// identifier; should the draw hit an identifier in use, nothing changes and
    /// the call fails as an internal fault. On a registry without sessions no
    /// draw can be in use, and the call succeeds.
    pub fn create_session(&mut self) -> (r: Result<String, RendezvousError>)
        requires
            old(self).wf(),
        ensures
            final(self).wf(),
            old(self)@ == Map::<Seq<char>, Seq<SessionMemberLocation>>::empty() ==> r is Ok,
            match r {
                Ok(id) => is_hyphenated_shape(id@) && !old(self)@.contains_key(id@) && final(self)@ == old(self)@.insert(
                    id@,
                    Seq::<SessionMemberLocation>::empty(),
                ),
                Err(e) => e == RendezvousError::Internal && final(self)@ == old(self)@,
            },
    {
        let id = random_session_id();
        self.open_session(id)
    }

    /// A snapshot of the members of session `id`, in the order of admission.
    pub fn get_members(&self, id: &str) -> (r: Result<Vec<SessionMemberLocation>, RendezvousError>)
        requires
            self.wf(),
        ensures
            !self@.contains_key(id@) ==> r == Err::<Vec<SessionMemberLocation>, RendezvousError>(
                RendezvousError::SessionNotFound,
            ),
            self@.contains_key(id@) ==> r is Ok && r->Ok_0@ == self@[id@] && r->Ok_0@.no_duplicates(),
    {
        match self.slots.get(id) {
            None => Err(RendezvousError::SessionNotFound),
            Some(i) => {
                assert(self.sessions@[*i as int].wf());
                Ok(self.sessions[*i].members())
            },
        }
    }

    /// The first part of an admission, before any probe: a candidate address
    /// that could not be read fails with its error, then an unknown session fails;
    /// else the candidate is the one to probe.
    pub fn probe_target(&self, id: &str, candidate: Result<SessionMemberLocation, RendezvousError>) -> (r:
        Result<SessionMemberLocation, RendezvousError>)
        requires
            self.wf(),
        ensures
            candidate is Err ==> r == candidate,
            candidate is Ok && !self@.contains_key(id@) ==> r == Err::<
                SessionMemberLocation,
                RendezvousError,
            >(RendezvousError::SessionNotFound),
            candidate is Ok && self@.contains_key(id@) ==> r == candidate,
    {
        match candidate {
            Err(e) => Err(e),
            Ok(c) => {
                if self.slots.contains_key(id) {
                    Ok(c)
                } else {
                    Err(RendezvousError::SessionNotFound)
                }
            },
        }
    }

    /// Admits candidate `c` to session `id` after the service's probe of it came to
    /// `probe`. An unknown session fails first; then a failed probe fails and
    /// changes nothing; else `c` is admitted, once, and its member identifier is
    /// returned. Other sessions are left as they were.
    pub fn admit_member(&mut self, id: &str, c: SessionMemberLocation, probe: ProbeOutcome) -> (r:
        Result<u64, RendezvousError>)
        requires
            old(self).wf(),
        ensures
            final(self).wf(),
            !old(self)@.contains_key(id@) ==> r == Err::<u64, RendezvousError>(
                RendezvousError::SessionNotFound,
            ) && final(self)@ == old(self)@,
            old(self)@.contains_key(id@) && probe_error(probe) is Some ==> r == Err::<
                u64,
                RendezvousError,
            >(probe_error(probe)->Some_0) && final(self)@ == old(self)@,
            old(self)@.contains_key(id@) && probe_error(probe) is None ==> r is Ok && final(self)@
                == after_admission(old(self)@, id@, c) && r->Ok_0 == member_id(final(self)@[id@], c)
                && r->Ok_0 < final(self)@[id@].len() && final(self)@[id@][r->Ok_0 as int] == c
                && final(self)@[id@].no_duplicates(),
    {
        let i = match self.slots.get(id) {
            None => {
                return Err(RendezvousError::SessionNotFound);
            },
            Some(i) => *i,
        };
        match probe {
            ProbeOutcome::Connected => {},
            ProbeOutcome::Refused => {
                return Err(RendezvousError::UnreachableCandidate);
            },
            ProbeOutcome::TimedOut => {
                return Err(RendezvousError::UnreachableCandidate);
            },
            ProbeOutcome::ShutdownFailed => {
                return Err(RendezvousError::Internal);
            },
        }
        assert(self.sessions@[i as int].wf());
        let m = self.sessions[i].admit_member(c);
        proof {
            let old_reg = old(self);
            assert(self.slots@ == old_reg.slots@);
            assert forall|k: Seq<char>| #[trigger] self.slots@.contains_key(k) implies self.slots@[k]
                < self.sessions@.len() && self.sessions@[self.slots@[k] as int].spec_id() == k by {}
            assert forall|j: int| 0 <= j < self.sessions@.len() implies #[trigger] self.sessions@[j].wf() by {
                if j != i {
                    assert(old_reg.sessions@[j] == self.sessions@[j]);
                }
            }
            assert forall|k: Seq<char>| #[trigger] self.slots@.contains_key(k) && k != id@ implies self.slots@[k]
                != i by {
                assert(old_reg.sessions@[old_reg.slots@[k] as int].spec_id() == k);
            }
            assert(self@ =~= after_admission(old_reg@, id@, c));
        }
        Ok(m)
    }
}

/// Admitting the same location to the same session twice leaves the sessions,
/// and the member's identifier, as the first admission left them.
pub proof fn lemma_registry_admission_idempotent(
    reg: Map<Seq<char>, Seq<SessionMemberLocation>>,
    id: Seq<char>,
    c: SessionMemberLocation,
)
    requires
        reg.contains_key(id),
    ensures
        after_admission(after_admission(reg, id, c), id, c) == after_admission(reg, id, c),
        member_id(after_admission(after_admission(reg, id, c), id, c)[id], c) == member_id(
            after_admission(reg, id, c)[id],
            c,
        ),
{
    lemma_admission_idempotent(reg[id], c);
    assert(after_admission(after_admission(reg, id, c), id, c) =~= after_admission(reg, id, c));
}

/// Admitting a member to one session leaves every other session, and whether it
/// exists, as it was.
pub proof fn lemma_admission_isolated(
    reg: Map<Seq<char>, Seq<SessionMemberLocation>>,
    a: Seq<char>,
    b: Seq<char>,
    c: SessionMemberLocation,
)
    requires
        a != b,
    ensures
        after_admission(reg, a, c).contains_key(b) == reg.contains_key(b),
        reg.contains_key(b) ==> after_admission(reg, a, c)[b] == reg[b],
{
}

/// A read of a session right after a member was admitted to it lists that
/// member, and every member that it listed before.
pub proof fn lemma_read_after_admission(
    reg: Map<Seq<char>, Seq<SessionMemberLocation>>,
    id: Seq<char>,
    c: SessionMemberLocation,
)
    requires
        reg.contains_key(id),
    ensures
        after_admission(reg, id, c).contains_key(id),
        after_admission(reg, id, c)[id].contains(c),
        forall|m: SessionMemberLocation| reg[id].contains(m) ==> #[trigger] after_admission(
            reg,
            id,
            c,
        )[id].contains(m),
{
    lemma_admitted_is_listed(reg[id], c);
}

/// Two different candidates admitted to the same session, in either order, are
/// both listed afterwards, under distinct member identifiers.
pub proof fn lemma_two_admissions_distinct(
    reg: Map<Seq<char>, Seq<SessionMemberLocation>>,
    id: Seq<char>,
    a: SessionMemberLocation,
    b: SessionMemberLocation,
)
    requires
        reg.contains_key(id),
        a != b,
    ensures
        after_admission(after_admission(reg, id, a), id, b)[id].contains(a),
        after_admission(after_admission(reg, id, a), id, b)[id].contains(b),
        member_id(after_admission(after_admission(reg, id, a), id, b)[id], a) != member_id(
            after_admission(after_admission(reg, id, a), id, b)[id],
            b,
        ),
{
    let once = after_admission(reg, id, a);
    lemma_read_after_admission(reg, id, a);
    lemma_read_after_admission(once, id, b);
    let s = after_admission(once, id, b)[id];
    assert(s.contains(a));
    assert(s.contains(b));
    assert(s[member_id(s, a)] == a);
    assert(s[member_id(s, b)] == b);
}

} // verus!
