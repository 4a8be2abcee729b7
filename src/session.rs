use vstd::prelude::*;

use crate::location::SessionMemberLocation;

verus! {

/// The members of a session once `c` has been admitted to it: unchanged when
/// `c` is already there, else `c` joins at the end.
pub open spec fn admitted(members: Seq<SessionMemberLocation>, c: SessionMemberLocation) -> Seq<
    SessionMemberLocation,
> {
    if members.contains(c) {
        members
    } else {
        members.push(c)
    }
}

/// The identifier of member `c`: its position in the order of admission.
pub open spec fn member_id(members: Seq<SessionMemberLocation>, c: SessionMemberLocation) -> int {
    members.index_of(c)
}

/// One rendezvous session: its identifier and the locations admitted to it, each
/// once, in the order in which they were admitted.
pub struct Session {
    id: String,
    members: Vec<SessionMemberLocation>,
}

impl View for Session {
    type V = Seq<SessionMemberLocation>;

    closed spec fn view(&self) -> Seq<SessionMemberLocation> {
        self.members@
    }
}

impl Session {
    pub closed spec fn spec_id(&self) -> Seq<char> {
        self.id@
    }

    /// No location is listed twice.
    pub open spec fn wf(&self) -> bool {
        self@.no_duplicates()
    }

    /// An empty session under the given identifier.
    pub fn new(id: String) -> (r: Session)
        ensures
            r.wf(),
            r@ == Seq::<SessionMemberLocation>::empty(),
            r.spec_id() == id@,
    {
        Session { id, members: Vec::new() }
    }

    /// The session's identifier.
    pub fn id(&self) -> (r: &String)
        ensures
            r@ == self.spec_id(),
    {
        &self.id
    }

    /// The number of members.
    pub fn len(&self) -> (r: usize)
        ensures
            r == self@.len(),
    {
        self.members.len()
    }

    /// The position of `c` among the members, if it is one.
    pub fn position(&self, c: &SessionMemberLocation) -> (r: Option<usize>)
        requires
            self.wf(),
        ensures
            match r {
                Some(i) => i < self@.len() && self@[i as int] == *c && i == member_id(self@, *c),
                None => !self@.contains(*c),
            },
    {
        let mut i: usize = 0;
        while i < self.members.len()
            invariant
                i <= self@.len(),
                self.wf(),
                forall|j: int| 0 <= j < i ==> self@[j] != *c,
            decreases self@.len() - i,
        {
            if self.members[i] == *c {
                proof {
                    let k = member_id(self@, *c);
                    assert(self@.contains(*c));
                    assert(self@[i as int] == *c);
                    if k != i {
                        assert(self@[k] != self@[i as int]);
                    }
                }
                return Some(i);
            }
            i = i + 1;
        }
        None
    }

    /// A copy of the members, in the order of admission.
    pub fn members(&self) -> (r: Vec<SessionMemberLocation>)
        ensures
            r@ == self@,
    {
        let mut out: Vec<SessionMemberLocation> = Vec::new();
        let mut i: usize = 0;
        while i < self.members.len()
            invariant
                i <= self@.len(),
                out@ == self@.subrange(0, i as int),
            decreases self@.len() - i,
        {
            out.push(self.members[i]);
            i = i + 1;
            assert(out@ =~= self@.subrange(0, i as int));
        }
        assert(out@ =~= self@);
        out
    }

    /// Admits `c`, once: a location already present keeps its identifier and
    /// leaves the members as they are. Returns the member's identifier.
    pub fn admit_member(&mut self, c: SessionMemberLocation) -> (r: u64)
        requires
            old(self).wf(),
        ensures
            final(self).wf(),
            final(self)@ == admitted(old(self)@, c),
            final(self).spec_id() == old(self).spec_id(),
            r == member_id(final(self)@, c),
            0 <= r < final(self)@.len(),
            final(self)@[r as int] == c,
    {
        match self.position(&c) {
            Some(i) => i as u64,
            None => {
                let i = self.members.len();
                self.members.push(c);
                proof {
                    let s = self@;
                    assert(s[i as int] == c);
                    assert(s.no_duplicates());
                    assert(s.contains(c));
                    let k = member_id(s, c);
                    assert(0 <= k < s.len() && s[k] == c);
                }
                i as u64
            },
        }
    }
}

/// Admitting the same location twice leaves the members and the member's
/// identifier as the first admission left them.
pub proof fn lemma_admission_idempotent(members: Seq<SessionMemberLocation>, c: SessionMemberLocation)
    ensures
        admitted(admitted(members, c), c) == admitted(members, c),
        member_id(admitted(admitted(members, c), c), c) == member_id(admitted(members, c), c),
{
    assert(admitted(members, c).contains(c)) by {
        if !members.contains(c) {
            assert(members.push(c)[members.len() as int] == c);
        }
    }
}

/// A member admitted to a session is listed by it afterwards.
pub proof fn lemma_admitted_is_listed(members: Seq<SessionMemberLocation>, c: SessionMemberLocation)
    ensures
        admitted(members, c).contains(c),
        forall|m: SessionMemberLocation| members.contains(m) ==> #[trigger] admitted(members, c).contains(m),
{
    if !members.contains(c) {
        let s = members.push(c);
        assert(s[members.len() as int] == c);
        assert forall|m: SessionMemberLocation| members.contains(m) implies #[trigger] s.contains(m) by {
            let j = choose|j: int| 0 <= j < members.len() && members[j] == m;
            assert(s[j] == m);
        }
    }
}

} // verus!
