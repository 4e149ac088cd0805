//! The shared table of live sessions: session id to session, keys unique.
//!
//! A session id present in the registry denotes a session whose I/O handle is
//! valid for writing; absence means the session is gone and any send
//! targeting it must fail, not block. The registry itself performs no I/O,
//! so the caller may guard it with one coarse reader/writer lock, held only
//! for the map manipulation and never across a network write.

use vstd::prelude::*;

use crate::session::{Session, SessionState, Transport};

verus! {

/// Why registering a session can be refused.
#[derive(Clone, Copy, PartialEq, Eq, Structural, Debug)]
pub enum RegistryError {
    /// The id is already present. Ids are drawn from a space large enough
    /// that a collision is negligible, but one is rejected rather than
    /// silently overwriting the live session that holds the id.
    DuplicateId,
}

/// The mathematical content of a stored sequence of sessions: the map from
/// id to session. A later entry would shadow an earlier one with the same
/// id, but the registry never stores two entries with one id.
spec fn map_of(s: Seq<Session>) -> Map<u128, Session>
    decreases s.len(),
{
    if s.len() == 0 {
        Map::empty()
    } else {
        map_of(s.drop_last()).insert(s.last().id, s.last())
    }
}

/// No two stored sessions share an id.
spec fn unique_ids(s: Seq<Session>) -> bool {
    forall|i: int, j: int| 0 <= i < j < s.len() ==> s[i].id != s[j].id
}

/// Some stored session carries the id `x`.
spec fn has_id(s: Seq<Session>, x: u128) -> bool {
    exists|i: int| 0 <= i < s.len() && s[i].id == x
}

proof fn lemma_map_of_dom(s: Seq<Session>)
    ensures
        forall|x: u128| #[trigger] map_of(s).dom().contains(x) <==> has_id(s, x),
    decreases s.len(),
{
    if s.len() > 0 {
        lemma_map_of_dom(s.drop_last());
        assert forall|x: u128| #[trigger] map_of(s).dom().contains(x) <==> has_id(s, x) by {
            if map_of(s).dom().contains(x) {
                if x == s.last().id {
                    assert(s[s.len() - 1].id == x);
                } else {
                    assert(map_of(s.drop_last()).dom().contains(x));
                    assert(has_id(s.drop_last(), x));
                    let i = choose|i: int|
                        0 <= i < s.drop_last().len() && s.drop_last()[i].id == x;
                    assert(s.drop_last()[i] == s[i]);
                    assert(s[i].id == x);
                }
                assert(has_id(s, x));
            }
            if has_id(s, x) {
                let i = choose|i: int| 0 <= i < s.len() && s[i].id == x;
                if i < s.len() - 1 {
                    assert(s.drop_last()[i] == s[i]);
                    assert(has_id(s.drop_last(), x));
                    assert(map_of(s.drop_last()).dom().contains(x));
                } else {
                    assert(x == s.last().id);
                }
                assert(map_of(s).dom().contains(x));
            }
        }
    }
}

proof fn lemma_map_of_get(s: Seq<Session>, i: int)
    requires
        unique_ids(s),
        0 <= i < s.len(),
    ensures
        map_of(s).dom().contains(s[i].id),
        map_of(s)[s[i].id] == s[i],
    decreases s.len(),
{
    if i == s.len() - 1 {
    } else {
        lemma_map_of_get(s.drop_last(), i);
        assert(s.drop_last()[i] == s[i]);
        assert(s[i].id != s.last().id);
    }
}

proof fn lemma_last_id_fresh(s: Seq<Session>)
    requires
        unique_ids(s),
        s.len() > 0,
    ensures
        !map_of(s.drop_last()).dom().contains(s.last().id),
{
    lemma_map_of_dom(s.drop_last());
    assert forall|i: int|
        0 <= i < s.drop_last().len() implies s.drop_last()[i].id != s.last().id by {
        assert(s.drop_last()[i] == s[i]);
    }
    assert(!has_id(s.drop_last(), s.last().id));
}

proof fn lemma_map_of_finite(s: Seq<Session>)
    ensures
        map_of(s).dom().finite(),
    decreases s.len(),
{
    if s.len() > 0 {
        lemma_map_of_finite(s.drop_last());
    }
}

proof fn lemma_map_of_len(s: Seq<Session>)
    requires
        unique_ids(s),
    ensures
        map_of(s).dom().finite(),
        map_of(s).dom().len() == s.len(),
    decreases s.len(),
{
    lemma_map_of_finite(s);
    if s.len() > 0 {
        lemma_map_of_len(s.drop_last());
        lemma_last_id_fresh(s);
    }
}

proof fn lemma_map_of_remove(s: Seq<Session>, i: int)
    requires
        unique_ids(s),
        0 <= i < s.len(),
    ensures
        map_of(s.remove(i)) =~= map_of(s).remove(s[i].id),
    decreases s.len(),
{
    if i == s.len() - 1 {
        assert(s.remove(i) =~= s.drop_last());
        lemma_last_id_fresh(s);
        assert(map_of(s.drop_last()) =~= map_of(s).remove(s[i].id));
    } else {
        let t = s.remove(i);
        assert(t.drop_last() =~= s.drop_last().remove(i));
        assert(t.last() == s.last());
        lemma_map_of_remove(s.drop_last(), i);
        assert(s.drop_last()[i] == s[i]);
        assert(s[i].id != s.last().id);
        assert(map_of(t) =~= map_of(s).remove(s[i].id));
    }
}

/// The shared table itself. The sequence below is the representation; its
/// meaning is the id-to-session map given by `view`.
pub struct Registry {
    sessions: Vec<Session>,
}

impl View for Registry {
    type V = Map<u128, Session>;

    closed spec fn view(&self) -> Map<u128, Session> {
        map_of(self.sessions@)
    }
}

impl Registry {
    /// The registered ids in storage order. Broadcast visits them in this
    /// order, but no caller may rely on what the order is.
    pub closed spec fn id_seq(&self) -> Seq<u128> {
        Seq::new(self.sessions@.len(), |i: int| self.sessions@[i].id)
    }

    /// Well-formedness: ids are unique, and every registered session is
    /// `Open`, so its I/O handle is valid for writing.
    pub closed spec fn wf(&self) -> bool {
        unique_ids(self.sessions@) && forall|i: int|
            0 <= i < self.sessions@.len() ==> (#[trigger] self.sessions@[i]).state
                == SessionState::Open
    }

    /// What well-formedness yields about the abstract map: the domain is
    /// finite and matches `id_seq` without duplicates, every session sits
    /// under its own id, and every registered session is `Open`.
    pub proof fn lemma_wf_facts(&self)
        requires
            self.wf(),
        ensures
            self@.dom().finite(),
            self@.dom().len() == self.id_seq().len(),
            self.id_seq().no_duplicates(),
            forall|x: u128| self.id_seq().contains(x) <==> self@.dom().contains(x),
            forall|x: u128| #[trigger] self@.dom().contains(x) ==> self@[x].id == x
                && self@[x].state == SessionState::Open,
    {
        lemma_map_of_dom(self.sessions@);
        lemma_map_of_len(self.sessions@);
        assert forall|i: int, j: int|
            0 <= i < self.id_seq().len() && 0 <= j < self.id_seq().len() && i
                != j implies self.id_seq()[i] != self.id_seq()[j] by {
            assert(self.sessions@[i].id == self.id_seq()[i]);
            assert(self.sessions@[j].id == self.id_seq()[j]);
        }
        assert forall|x: u128| self.id_seq().contains(x) implies self@.dom().contains(x) by {
            let i = choose|i: int| 0 <= i < self.id_seq().len() && self.id_seq()[i] == x;
            assert(self.sessions@[i].id == x);
        }
        assert forall|x: u128| self@.dom().contains(x) implies self.id_seq().contains(x) by {
            let i = choose|i: int| 0 <= i < self.sessions@.len() && self.sessions@[i].id == x;
            assert(self.id_seq()[i] == x);
        }
        assert forall|x: u128| #[trigger] self@.dom().contains(x) implies self@[x].id == x
            && self@[x].state == SessionState::Open by {
            let i = choose|i: int| 0 <= i < self.sessions@.len() && self.sessions@[i].id == x;
            lemma_map_of_get(self.sessions@, i);
        }
    }

    /// No lookup ever observes a session whose I/O handle has been released:
    /// a completed removal takes the id out of the map, and whatever id is
    /// still in the map denotes an `Open` session.
    pub proof fn lemma_registered_sessions_live(&self, id: u128)
        requires
            self.wf(),
            self@.dom().contains(id),
        ensures
            self@[id].state == SessionState::Open,
    {
        self.lemma_wf_facts();
    }

    /// Removal is idempotent: taking an id out twice removes the session
    /// exactly once, and the second removal finds nothing and changes
    /// nothing. Two racing close requests therefore cannot double-release.
    pub proof fn lemma_remove_idempotent(m: Map<u128, Session>, id: u128)
        ensures
            !m.remove(id).dom().contains(id),
            m.remove(id).remove(id) =~= m.remove(id),
    {
    }

    /// An empty registry.
    pub fn new() -> (r: Registry)
        ensures
            r.wf(),
            r@ == Map::<u128, Session>::empty(),
    {
        Registry { sessions: Vec::new() }
    }

    /// How many sessions are registered.
    pub fn len(&self) -> (n: usize)
        requires
            self.wf(),
        ensures
            n == self@.dom().len(),
    {
        proof {
            lemma_map_of_len(self.sessions@);
        }
        self.sessions.len()
    }

    /// Whether an id is registered.
    #[verifier::loop_isolation(false)]
    pub fn contains(&self, id: u128) -> (r: bool)
        requires
            self.wf(),
        ensures
            r == self@.dom().contains(id),
    {
        proof {
            lemma_map_of_dom(self.sessions@);
        }
        let n = self.sessions.len();
        for i in 0..n
            invariant
                n == self.sessions@.len(),
                forall|k: int| 0 <= k < i ==> self.sessions@[k].id != id,
        {
            if self.sessions[i].id == id {
                return true;
            }
        }
        false
    }

    /// Read-only lookup. The returned handle must not be used to mutate the
    /// table; it denotes a session whose I/O handle is valid for writing.
    #[verifier::loop_isolation(false)]
    pub fn get(&self, id: u128) -> (r: Option<&Session>)
        requires
            self.wf(),
        ensures
            match r {
                Some(s) => self@.dom().contains(id) && *s == self@[id],
                None => !self@.dom().contains(id),
            },
    {
        proof {
            lemma_map_of_dom(self.sessions@);
        }
        let n = self.sessions.len();
        for i in 0..n
            invariant
                n == self.sessions@.len(),
                self.wf(),
                forall|k: int| 0 <= k < i ==> self.sessions@[k].id != id,
        {
            if self.sessions[i].id == id {
                proof {
                    lemma_map_of_get(self.sessions@, i as int);
                }
                return Some(&self.sessions[i]);
            }
        }
        None
    }

    /// Register a freshly accepted connection. The session enters the table
    /// already `Open`: it is reachable by dispatch from this instant on, and
    /// only then may its read loop start. An id already present is refused
    /// with `DuplicateId` and the table is left unchanged.
    pub fn accept(&mut self, id: u128, remote_address: String, transport: Transport) -> (r: Result<
        (),
        RegistryError,
    >)
        requires
            old(self).wf(),
        ensures
            final(self).wf(),
            r is Err <==> old(self)@.dom().contains(id),
            r is Err ==> final(self)@ == old(self)@ && r == Err::<(), RegistryError>(
                RegistryError::DuplicateId,
            ),
            r is Ok ==> final(self)@ == old(self)@.insert(
                id,
                (Session {
                    id,
                    remote_address,
                    transport,
                    state: SessionState::Open,
                }),
            ),
            final(self)@.dom().contains(id),
    {
        if self.contains(id) {
            return Err(RegistryError::DuplicateId);
        }
        proof {
            lemma_map_of_dom(self.sessions@);
            assert(!has_id(self.sessions@, id));
        }
        let mut s = Session::new(id, remote_address, transport);
        s.mark_open();
        let ghost before = self.sessions@;
        let ghost gs = s;
        self.sessions.push(s);
        proof {
            assert(self.sessions@.drop_last() =~= before);
            assert(self.sessions@.last() == gs);
            assert(self@ =~= old(self)@.insert(id, gs));
            assert forall|i: int, j: int|
                0 <= i < j < self.sessions@.len() implies self.sessions@[i].id
                    != self.sessions@[j].id by {
                if j == self.sessions@.len() - 1 {
                    assert(before[i].id != id);
                } else {
                    assert(before[i].id != before[j].id);
                }
            }
        }
        Ok(())
    }

    /// Remove a session, handing it back so the caller can release its I/O
    /// handle. Removing an absent id is a no-op returning nothing, so the
    /// read loop's cleanup and an explicit close request can race without a
    /// double release.
    #[verifier::loop_isolation(false)]
    pub fn remove(&mut self, id: u128) -> (r: Option<Session>)
        requires
            old(self).wf(),
        ensures
            final(self).wf(),
            final(self)@ == old(self)@.remove(id),
            !final(self)@.dom().contains(id),
            match r {
                Some(s) => old(self)@.dom().contains(id) && s == old(self)@[id],
                None => !old(self)@.dom().contains(id) && final(self)@ == old(self)@,
            },
    {
        proof {
            lemma_map_of_dom(self.sessions@);
        }
        let n = self.sessions.len();
        for i in 0..n
            invariant
                n == self.sessions@.len(),
                self.sessions@ == old(self).sessions@,
                forall|k: int| 0 <= k < i ==> self.sessions@[k].id != id,
        {
            if self.sessions[i].id == id {
                proof {
                    lemma_map_of_get(self.sessions@, i as int);
                    lemma_map_of_remove(self.sessions@, i as int);
                }
                let s = self.sessions.remove(i);
                proof {
                    lemma_map_of_dom(self.sessions@);
                }
                return Some(s);
            }
        }
        proof {
            lemma_map_of_dom(self.sessions@);
            assert(!has_id(self.sessions@, id));
            assert(!map_of(self.sessions@).dom().contains(id));
            assert(self@ =~= self@.remove(id));
        }
        None
    }

    /// A point-in-time snapshot of the registered ids, for broadcast: the
    /// caller takes it under the lock, releases the lock, and only then
    /// writes to the sessions, so a stalled peer cannot block the table.
    #[verifier::loop_isolation(false)]
    pub fn snapshot_ids(&self) -> (ids: Vec<u128>)
        requires
            self.wf(),
        ensures
            ids@ == self.id_seq(),
            ids@.no_duplicates(),
            forall|x: u128| ids@.contains(x) <==> self@.dom().contains(x),
    {
        let mut ids: Vec<u128> = Vec::new();
        let n = self.sessions.len();
        for i in 0..n
            invariant
                n == self.sessions@.len(),
                ids@.len() == i,
                forall|k: int| 0 <= k < i ==> ids@[k] == self.sessions@[k].id,
        {
            ids.push(self.sessions[i].id);
        }
        proof {
            assert(ids@ =~= self.id_seq());
            self.lemma_wf_facts();
        }
        ids
    }

    /// Explicit close request: look the session up so the caller can shut
    /// its I/O handle down; the read loop will then observe the end of the
    /// stream and perform the one removal. An unknown id is a no-op, not an
    /// error, so close is idempotent for its caller; the table itself is
    /// never changed here.
    pub fn close(&self, id: u128) -> (target: Option<&Session>)
        requires
            self.wf(),
        ensures
            match target {
                Some(s) => self@.dom().contains(id) && *s == self@[id],
                None => !self@.dom().contains(id),
            },
    {
        self.get(id)
    }
}

} // verus!
