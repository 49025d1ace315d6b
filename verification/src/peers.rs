//! The peer sessions that are alive, by session id.
//!
//! A session enters the registry once its answer is final. It leaves when its
//! connection is seen disconnected, failed or closed, and never comes back.
//! Every change of the registry yields the new number of sessions, which the
//! caller passes on as a peer-count notification.

use vstd::prelude::*;
use crate::text::same_text;

verus! {

/// The states a peer connection reports.
#[derive(Debug, Clone, Copy, PartialEq, Eq, Structural)]
pub enum ConnectionState {
    Unspecified,
    New,
    Connecting,
    Connected,
    Disconnected,
    Failed,
    Closed,
}

impl ConnectionState {
    /// Whether a session that is seen in this state leaves the registry.
    pub open spec fn evicts(self) -> bool {
        self is Disconnected || self is Failed || self is Closed
    }

    /// Whether a session that is seen in this state leaves the registry.
    pub fn causes_eviction(&self) -> (r: bool)
        ensures
            r == self.evicts(),
    {
        match self {
            ConnectionState::Disconnected => true,
            ConnectionState::Failed => true,
            ConnectionState::Closed => true,
            _ => false,
        }
    }
}

/// The ids `ids` with `id` among them: a new id is appended, a known one
/// stands for the session that replaces the one it named.
pub open spec fn with_session(ids: Seq<Seq<char>>, id: Seq<char>) -> Seq<Seq<char>> {
    if ids.contains(id) {
        ids
    } else {
        ids.push(id)
    }
}

/// The ids `ids` without `id`.
pub open spec fn without_session(ids: Seq<Seq<char>>, id: Seq<char>) -> Seq<Seq<char>> {
    if ids.contains(id) {
        ids.remove(ids.index_of(id))
    } else {
        ids
    }
}

/// The registry after the session `id` was seen in `state`, and the
/// peer-count notification that the observation yields.
pub open spec fn observed(ids: Seq<Seq<char>>, id: Seq<char>, state: ConnectionState) -> (
    Seq<Seq<char>>,
    Option<nat>,
) {
    if state.evicts() {
        (without_session(ids, id), Some(without_session(ids, id).len()))
    } else {
        (ids, None)
    }
}

/// The number that is sent as a peer-count notification for `count`
/// sessions: the count itself, or the largest number that can be sent.
pub open spec fn notification_of(count: nat) -> i32 {
    if count <= i32::MAX {
        count as i32
    } else {
        i32::MAX
    }
}

/// Turns a number of sessions into the number that is sent as a notification.
pub fn notification(count: usize) -> (r: i32)
    ensures
        r == notification_of(count as nat),
{
    if count <= i32::MAX as usize {
        count as i32
    } else {
        i32::MAX
    }
}

/// The sessions that are alive.
pub struct PeerRegistry {
    ids: Vec<String>,
}

impl View for PeerRegistry {
    type V = Seq<Seq<char>>;

    closed spec fn view(&self) -> Seq<Seq<char>> {
        Seq::new(self.ids@.len(), |i: int| self.ids@[i]@)
    }
}

impl PeerRegistry {
    /// Whether the registry meets its invariant: no id stands twice.
    pub open spec fn wf(&self) -> bool {
        self@.no_duplicates()
    }

    /// A registry without sessions.
    pub fn new() -> (r: PeerRegistry)
        ensures
            r.wf(),
            r@ == Seq::<Seq<char>>::empty(),
    {
        let r = PeerRegistry { ids: Vec::new() };
        assert(r@ =~= Seq::<Seq<char>>::empty());
        r
    }

    fn find(&self, id: &str) -> (r: Option<usize>)
        ensures
            match r {
                Some(i) => i < self@.len() && self@[i as int] == id@,
                None => !self@.contains(id@),
            },
    {
        let mut i: usize = 0;
        while i < self.ids.len()
            invariant
                i <= self.ids@.len(),
                self@.len() == self.ids@.len(),
                forall|j: int| 0 <= j < i ==> self@[j] != id@,
            decreases self.ids.len() - i,
        {
            if same_text(self.ids[i].as_str(), id) {
                return Some(i);
            }
            i += 1;
        }
        None
    }

    /// The number of sessions.
    pub fn len(&self) -> (r: usize)
        ensures
            r == self@.len(),
    {
        self.ids.len()
    }

    /// Whether the session `id` is alive.
    pub fn contains(&self, id: &str) -> (r: bool)
        ensures
            r == self@.contains(id@),
    {
        self.find(id).is_some()
    }

    /// The ids of the sessions, oldest first.
    pub fn session_ids(&self) -> (r: Vec<String>)
        ensures
            r@.len() == self@.len(),
            forall|i: int| 0 <= i < r@.len() ==> (#[trigger] r@[i])@ == self@[i],
    {
        self.ids.clone()
    }

    /// Enters the session `id` and returns the number of sessions after it.
    pub fn insert(&mut self, id: String) -> (count: usize)
        requires
            old(self).wf(),
        ensures
            final(self).wf(),
            final(self)@ == with_session(old(self)@, id@),
            count == final(self)@.len(),
    {
        if self.find(id.as_str()).is_none() {
            self.ids.push(id);
            proof {
                assert(self@ =~= with_session(old(self)@, id@));
                lemma_with_session(old(self)@, id@);
            }
        }
        self.ids.len()
    }

    /// Takes the session `id` out and returns the number of sessions after it.
    pub fn remove(&mut self, id: &str) -> (count: usize)
        requires
            old(self).wf(),
        ensures
            final(self).wf(),
            final(self)@ == without_session(old(self)@, id@),
            count == final(self)@.len(),
    {
        match self.find(id) {
            Some(i) => {
                proof {
                    lemma_index_of(self@, i as int);
                    lemma_without_session(self@, id@);
                }
                let _ = self.ids.remove(i);
                assert(self@ =~= without_session(old(self)@, id@));
            },
            None => {},
        }
        self.ids.len()
    }

    /// Takes note that the connection of the session `id` is in `state`. A
    /// session that is disconnected, failed or closed leaves the registry, and
    /// the new number of sessions is returned for notification, whether or not
    /// the session was still there. Any other state changes nothing.
    pub fn observe(&mut self, id: &str, state: ConnectionState) -> (notify: Option<usize>)
        requires
            old(self).wf(),
        ensures
            final(self).wf(),
            final(self)@ == observed(old(self)@, id@, state).0,
            match notify {
                Some(n) => observed(old(self)@, id@, state).1 == Some(n as nat),
                None => observed(old(self)@, id@, state).1 is None,
            },
    {
        if state.causes_eviction() {
            Some(self.remove(id))
        } else {
            None
        }
    }

    /// Drops every session and returns how many there were.
    pub fn clear(&mut self) -> (dropped: usize)
        ensures
            final(self).wf(),
            final(self)@ == Seq::<Seq<char>>::empty(),
            dropped == old(self)@.len(),
    {
        let dropped: usize = self.ids.len();
        self.ids = Vec::new();
        assert(self@ =~= Seq::<Seq<char>>::empty());
        dropped
    }
}

/// In a sequence without duplicates, the place of an element is where it stands.
pub proof fn lemma_index_of(ids: Seq<Seq<char>>, i: int)
    requires
        ids.no_duplicates(),
        0 <= i < ids.len(),
    ensures
        ids.contains(ids[i]),
        ids.index_of(ids[i]) == i,
{
    let j = ids.index_of(ids[i]);
    assert(0 <= j < ids.len() && ids[j] == ids[i]);
}

/// Entering a session keeps the ids distinct, and the session is there.
pub proof fn lemma_with_session(ids: Seq<Seq<char>>, id: Seq<char>)
    requires
        ids.no_duplicates(),
    ensures
        with_session(ids, id).no_duplicates(),
        with_session(ids, id).contains(id),
        ids.len() <= with_session(ids, id).len() <= ids.len() + 1,
{
    let w = with_session(ids, id);
    if !ids.contains(id) {
        assert(w[ids.len() as int] == id);
        assert forall|i: int, j: int| 0 <= i < w.len() && 0 <= j < w.len() && i != j implies w[i]
            != w[j] by {
            if i < ids.len() && j < ids.len() {
                assert(ids[i] != ids[j]);
            } else if i < ids.len() {
                assert(ids.contains(ids[i]));
            } else {
                assert(ids.contains(ids[j]));
            }
        }
    }
}

/// Taking a session out keeps the ids distinct; the session is gone, every
/// other one stays, and nothing is added.
pub proof fn lemma_without_session(ids: Seq<Seq<char>>, id: Seq<char>)
    requires
        ids.no_duplicates(),
    ensures
        without_session(ids, id).no_duplicates(),
        !without_session(ids, id).contains(id),
        forall|other: Seq<char>|
            other != id ==> (#[trigger] without_session(ids, id).contains(other) == ids.contains(
                other,
            )),
        without_session(ids, id).len() <= ids.len(),
        ids.contains(id) ==> without_session(ids, id).len() == ids.len() - 1,
{
    let w = without_session(ids, id);
    if ids.contains(id) {
        let at = ids.index_of(id);
        assert(0 <= at < ids.len() && ids[at] == id);
        assert forall|i: int| 0 <= i < w.len() implies (#[trigger] w[i]) == ids[if i < at {
            i
        } else {
            i + 1
        }] by {}
        assert forall|i: int, j: int| 0 <= i < w.len() && 0 <= j < w.len() && i != j implies w[i]
            != w[j] by {
            let a = if i < at { i } else { i + 1 };
            let b = if j < at { j } else { j + 1 };
            assert(ids[a] != ids[b]);
        }
        if w.contains(id) {
            let i = choose|i: int| 0 <= i < w.len() && w[i] == id;
            let a = if i < at { i } else { i + 1 };
            assert(ids[a] == ids[at]);
            assert(false);
        }
        assert forall|other: Seq<char>| other != id implies (#[trigger] w.contains(other)
            == ids.contains(other)) by {
            if ids.contains(other) {
                let a = choose|a: int| 0 <= a < ids.len() && ids[a] == other;
                let i = if a < at { a } else { a - 1 };
                assert(w[i] == other);
            }
            if w.contains(other) {
                let i = choose|i: int| 0 <= i < w.len() && w[i] == other;
                let a = if i < at { i } else { i + 1 };
                assert(ids[a] == other);
            }
        }
    }
}

/// A session whose connection is seen disconnected, failed or closed is gone
/// from the registry afterwards, the notification that the observation yields
/// is the number of sessions that are left, and no later observation brings
/// the session back.
pub proof fn lemma_terminal_session_leaves(
    ids: Seq<Seq<char>>,
    id: Seq<char>,
    state: ConnectionState,
    later: ConnectionState,
)
    requires
        ids.no_duplicates(),
        state.evicts(),
    ensures
        !observed(ids, id, state).0.contains(id),
        observed(ids, id, state).1 == Some(observed(ids, id, state).0.len()),
        observed(ids, id, state).0.len() <= ids.len(),
        !observed(observed(ids, id, state).0, id, later).0.contains(id),
        observed(observed(ids, id, state).0, id, later).0 == observed(ids, id, state).0,
{
    lemma_without_session(ids, id);
}

/// An observation never adds a session, and it keeps the ids distinct.
pub proof fn lemma_observation_only_removes(
    ids: Seq<Seq<char>>,
    id: Seq<char>,
    state: ConnectionState,
)
    requires
        ids.no_duplicates(),
    ensures
        observed(ids, id, state).0.no_duplicates(),
        forall|other: Seq<char>|
            #[trigger] observed(ids, id, state).0.contains(other) ==> ids.contains(other),
{
    lemma_without_session(ids, id);
}

} // verus!
