//! Bookkeeping of the RTP sessions of a call: one task per media session
//! sends and receives its packets, and each session has at most one sender
//! and one receiver attached.
use crate::sdp::MediaSessionId;
use vstd::prelude::*;

verus! {

/// A running RTP session: the handle of its task `T` and what is attached.
pub struct RtpEntry<T> {
    pub task: T,
    pub has_sender: bool,
    pub has_receiver: bool,
}

/// Why a sender or receiver could not be attached.
#[derive(Debug, Clone, Copy, PartialEq, Eq, Structural)]
pub enum RtpSessionError {
    /// Tried to add a sender to a session which already has a sender
    SenderExists,
    /// Tried to add a receiver to a session which already has a receiver
    ReceiverExists,
}

/// The RTP sessions of a call, by media session id.
pub struct RtpSessions<T> {
    pub sessions: Vec<(MediaSessionId, RtpEntry<T>)>,
}

/// What is attached to each session, by id.
pub open spec fn attached<T>(s: Seq<(MediaSessionId, RtpEntry<T>)>) -> Map<u32, (bool, bool)> {
    Map::new(
        |id: u32| exists|i: int| 0 <= i < s.len() && (#[trigger] s[i]).0.0 == id,
        |id: u32| {
            let i = choose|i: int| 0 <= i < s.len() && (#[trigger] s[i]).0.0 == id;
            (s[i].1.has_sender, s[i].1.has_receiver)
        },
    )
}

pub open spec fn index_of<T>(s: Seq<(MediaSessionId, RtpEntry<T>)>, id: u32) -> int {
    choose|i: int| 0 <= i < s.len() && (#[trigger] s[i]).0.0 == id
}

impl<T> RtpSessions<T> {
    /// No media session has two RTP sessions.
    pub open spec fn wf(&self) -> bool {
        forall|i: int, j: int|
            0 <= i < j < self.sessions@.len() ==> (#[trigger] self.sessions@[i]).0 != (#[trigger] self.sessions@[j]).0
    }

    pub open spec fn view_map(&self) -> Map<u32, (bool, bool)> {
        attached(self.sessions@)
    }

    pub fn new() -> (r: Self)
        ensures
            r.wf(),
            r.view_map() == Map::<u32, (bool, bool)>::empty(),
    {
        let r = RtpSessions { sessions: Vec::new() };
        assert(r.view_map() =~= Map::<u32, (bool, bool)>::empty());
        r
    }

    fn find(&self, id: MediaSessionId) -> (r: Option<usize>)
        requires
            self.wf(),
        ensures
            r is None <==> !self.view_map().contains_key(id.0),
            r matches Some(i) ==> i < self.sessions@.len() && self.sessions@[i as int].0 == id && index_of(
                self.sessions@,
                id.0,
            ) == i,
    {
        let mut i: usize = 0;
        while i < self.sessions.len()
            invariant
                i <= self.sessions@.len(),
                self.wf(),
                forall|j: int| 0 <= j < i ==> (#[trigger] self.sessions@[j]).0.0 != id.0,
            decreases self.sessions@.len() - i,
        {
            if self.sessions[i].0.0 == id.0 {
                proof {
                    let k = index_of(self.sessions@, id.0);
                    assert(self.sessions@[i as int].0.0 == id.0);
                    assert(self.sessions@[k].0.0 == id.0);
                    if k != i {
                        if k < i {
                            assert(self.sessions@[k].0 != self.sessions@[i as int].0);
                        } else {
                            assert(self.sessions@[i as int].0 != self.sessions@[k].0);
                        }
                    }
                }
                return Some(i);
            }
            i = i + 1;
        }
        None
    }

    /// Whether the media session has an RTP session.
    pub fn has_session(&self, id: MediaSessionId) -> (r: bool)
        requires
            self.wf(),
        ensures
            r == self.view_map().contains_key(id.0),
    {
        self.find(id).is_some()
    }

    /// The task of the media session's RTP session.
    pub fn task(&self, id: MediaSessionId) -> (r: Option<&T>)
        requires
            self.wf(),
        ensures
            r is None <==> !self.view_map().contains_key(id.0),
            r matches Some(t) ==> *t == self.sessions@[index_of(self.sessions@, id.0)].1.task,
    {
        match self.find(id) {
            Some(i) => Some(&self.sessions[i].1.task),
            None => None,
        }
    }

    /// The RTP session of the media session, started with `create` where
    /// there is none yet; gives its index.
    pub fn get_or_create_session<F: FnOnce() -> T>(&mut self, id: MediaSessionId, create: F) -> (r: usize)
        requires
            old(self).wf(),
            create.requires(()),
        ensures
            final(self).wf(),
            r < final(self).sessions@.len(),
            final(self).sessions@[r as int].0 == id,
            old(self).view_map().contains_key(id.0) ==> final(self).sessions@ == old(self).sessions@,
            !old(self).view_map().contains_key(id.0) ==> {
                &&& final(self).sessions@.drop_last() == old(self).sessions@
                &&& r == old(self).sessions@.len()
                &&& !final(self).sessions@[r as int].1.has_sender
                &&& !final(self).sessions@[r as int].1.has_receiver
                &&& create.ensures((), final(self).sessions@[r as int].1.task)
            },
    {
        match self.find(id) {
            Some(i) => i,
            None => {
                let task = create();
                let ghost before = self.sessions@;
                self.sessions.push((id, RtpEntry { task, has_sender: false, has_receiver: false }));
                proof {
                    assert(self.sessions@.drop_last() =~= before);
                    assert forall|i: int, j: int| 0 <= i < j < self.sessions@.len() implies (
                    #[trigger] self.sessions@[i]).0 != (#[trigger] self.sessions@[j]).0 by {
                        if j == before.len() {
                            if self.sessions@[i].0 == id {
                                assert(before[i].0.0 == id.0);
                            }
                        }
                    }
                }
                self.sessions.len() - 1
            },
        }
    }

    fn set_flags(&mut self, i: usize, sender: bool, receiver: bool)
        requires
            old(self).wf(),
            i < old(self).sessions@.len(),
        ensures
            final(self).wf(),
            final(self).sessions@.len() == old(self).sessions@.len(),
            forall|j: int| 0 <= j < old(self).sessions@.len() && j != i ==> #[trigger] final(self).sessions@[j] == old(
                self,
            ).sessions@[j],
            final(self).sessions@[i as int].0 == old(self).sessions@[i as int].0,
            final(self).sessions@[i as int].1.task == old(self).sessions@[i as int].1.task,
            final(self).sessions@[i as int].1.has_sender == sender,
            final(self).sessions@[i as int].1.has_receiver == receiver,
    {
        let ghost before = self.sessions@;
        let (id, entry) = self.sessions.remove(i);
        let RtpEntry { task, .. } = entry;
        self.sessions.insert(i, (id, RtpEntry { task, has_sender: sender, has_receiver: receiver }));
        proof {
            assert forall|a: int, b: int| 0 <= a < b < self.sessions@.len() implies (#[trigger] self.sessions@[a]).0
                != (#[trigger] self.sessions@[b]).0 by {
                assert(self.sessions@[a].0 == before[a].0);
                assert(self.sessions@[b].0 == before[b].0);
            }
        }
    }

    /// Attaches a sender to the media session's RTP session, started with
    /// `create` where there is none yet. Fails when a sender is attached
    /// already.
    pub fn add_sender<F: FnOnce() -> T>(&mut self, id: MediaSessionId, create: F) -> (r: Result<(), RtpSessionError>)
        requires
            old(self).wf(),
            create.requires(()),
        ensures
            final(self).wf(),
            final(self).view_map().contains_key(id.0),
            old(self).view_map().contains_key(id.0) && old(self).view_map()[id.0].0 ==> r == Err::<(), RtpSessionError>(
                RtpSessionError::SenderExists,
            ) && final(self).sessions@ == old(self).sessions@,
            !(old(self).view_map().contains_key(id.0) && old(self).view_map()[id.0].0) ==> r is Ok
                && final(self).view_map() == old(self).view_map().insert(
                id.0,
                (true, old(self).view_map().contains_key(id.0) && old(self).view_map()[id.0].1),
            ),
    {
        let ghost m0 = self.view_map();
        let ghost s0 = self.sessions@;
        let i = self.get_or_create_session(id, create);
        proof {
            lemma_attached_at(self.sessions@, i as int);
            if m0.contains_key(id.0) {
                lemma_attached_at(s0, index_of(s0, id.0));
            }
        }
        if self.sessions[i].1.has_sender {
            return Err(RtpSessionError::SenderExists);
        }
        let receiver = self.sessions[i].1.has_receiver;
        let ghost s1 = self.sessions@;
        self.set_flags(i, true, receiver);
        proof {
            lemma_attached_update(s1, self.sessions@, i as int);
            if !m0.contains_key(id.0) {
                lemma_attached_push(s0, s1);
            }
        }
        Ok(())
    }

    /// Attaches a receiver to the media session's RTP session, started with
    /// `create` where there is none yet. Fails when a receiver is attached
    /// already.
    pub fn add_receiver<F: FnOnce() -> T>(&mut self, id: MediaSessionId, create: F) -> (r: Result<(), RtpSessionError>)
        requires
            old(self).wf(),
            create.requires(()),
        ensures
            final(self).wf(),
            final(self).view_map().contains_key(id.0),
            old(self).view_map().contains_key(id.0) && old(self).view_map()[id.0].1 ==> r == Err::<(), RtpSessionError>(
                RtpSessionError::ReceiverExists,
            ) && final(self).sessions@ == old(self).sessions@,
            !(old(self).view_map().contains_key(id.0) && old(self).view_map()[id.0].1) ==> r is Ok
                && final(self).view_map() == old(self).view_map().insert(
                id.0,
                (old(self).view_map().contains_key(id.0) && old(self).view_map()[id.0].0, true),
            ),
    {
        let ghost m0 = self.view_map();
        let ghost s0 = self.sessions@;
        let i = self.get_or_create_session(id, create);
        proof {
            lemma_attached_at(self.sessions@, i as int);
            if m0.contains_key(id.0) {
                lemma_attached_at(s0, index_of(s0, id.0));
            }
        }
        if self.sessions[i].1.has_receiver {
            return Err(RtpSessionError::ReceiverExists);
        }
        let sender = self.sessions[i].1.has_sender;
        let ghost s1 = self.sessions@;
        self.set_flags(i, sender, true);
        proof {
            lemma_attached_update(s1, self.sessions@, i as int);
            if !m0.contains_key(id.0) {
                lemma_attached_push(s0, s1);
            }
        }
        Ok(())
    }

    /// Detaches the sender of the media session's RTP session, if there is
    /// one; tells whether the session exists (its task is then told).
    pub fn remove_sender(&mut self, id: MediaSessionId) -> (r: bool)
        requires
            old(self).wf(),
        ensures
            final(self).wf(),
            r == old(self).view_map().contains_key(id.0),
            r ==> final(self).view_map() == old(self).view_map().insert(id.0, (false, old(self).view_map()[id.0].1)),
            !r ==> final(self).sessions@ == old(self).sessions@,
    {
        match self.find(id) {
            None => false,
            Some(i) => {
                let receiver = self.sessions[i].1.has_receiver;
                let ghost s0 = self.sessions@;
                proof {
                    lemma_attached_at(s0, i as int);
                }
                self.set_flags(i, false, receiver);
                proof {
                    lemma_attached_update(s0, self.sessions@, i as int);
                }
                true
            },
        }
    }

    /// Detaches the receiver of the media session's RTP session, if there
    /// is one; tells whether the session exists (its task is then told).
    pub fn remove_receiver(&mut self, id: MediaSessionId) -> (r: bool)
        requires
            old(self).wf(),
        ensures
            final(self).wf(),
            r == old(self).view_map().contains_key(id.0),
            r ==> final(self).view_map() == old(self).view_map().insert(id.0, (old(self).view_map()[id.0].0, false)),
            !r ==> final(self).sessions@ == old(self).sessions@,
    {
        match self.find(id) {
            None => false,
            Some(i) => {
                let sender = self.sessions[i].1.has_sender;
                let ghost s0 = self.sessions@;
                proof {
                    lemma_attached_at(s0, i as int);
                }
                self.set_flags(i, sender, false);
                proof {
                    lemma_attached_update(s0, self.sessions@, i as int);
                }
                true
            },
        }
    }

    /// Ends the RTP sessions that have neither a sender nor a receiver;
    /// the others stay as they are.
    pub fn cleanup_sessions_without_sender_and_receiver(&mut self)
        requires
            old(self).wf(),
        ensures
            final(self).wf(),
            final(self).view_map() == old(self).view_map().restrict(
                old(self).view_map().dom().filter(|id: u32| old(self).view_map()[id].0 || old(self).view_map()[id].1),
            ),
    {
        let ghost s0 = self.sessions@;
        let ghost m0 = self.view_map();
        let mut rest: Vec<(MediaSessionId, RtpEntry<T>)> = Vec::new();
        std::mem::swap(&mut rest, &mut self.sessions);
        let ghost n = s0.len();
        assert(rest@ == s0);
        assert(s0.skip(0) =~= s0);
        assert(self.sessions@ =~= Seq::<(MediaSessionId, RtpEntry<T>)>::empty());
        while rest.len() > 0
            invariant
                n == s0.len(),
                rest@.len() <= n,
                rest@ == s0.skip(n - rest@.len()),
                forall|k: int| 0 <= k < self.sessions@.len() ==> #[trigger] s0.contains(self.sessions@[k]),
                forall|k: int| 0 <= k < self.sessions@.len() ==> ((#[trigger] self.sessions@[k]).1.has_sender
                    || self.sessions@[k].1.has_receiver),
                forall|a: int, b: int| 0 <= a < b < self.sessions@.len() ==> (#[trigger] self.sessions@[a]).0
                    != (#[trigger] self.sessions@[b]).0,
                forall|j: int|
                    0 <= j < n - rest@.len() && ((#[trigger] s0[j]).1.has_sender || s0[j].1.has_receiver)
                        ==> self.sessions@.contains(s0[j]),
                forall|a: int, b: int| 0 <= a < b < s0.len() ==> (#[trigger] s0[a]).0 != (#[trigger] s0[b]).0,
                forall|k: int, j: int|
                    0 <= k < self.sessions@.len() && n - rest@.len() <= j < n ==> (#[trigger] self.sessions@[k]).0
                        != (#[trigger] s0[j]).0,
            decreases rest@.len(),
        {
            let ghost before = self.sessions@;
            let ghost pos = n - rest@.len();
            let item = rest.remove(0);
            assert(rest@ =~= s0.skip(pos + 1));
            assert(item == s0[pos]);
            if item.1.has_sender || item.1.has_receiver {
                self.sessions.push(item);
                proof {
                    assert(self.sessions@ == before.push(item));
                    assert forall|k: int| 0 <= k < self.sessions@.len() implies #[trigger] s0.contains(self.sessions@[k]) by {
                        if k == before.len() {
                            assert(s0[pos] == item);
                        } else {
                            assert(self.sessions@[k] == before[k]);
                        }
                    }
                    assert forall|j: int|
                        0 <= j < pos + 1 && ((#[trigger] s0[j]).1.has_sender || s0[j].1.has_receiver) implies self.sessions@.contains(
                        s0[j],
                    ) by {
                        if j == pos {
                            assert(self.sessions@[before.len() as int] == s0[j]);
                        } else {
                            let k = choose|k: int| 0 <= k < before.len() && before[k] == s0[j];
                            assert(self.sessions@[k] == s0[j]);
                        }
                    }
                    assert forall|k: int, j: int|
                        0 <= k < self.sessions@.len() && pos + 1 <= j < n implies (#[trigger] self.sessions@[k]).0
                        != (#[trigger] s0[j]).0 by {
                        if k == before.len() {
                            assert(s0[pos].0 != s0[j].0);
                        } else {
                            assert(self.sessions@[k] == before[k]);
                        }
                    }
                    assert forall|a: int, b: int| 0 <= a < b < self.sessions@.len() implies (
                    #[trigger] self.sessions@[a]).0 != (#[trigger] self.sessions@[b]).0 by {
                        if b == before.len() {
                            assert(self.sessions@[a] == before[a]);
                        } else {
                            assert(self.sessions@[a] == before[a]);
                            assert(self.sessions@[b] == before[b]);
                        }
                    }
                }
            }
        }
        proof {
            let m1 = self.view_map();
            let want = m0.restrict(m0.dom().filter(|id: u32| m0[id].0 || m0[id].1));
            assert forall|id: u32| #[trigger] m1.contains_key(id) <==> want.contains_key(id) by {
                if m1.contains_key(id) {
                    let k = choose|k: int| 0 <= k < self.sessions@.len() && (#[trigger] self.sessions@[k]).0.0 == id;
                    assert(s0.contains(self.sessions@[k]));
                    let j = choose|j: int| 0 <= j < s0.len() && s0[j] == self.sessions@[k];
                    assert(s0[j].0.0 == id);
                    lemma_attached_at(s0, j);
                }
                if want.contains_key(id) {
                    let j = index_of(s0, id);
                    lemma_attached_at(s0, j);
                    assert(self.sessions@.contains(s0[j]));
                    let k = choose|k: int| 0 <= k < self.sessions@.len() && self.sessions@[k] == s0[j];
                    assert(self.sessions@[k].0.0 == id);
                }
            }
            assert forall|id: u32| #[trigger] m1.contains_key(id) implies m1[id] == want[id] by {
                let k = index_of(self.sessions@, id);
                lemma_attached_at(self.sessions@, k);
                assert(s0.contains(self.sessions@[k]));
                let j = choose|j: int| 0 <= j < s0.len() && s0[j] == self.sessions@[k];
                lemma_attached_at(s0, j);
            }
            assert(m1 =~= want);
        }
    }
}

/// The entry at an index is the one `attached` gives for its id.
proof fn lemma_attached_at<T>(s: Seq<(MediaSessionId, RtpEntry<T>)>, i: int)
    requires
        0 <= i < s.len(),
        forall|a: int, b: int| 0 <= a < b < s.len() ==> (#[trigger] s[a]).0 != (#[trigger] s[b]).0,
    ensures
        attached(s).contains_key(s[i].0.0),
        attached(s)[s[i].0.0] == (s[i].1.has_sender, s[i].1.has_receiver),
        index_of(s, s[i].0.0) == i,
{
    let id = s[i].0.0;
    assert(s[i].0.0 == id);
    let k = index_of(s, id);
    if k != i {
        if k < i {
            assert(s[k].0 != s[i].0);
        } else {
            assert(s[i].0 != s[k].0);
        }
    }
}

/// Changing the flags at one index changes `attached` at its id alone.
proof fn lemma_attached_update<T>(s: Seq<(MediaSessionId, RtpEntry<T>)>, t: Seq<(MediaSessionId, RtpEntry<T>)>, i: int)
    requires
        0 <= i < s.len(),
        t.len() == s.len(),
        forall|j: int| 0 <= j < s.len() && j != i ==> #[trigger] t[j] == s[j],
        t[i].0 == s[i].0,
        forall|a: int, b: int| 0 <= a < b < s.len() ==> (#[trigger] s[a]).0 != (#[trigger] s[b]).0,
        forall|a: int, b: int| 0 <= a < b < t.len() ==> (#[trigger] t[a]).0 != (#[trigger] t[b]).0,
    ensures
        attached(t) == attached(s).insert(s[i].0.0, (t[i].1.has_sender, t[i].1.has_receiver)),
{
    let want = attached(s).insert(s[i].0.0, (t[i].1.has_sender, t[i].1.has_receiver));
    assert forall|id: u32| #[trigger] attached(t).contains_key(id) <==> want.contains_key(id) by {
        if attached(t).contains_key(id) {
            let k = choose|k: int| 0 <= k < t.len() && (#[trigger] t[k]).0.0 == id;
            if k != i {
                assert(s[k].0.0 == id);
            }
        }
        if want.contains_key(id) && id != s[i].0.0 {
            let k = choose|k: int| 0 <= k < s.len() && (#[trigger] s[k]).0.0 == id;
            assert(t[k].0.0 == id);
        }
        if id == s[i].0.0 {
            assert(t[i].0.0 == id);
        }
    }
    assert forall|id: u32| #[trigger] attached(t).contains_key(id) implies attached(t)[id] == want[id] by {
        let k = index_of(t, id);
        lemma_attached_at(t, k);
        if k != i {
            lemma_attached_at(s, k);
        }
    }
    assert(attached(t) =~= want);
}

/// Pushing a session of a new id adds it to `attached`.
proof fn lemma_attached_push<T>(s: Seq<(MediaSessionId, RtpEntry<T>)>, t: Seq<(MediaSessionId, RtpEntry<T>)>)
    requires
        t.len() == s.len() + 1,
        t.drop_last() == s,
        forall|a: int, b: int| 0 <= a < b < t.len() ==> (#[trigger] t[a]).0 != (#[trigger] t[b]).0,
    ensures
        attached(t) == attached(s).insert(t.last().0.0, (t.last().1.has_sender, t.last().1.has_receiver)),
{
    let n = s.len() as int;
    let want = attached(s).insert(t.last().0.0, (t.last().1.has_sender, t.last().1.has_receiver));
    assert forall|a: int, b: int| 0 <= a < b < s.len() implies (#[trigger] s[a]).0 != (#[trigger] s[b]).0 by {
        assert(s[a] == t[a]);
        assert(s[b] == t[b]);
    }
    assert forall|id: u32| #[trigger] attached(t).contains_key(id) <==> want.contains_key(id) by {
        if attached(t).contains_key(id) {
            let k = choose|k: int| 0 <= k < t.len() && (#[trigger] t[k]).0.0 == id;
            if k < n {
                assert(s[k].0.0 == id);
            }
        }
        if want.contains_key(id) && id != t.last().0.0 {
            let k = choose|k: int| 0 <= k < s.len() && (#[trigger] s[k]).0.0 == id;
            assert(t[k].0.0 == id);
        }
        if id == t.last().0.0 {
            assert(t[n].0.0 == id);
        }
    }
    assert forall|id: u32| #[trigger] attached(t).contains_key(id) implies attached(t)[id] == want[id] by {
        let k = index_of(t, id);
        lemma_attached_at(t, k);
        if k < n {
            assert(s[k] == t[k]);
            lemma_attached_at(s, k);
        }
    }
    assert(attached(t) =~= want);
}

/// Seconds without anything received from the peer after which the call
/// counts as broken.
pub const PEER_SILENCE_LIMIT_SECS: u64 = 5;

/// The peer has been silent for longer than the limit; the silence is given
/// as whole seconds and the nanoseconds beyond them.
pub open spec fn spec_peer_timed_out(silent_secs: u64, silent_nanos: u32) -> bool {
    silent_secs > PEER_SILENCE_LIMIT_SECS || (silent_secs == PEER_SILENCE_LIMIT_SECS && silent_nanos
        > 0)
}

/// Whether a silence of the peer this long ends the call.
pub fn peer_timed_out(silent_secs: u64, silent_nanos: u32) -> (r: bool)
    ensures
        r == spec_peer_timed_out(silent_secs, silent_nanos),
{
    silent_secs > PEER_SILENCE_LIMIT_SECS || (silent_secs == PEER_SILENCE_LIMIT_SECS && silent_nanos > 0)
}

/// What the owner of an RTP session tells its task.
pub enum RtpTaskCommand<S, R> {
    AddSender(S),
    RemoveSender,
    AddReceiver(R),
    RemoveReceiver,
}

/// Whether an RTP task runs on.
#[derive(Debug, Clone, Copy, PartialEq, Eq, Structural)]
pub enum RtpTaskState {
    Running,
    ExitErr,
    ExitOk,
}

/// What an RTP task sends from (`S`) and delivers to (`R`).
pub struct RtpTaskAttachments<S, R> {
    pub sender: Option<S>,
    pub receiver: Option<R>,
    pub state: RtpTaskState,
}

impl<S, R> RtpTaskAttachments<S, R> {
    pub fn new() -> (r: Self)
        ensures
            r.sender is None,
            r.receiver is None,
            r.state == RtpTaskState::Running,
    {
        RtpTaskAttachments { sender: None, receiver: None, state: RtpTaskState::Running }
    }

    /// Takes a command; `None`, when the owner is gone, ends the task
    /// gracefully.
    pub fn handle_command(&mut self, command: Option<RtpTaskCommand<S, R>>)
        ensures
            match command {
                Some(RtpTaskCommand::AddSender(s)) => final(self).sender == Some(s) && final(self).receiver
                    == old(self).receiver && final(self).state == old(self).state,
                Some(RtpTaskCommand::RemoveSender) => final(self).sender is None && final(self).receiver
                    == old(self).receiver && final(self).state == old(self).state,
                Some(RtpTaskCommand::AddReceiver(r)) => final(self).receiver == Some(r) && final(self).sender
                    == old(self).sender && final(self).state == old(self).state,
                Some(RtpTaskCommand::RemoveReceiver) => final(self).receiver is None && final(self).sender
                    == old(self).sender && final(self).state == old(self).state,
                None => final(self).state == RtpTaskState::ExitOk && final(self).sender == old(self).sender
                    && final(self).receiver == old(self).receiver,
            },
    {
        match command {
            Some(RtpTaskCommand::AddSender(s)) => {
                self.sender = Some(s);
            },
            Some(RtpTaskCommand::RemoveSender) => {
                self.sender = None;
            },
            Some(RtpTaskCommand::AddReceiver(r)) => {
                self.receiver = Some(r);
            },
            Some(RtpTaskCommand::RemoveReceiver) => {
                self.receiver = None;
            },
            None => {
                self.state = RtpTaskState::ExitOk;
            },
        }
    }

    /// The length of a datagram read from a socket; a failed read ends the
    /// task with an error.
    pub fn handle_recv_io_result<E>(&mut self, res: Result<usize, E>) -> (r: Option<usize>)
        ensures
            match res {
                Ok(len) => r == Some(len) && final(self).state == old(self).state,
                Err(_) => r is None && final(self).state == RtpTaskState::ExitErr,
            },
            final(self).sender == old(self).sender,
            final(self).receiver == old(self).receiver,
    {
        match res {
            Ok(len) => Some(len),
            Err(_) => {
                self.state = RtpTaskState::ExitErr;
                None
            },
        }
    }
}

} // verus!
