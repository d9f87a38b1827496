use vstd::prelude::*;

verus! {

broadcast use vstd::std_specs::vec::group_vec_axioms, vstd::seq::group_seq_axioms;

/// Why a peer operation failed.
#[derive(Clone, Copy, PartialEq, Eq, Structural, Debug)]
pub enum PeerError {
    /// The process could not be launched.
    SpawnError,
    /// A read, write or termination on a live peer failed.
    PeerIo,
    /// The id names no live peer.
    UnknownPeer,
    /// The peer answered the initialize request with an error.
    HandshakeFailed,
}

/// The set of live peers: their ids in start order. Ids grow with every
/// registration and are never reused, so a stopped peer's id stays dead
/// for the registry's lifetime.
pub struct PeerRegistry {
    next_id: u64,
    peers: Vec<u64>,
}

impl PeerRegistry {
    /// The live ids, in start order.
    pub closed spec fn ids(&self) -> Seq<u64> {
        self.peers@
    }

    /// The id the next registered peer will get.
    pub closed spec fn spec_next_id(&self) -> u64 {
        self.next_id
    }

    /// Every live id was assigned before `next_id`, and no id is live
    /// twice.
    pub closed spec fn wf(&self) -> bool {
        &&& forall|i: int| 0 <= i < self.peers@.len() ==> self.peers@[i] < self.next_id
        &&& forall|i: int, j: int|
            0 <= i < j < self.peers@.len() ==> self.peers@[i] != self.peers@[j]
    }

    pub fn new() -> (r: Self)
        ensures
            r.wf(),
            r.ids() == Seq::<u64>::empty(),
            r.spec_next_id() == 0,
    {
        let r = Self { next_id: 0, peers: Vec::new() };
        proof {
            assert(r.ids() =~= Seq::<u64>::empty());
        }
        r
    }

    /// Whether another peer can still be registered: ids are not yet
    /// exhausted.
    pub fn can_register(&self) -> (r: bool)
        ensures
            r == (self.spec_next_id() < 0xFFFF_FFFF_FFFF_FFFFu64),
    {
        self.next_id < 0xFFFF_FFFF_FFFF_FFFFu64
    }

    /// Registers a freshly started peer and hands out its id: one more
    /// than ever existed, appended in start order, every other peer left
    /// alone.
    pub fn register(&mut self) -> (id: u64)
        requires
            old(self).wf(),
            old(self).spec_next_id() < 0xFFFF_FFFF_FFFF_FFFFu64,
        ensures
            final(self).wf(),
            id == old(self).spec_next_id(),
            final(self).ids() == old(self).ids().push(id),
            final(self).spec_next_id() == id + 1,
            !old(self).ids().contains(id),
    {
        let id = self.next_id;
        self.peers.push(id);
        self.next_id = self.next_id + 1;
        proof {
            if old(self).ids().contains(id) {
                let i = choose|i: int|
                    0 <= i < old(self).ids().len() && old(self).ids()[i] == id;
                assert(old(self).ids()[i] < id);
            }
        }
        id
    }

    /// Whether an id names a live peer.
    pub fn contains(&self, id: u64) -> (r: bool)
        ensures
            r == self.ids().contains(id),
    {
        let mut i: usize = 0;
        while i < self.peers.len()
            invariant
                i <= self.peers@.len(),
                forall|k: int| 0 <= k < i ==> self.peers@[k] != id,
            decreases self.peers@.len() - i,
        {
            if self.peers[i] == id {
                proof {
                    assert(self.ids()[i as int] == id);
                }
                return true;
            }
            i = i + 1;
        }
        false
    }

    /// The position of a live id in start order, the order `stop` keeps.
    pub fn index_of(&self, id: u64) -> (r: Option<usize>)
        ensures
            match r {
                Some(i) => i < self.ids().len() && self.ids()[i as int] == id,
                None => !self.ids().contains(id),
            },
    {
        let mut i: usize = 0;
        while i < self.peers.len()
            invariant
                i <= self.peers@.len(),
                forall|k: int| 0 <= k < i ==> self.peers@[k] != id,
            decreases self.peers@.len() - i,
        {
            if self.peers[i] == id {
                return Some(i);
            }
            i = i + 1;
        }
        None
    }

    /// Removes a stopped peer. The peer is gone afterward; every other
    /// peer keeps its id and its place, and the id is never handed out
    /// again. An id that names no live peer fails as `UnknownPeer` and
    /// changes nothing.
    pub fn remove(&mut self, id: u64) -> (r: Result<(), PeerError>)
        requires
            old(self).wf(),
        ensures
            final(self).wf(),
            r is Ok <==> old(self).ids().contains(id),
            r is Err ==> r == Err::<(), PeerError>(PeerError::UnknownPeer) && *final(self)
                == *old(self),
            !final(self).ids().contains(id),
            forall|p: u64|
                p != id ==> (final(self).ids().contains(p) <==> old(self).ids().contains(p)),
            final(self).spec_next_id() == old(self).spec_next_id(),
            r is Ok ==> final(self).ids() == old(self).ids().remove(
                old(self).ids().index_of(id),
            ),
    {
        let found = self.index_of(id);
        match found {
            None => {
                proof {
                    assert(!final(self).ids().contains(id));
                }
                Err(PeerError::UnknownPeer)
            },
            Some(i) => {
                proof {
                    assert(old(self).ids().contains(id)) by {
                        assert(old(self).ids()[i as int] == id);
                    }
                    assert(old(self).ids().index_of(id) == i as int) by {
                        let fi = old(self).ids().index_of(id);
                        assert(old(self).ids().contains(id));
                        if fi != i as int {
                            assert(old(self).ids()[fi] == id);
                            assert(old(self).ids()[i as int] == id);
                        }
                    }
                }
                self.peers.remove(i);
                proof {
                    let olds = old(self).ids();
                    let news = final(self).ids();
                    assert(news =~= olds.remove(i as int));
                    if news.contains(id) {
                        let k = choose|k: int| 0 <= k < news.len() && news[k] == id;
                        if k < i as int {
                            assert(olds[k] == id);
                        } else {
                            assert(olds[k + 1] == id);
                        }
                    }
                    assert forall|p: u64| p != id implies (news.contains(p) <==> olds.contains(
                        p,
                    )) by {
                        if news.contains(p) {
                            let k = choose|k: int| 0 <= k < news.len() && news[k] == p;
                            if k < i as int {
                                assert(olds[k] == p);
                            } else {
                                assert(olds[k + 1] == p);
                            }
                        }
                        if olds.contains(p) {
                            let k = choose|k: int| 0 <= k < olds.len() && olds[k] == p;
                            if k < i as int {
                                assert(news[k] == p);
                            } else if k > i as int {
                                assert(news[k - 1] == p);
                            }
                        }
                    }
                }
                Ok(())
            },
        }
    }

    /// How many peers are live.
    pub fn len(&self) -> (r: usize)
        ensures
            r == self.ids().len(),
    {
        self.peers.len()
    }
}

/// Stopping one peer touches no other: after removing peer `k` from a
/// well-formed registry, `k` is gone, and every other live peer is still
/// live, at its old place in start order.
pub proof fn lemma_stop_isolates(before: PeerRegistry, after: PeerRegistry, k: u64, i: int)
    requires
        before.wf(),
        0 <= i < before.ids().len(),
        before.ids()[i] == k,
        after.ids() == before.ids().remove(i),
    ensures
        !after.ids().contains(k),
        forall|p: u64| p != k ==> (after.ids().contains(p) <==> before.ids().contains(p)),
        forall|j: int| 0 <= j < i ==> after.ids()[j] == before.ids()[j],
        forall|j: int| i <= j < after.ids().len() ==> after.ids()[j] == before.ids()[j + 1],
{
    let olds = before.ids();
    let news = after.ids();
    if news.contains(k) {
        let q = choose|q: int| 0 <= q < news.len() && news[q] == k;
        if q < i {
            assert(olds[q] == k);
        } else {
            assert(olds[q + 1] == k);
        }
    }
    assert forall|p: u64| p != k implies (news.contains(p) <==> olds.contains(p)) by {
        if news.contains(p) {
            let q = choose|q: int| 0 <= q < news.len() && news[q] == p;
            if q < i {
                assert(olds[q] == p);
            } else {
                assert(olds[q + 1] == p);
            }
        }
        if olds.contains(p) {
            let q = choose|q: int| 0 <= q < olds.len() && olds[q] == p;
            if q < i {
                assert(news[q] == p);
            } else if q > i {
                assert(news[q - 1] == p);
            }
        }
    }
}

/// Where a peer stands between spawn and readiness: pending until the
/// initialize reply is observed.
#[derive(Clone, Copy, PartialEq, Eq, Structural, Debug)]
pub enum PeerState {
    /// Spawned; the initialize reply has not been seen yet.
    Pending,
    /// The initialize reply carried a result: open for traffic.
    Ready,
    /// The initialize reply was an error message.
    Failed,
}

/// What one observed message does to a pending handshake: a response
/// completes it, an error message fails it, anything else leaves it as it
/// was; a settled handshake never moves again.
pub fn handshake_step(state: PeerState, m: &crate::jsonrpc::Message) -> (r: PeerState)
    ensures
        state == PeerState::Pending && (m@ matches crate::jsonrpc::MessageV::Response(_)) ==> r
            == PeerState::Ready,
        state == PeerState::Pending && (m@ matches crate::jsonrpc::MessageV::Error(_)) ==> r
            == PeerState::Failed,
        state == PeerState::Pending && !(m@ matches crate::jsonrpc::MessageV::Response(_)) && !(
        m@ matches crate::jsonrpc::MessageV::Error(_)) ==> r == state,
        state != PeerState::Pending ==> r == state,
{
    match state {
        PeerState::Pending => match m {
            crate::jsonrpc::Message::Response(_) => PeerState::Ready,
            crate::jsonrpc::Message::Error(_) => PeerState::Failed,
            _ => PeerState::Pending,
        },
        s => s,
    }
}

} // verus!
