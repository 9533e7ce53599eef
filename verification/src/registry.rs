//! Relay-side peer registry: the table of connected peers and their
//! outbound queues, with join/leave bookkeeping and broadcast fan-out.
//! Each handler both performs its queue sends and returns the list of
//! (destination, message) pairs it attempted, so the fan-out is pinned by
//! the contracts; a failed send is silently dropped, as that peer's own
//! removal event will follow.
use crate::chan::{fresh_peer_id, new_channel, queue_send};
use crate::message::{PeerId, ClientToServerMessage, ServerToClientMessage};
use tokio::sync::mpsc::{UnboundedReceiver, UnboundedSender};
use vstd::prelude::*;

verus! {

/// One registered peer: its identity and the queue the relay broadcasts to.
pub struct RegistryEntry {
    pub id: PeerId,
    pub sender: UnboundedSender<ServerToClientMessage>,
}

/// The relay's table of currently registered peers, in registration order.
pub struct Registry {
    entries: Vec<RegistryEntry>,
}

/// The broadcast plan for one message: every identity in `ids`, in order,
/// paired with the message.
pub open spec fn paired(ids: Seq<PeerId>, m: ServerToClientMessage) -> Seq<
    (PeerId, ServerToClientMessage),
> {
    Seq::new(ids.len(), |i: int| (ids[i], m))
}

impl Registry {
    /// The registered identities, in registration order.
    pub closed spec fn ids(self) -> Seq<PeerId> {
        Seq::new(self.entries@.len(), |i: int| self.entries@[i].id)
    }

    /// Registry invariant: a peer identity appears at most once at any time.
    pub open spec fn wf(self) -> bool {
        self.ids().no_duplicates()
    }

    pub fn new() -> (r: Registry)
        ensures
            r.wf(),
            r.ids() == Seq::<PeerId>::empty(),
    {
        let r = Registry { entries: Vec::new() };
        proof {
            assert(r.ids() =~= Seq::<PeerId>::empty());
        }
        r
    }

    /// The index of `id`'s entry, if it is registered.
    fn find(&self, id: PeerId) -> (r: Option<usize>)
        ensures
            (match r {
                Some(i) => i < self.ids().len() && self.ids()[i as int] == id && (forall|j: int|
                    0 <= j < i ==> self.ids()[j] != id),
                None => !self.ids().contains(id),
            }),
    {
        let mut i: usize = 0;
        while i < self.entries.len()
            invariant
                i <= self.entries.len(),
                forall|j: int| 0 <= j < i ==> self.ids()[j] != id,
            decreases self.entries.len() - i,
        {
            if self.entries[i].id == id {
                proof {
                    assert(self.ids()[i as int] == id);
                }
                return Some(i);
            }
            i += 1;
        }
        None
    }

    pub fn contains(&self, id: PeerId) -> (r: bool)
        ensures
            r == self.ids().contains(id),
    {
        let r = self.find(id);
        proof {
            if r is Some {
                assert(self.ids().contains(id));
            }
        }
        r.is_some()
    }

    /// Attempts to enqueue `m` to every registered peer, in registration
    /// order; failed sends are dropped silently. Returns the attempted
    /// (destination, message) pairs.
    fn broadcast(&self, m: ServerToClientMessage) -> (sent: Vec<(PeerId, ServerToClientMessage)>)
        ensures
            sent@ == paired(self.ids(), m),
    {
        let mut sent: Vec<(PeerId, ServerToClientMessage)> = Vec::new();
        let mut i: usize = 0;
        while i < self.entries.len()
            invariant
                i <= self.entries.len(),
                sent@.len() == i,
                forall|j: int| 0 <= j < i ==> sent@[j] == (self.ids()[j], m),
            decreases self.entries.len() - i,
        {
            let e = &self.entries[i];
            let _delivered = queue_send(&e.sender, m);
            sent.push((e.id, m));
            i += 1;
        }
        proof {
            assert(sent@ =~= paired(self.ids(), m));
        }
        sent
    }

    /// Handles a new connection: queue the peer's handshake, insert its
    /// entry, then broadcast the join to the registry's current value set,
    /// the new entry included.
    pub fn join(&mut self, id: PeerId, sender: UnboundedSender<ServerToClientMessage>) -> (sent:
        Vec<(PeerId, ServerToClientMessage)>)
        requires
            old(self).wf(),
        ensures
            final(self).wf(),
            final(self).ids() == old(self).ids().remove_value(id).push(id),
            !old(self).ids().contains(id) ==> final(self).ids() == old(self).ids().push(id),
            final(self).ids().to_set() == old(self).ids().to_set().insert(id),
            sent@ == seq![(id, ServerToClientMessage::Handshake(id))] + paired(
                final(self).ids(),
                ServerToClientMessage::ClientConnected(id),
            ),
    {
        let ghost s0 = self.ids();
        let _delivered = queue_send(&sender, ServerToClientMessage::Handshake(id));
        let found = self.find(id);
        match found {
            Some(i) => {
                self.entries.remove(i);
                proof {
                    assert(self.ids() =~= s0.remove(i as int));
                    lemma_first_occurrence_remove(s0, id, i as int);
                    lemma_remove_index_contains(s0, i as int);
                }
            },
            None => {
                proof {
                    s0.index_of_first_ensures(id);
                    assert(s0.remove_value(id) == s0);
                }
            },
        }
        let ghost s1 = self.ids();
        self.entries.push(RegistryEntry { id, sender });
        proof {
            let s2 = self.ids();
            assert(s2 =~= s1.push(id));
            assert(forall|j: int| 0 <= j < s1.len() ==> s1[j] != id);
            assert(s2.no_duplicates());
            assert(forall|x: PeerId| s1.contains(x) <==> (s0.contains(x) && x != id));
            assert forall|x: PeerId| s2.contains(x) implies (s0.contains(x) || x == id) by {
                let j = choose|j: int| 0 <= j < s2.len() && s2[j] == x;
                if j < s1.len() {
                    assert(s1[j] == x);
                    assert(s1.contains(x));
                }
            }
            assert forall|x: PeerId| (s0.contains(x) || x == id) implies s2.contains(x) by {
                if x == id {
                    assert(s2[s2.len() - 1] == id);
                } else {
                    assert(s1.contains(x));
                    let j = choose|j: int| 0 <= j < s1.len() && s1[j] == x;
                    assert(s2[j] == x);
                }
            }
            assert(s2.to_set() =~= s0.to_set().insert(id));
        }
        let mut sent: Vec<(PeerId, ServerToClientMessage)> = Vec::new();
        sent.push((id, ServerToClientMessage::Handshake(id)));
        let mut bc = self.broadcast(ServerToClientMessage::ClientConnected(id));
        sent.append(&mut bc);
        proof {
            assert(sent@ =~= seq![(id, ServerToClientMessage::Handshake(id))] + paired(
                self.ids(),
                ServerToClientMessage::ClientConnected(id),
            ));
        }
        sent
    }

    /// Handles one control message from a peer. It has an effect only while
    /// that peer is still registered: `Disconnect` removes the entry and
    /// broadcasts the leave to the remaining peers, `Ping` is a pure
    /// liveness signal, and `PlayerChanged` is broadcast to every registered
    /// peer, the sender included.
    pub fn handle_client_message(&mut self, id: PeerId, m: ClientToServerMessage) -> (sent: Vec<
        (PeerId, ServerToClientMessage),
    >)
        requires
            old(self).wf(),
        ensures
            final(self).wf(),
            !old(self).ids().contains(id) ==> final(self).ids() == old(self).ids() && sent@
                == Seq::<(PeerId, ServerToClientMessage)>::empty(),
            old(self).ids().contains(id) ==> (match m {
                ClientToServerMessage::Disconnect => final(self).ids()
                    == old(self).ids().remove_value(id) && !final(self).ids().contains(id)
                    && final(self).ids().to_set() == old(self).ids().to_set().remove(id) && sent@
                    == paired(
                    final(self).ids(),
                    ServerToClientMessage::ClientDisconnected(id),
                ),
                ClientToServerMessage::Ping => final(self).ids() == old(self).ids() && sent@
                    == Seq::<(PeerId, ServerToClientMessage)>::empty(),
                ClientToServerMessage::PlayerChanged(c) => final(self).ids() == old(self).ids()
                    && sent@ == paired(
                    old(self).ids(),
                    ServerToClientMessage::PlayerChanged(id, c),
                ),
            }),
    {
        let ghost s0 = self.ids();
        let found = self.find(id);
        match found {
            None => Vec::new(),
            Some(i) => {
                proof {
                    assert(s0.contains(id));
                }
                match m {
                    ClientToServerMessage::Disconnect => {
                        self.entries.remove(i);
                        proof {
                            assert(self.ids() =~= s0.remove(i as int));
                            lemma_first_occurrence_remove(s0, id, i as int);
                            lemma_remove_index_contains(s0, i as int);
                            assert(self.ids().to_set() =~= s0.to_set().remove(id));
                        }
                        self.broadcast(ServerToClientMessage::ClientDisconnected(id))
                    },
                    ClientToServerMessage::Ping => Vec::new(),
                    ClientToServerMessage::PlayerChanged(c) => self.broadcast(
                        ServerToClientMessage::PlayerChanged(id, c),
                    ),
                }
            },
        }
    }

    /// One heartbeat tick: broadcast `Ping` to every registered peer. The
    /// registry itself is unchanged.
    pub fn heartbeat(&self) -> (sent: Vec<(PeerId, ServerToClientMessage)>)
        ensures
            sent@ == paired(self.ids(), ServerToClientMessage::Ping),
    {
        self.broadcast(ServerToClientMessage::Ping)
    }

    /// Handles one accepted connection end to end: draws a fresh identity,
    /// creates the peer's queue pair, and joins it to the registry. Returns
    /// the identity, the receiving half for the new connection's pump, and
    /// the attempted sends. The identity is random, so the contract does
    /// not promise it is new; `join` keeps the registry well formed either
    /// way.
    pub fn accept_peer(&mut self) -> (r: (
        PeerId,
        UnboundedReceiver<ServerToClientMessage>,
        Vec<(PeerId, ServerToClientMessage)>,
    ))
        requires
            old(self).wf(),
        ensures
            final(self).wf(),
            final(self).ids() == old(self).ids().remove_value(r.0).push(r.0),
            !old(self).ids().contains(r.0) ==> final(self).ids() == old(self).ids().push(r.0),
            final(self).ids().to_set() == old(self).ids().to_set().insert(r.0),
            r.2@ == seq![(r.0, ServerToClientMessage::Handshake(r.0))] + paired(
                final(self).ids(),
                ServerToClientMessage::ClientConnected(r.0),
            ),
    {
        let id = fresh_peer_id();
        let (tx, rx) = new_channel();
        let sent = self.join(id, tx);
        (id, rx, sent)
    }
}

/// If `i` is the first index holding `id`, removing index `i` is removing
/// `id`'s first occurrence.
proof fn lemma_first_occurrence_remove(s: Seq<PeerId>, id: PeerId, i: int)
    requires
        0 <= i < s.len(),
        s[i] == id,
        forall|j: int| 0 <= j < i ==> s[j] != id,
    ensures
        s.remove_value(id) == s.remove(i),
{
    s.index_of_first_ensures(id);
    assert(s.contains(id));
    match s.index_of_first(id) {
        Some(fi) => {
            if fi < i {
                assert(s[fi] != id);
            }
            if i < fi {
                assert(s[i] != id);
            }
            assert(fi == i);
        },
        None => {
            assert(false);
        },
    }
}

/// Removing index `i` from a duplicate-free sequence removes exactly the
/// value `s[i]` from its membership, and keeps the sequence duplicate-free.
proof fn lemma_remove_index_contains(s: Seq<PeerId>, i: int)
    requires
        0 <= i < s.len(),
        s.no_duplicates(),
    ensures
        s.remove(i).no_duplicates(),
        !s.remove(i).contains(s[i]),
        forall|x: PeerId| s.remove(i).contains(x) <==> (s.contains(x) && x != s[i]),
{
    s.remove_ensures(i);
    let r = s.remove(i);
    assert forall|x: PeerId| r.contains(x) implies (s.contains(x) && x != s[i]) by {
        let j = choose|j: int| 0 <= j < r.len() && r[j] == x;
        if j < i {
            assert(s[j] == x);
        } else {
            assert(s[j + 1] == x);
        }
    }
    assert forall|x: PeerId| s.contains(x) && x != s[i] implies r.contains(x) by {
        let j = choose|j: int| 0 <= j < s.len() && s[j] == x;
        if j < i {
            assert(r[j] == x);
        } else {
            assert(r[j - 1] == x);
        }
    }
    assert forall|a: int, b: int|
        0 <= a < r.len() && 0 <= b < r.len() && a != b implies r[a] != r[b] by {
        let a2: int = if a < i {
            a
        } else {
            a + 1
        };
        let b2: int = if b < i {
            b
        } else {
            b + 1
        };
        assert(r[a] == s[a2] && r[b] == s[b2]);
    }
    if r.contains(s[i]) {
        assert(s[i] != s[i]);
    }
}

// ---------------------------------------------------------------------------
// Laws over sequences of registry events
// ---------------------------------------------------------------------------

/// One membership-changing event in the relay's life: a peer joined, or a
/// peer left (by explicit disconnect or by connection failure, which the
/// relay turns into the same leave).
pub enum RegistryEvent {
    Joined(PeerId),
    Left(PeerId),
}

/// How one event changes the membership set. `join` steps the exec
/// registry's membership by `insert`, and a `Disconnect` steps it by
/// `remove`, as their contracts state; this spec mirrors exactly that.
pub open spec fn apply_event(s: Set<PeerId>, e: RegistryEvent) -> Set<PeerId> {
    match e {
        RegistryEvent::Joined(id) => s.insert(id),
        RegistryEvent::Left(id) => s.remove(id),
    }
}

pub open spec fn apply_events(s: Set<PeerId>, es: Seq<RegistryEvent>) -> Set<PeerId>
    decreases es.len(),
{
    if es.len() == 0 {
        s
    } else {
        apply_event(apply_events(s, es.drop_last()), es.last())
    }
}

/// `id` has joined and has not left or failed since its last join.
pub open spec fn joined_not_left(es: Seq<RegistryEvent>, id: PeerId) -> bool
    decreases es.len(),
{
    if es.len() == 0 {
        false
    } else {
        match es.last() {
            RegistryEvent::Joined(j) => j == id || joined_not_left(es.drop_last(), id),
            RegistryEvent::Left(j) => j != id && joined_not_left(es.drop_last(), id),
        }
    }
}

/// Registry-invariant law: after any sequence of join/leave events applied
/// to an empty registry, the membership is exactly the set of peers that
/// have joined and not yet left or failed.
pub proof fn lemma_registry_membership(es: Seq<RegistryEvent>)
    ensures
        forall|id: PeerId| #[trigger] apply_events(Set::<PeerId>::empty(), es).contains(id)
            <==> joined_not_left(es, id),
    decreases es.len(),
{
    if es.len() != 0 {
        lemma_registry_membership(es.drop_last());
        let prev = apply_events(Set::<PeerId>::empty(), es.drop_last());
        assert forall|id: PeerId| #[trigger] apply_events(Set::<PeerId>::empty(), es).contains(id)
            <==> joined_not_left(es, id) by {
            assert(apply_events(Set::<PeerId>::empty(), es) == apply_event(prev, es.last()));
            assert(prev.contains(id) <==> joined_not_left(es.drop_last(), id));
        }
    }
}

/// Broadcast fan-out law: a broadcast over a well-formed registry that
/// contains peer `b` addresses `b` exactly once, with exactly the broadcast
/// message.
pub proof fn lemma_broadcast_exactly_once(ids: Seq<PeerId>, m: ServerToClientMessage, b: PeerId)
    requires
        ids.no_duplicates(),
        ids.contains(b),
    ensures
        exists|i: int|
            0 <= i < paired(ids, m).len() && paired(ids, m)[i] == (b, m) && (forall|j: int|
                0 <= j < paired(ids, m).len() && j != i ==> (#[trigger] paired(ids, m)[j]).0 != b),
{
    let i = choose|i: int| 0 <= i < ids.len() && ids[i] == b;
    assert(paired(ids, m)[i] == (b, m));
    assert(forall|j: int|
        0 <= j < paired(ids, m).len() && j != i ==> (#[trigger] paired(ids, m)[j]).0 != b);
}

/// Disconnect-propagation law: a broadcast never addresses an absent peer,
/// so once a peer's entry is removed it appears in no later broadcast plan.
pub proof fn lemma_no_broadcast_to_absent(ids: Seq<PeerId>, m: ServerToClientMessage, a: PeerId)
    requires
        !ids.contains(a),
    ensures
        forall|j: int| 0 <= j < paired(ids, m).len() ==> (#[trigger] paired(ids, m)[j]).0 != a,
{
}

} // verus!
