//! Client facade: the only interface the presentation layer touches.
//! Non-blocking submit of local state changes, non-blocking poll of remote
//! events, and the locally assigned peer identity.
use crate::chan::{clone_sender, fresh_peer_id, new_channel, poll_queue, queue_send};
use crate::message::{
    ClientToServerMessage, Disconnected, PeerId, ProtocolViolation, RecvPoll, ServerToClientMessage,
};
use crate::registry::Registry;
use tokio::sync::mpsc::{UnboundedReceiver, UnboundedSender};
use vstd::prelude::*;

verus! {

/// A peer's handle on its connection: the identity assigned during
/// construction, the queue toward the relay, and the queue of events that
/// arrived from the relay.
pub struct Client {
    id: PeerId,
    to_server: UnboundedSender<(ClientToServerMessage, PeerId)>,
    from_server: UnboundedReceiver<ServerToClientMessage>,
}

/// How one poll outcome surfaces to the facade's caller: a buffered message
/// in arrival order, nothing while the queue is idle, or the sticky
/// `Disconnected` error once the connection has permanently torn down.
pub open spec fn poll_result(p: RecvPoll) -> Option<Result<ServerToClientMessage, Disconnected>> {
    match p {
        RecvPoll::Received(m) => Some(Ok(m)),
        RecvPoll::Empty => None,
        RecvPoll::Closed => Some(Err(Disconnected)),
    }
}

/// Maps one poll outcome to what `get_message` hands the caller.
pub fn classify_poll(p: RecvPoll) -> (r: Option<Result<ServerToClientMessage, Disconnected>>)
    ensures
        r == poll_result(p),
{
    match p {
        RecvPoll::Received(m) => Some(Ok(m)),
        RecvPoll::Empty => None,
        RecvPoll::Closed => Some(Err(Disconnected)),
    }
}

/// Maps a queue-submit outcome to the facade's result: delivered, or the
/// connection has permanently torn down.
pub fn classify_submit(delivered: bool) -> (r: Result<(), Disconnected>)
    ensures
        delivered <==> r == Ok::<(), Disconnected>(()),
        !delivered <==> r == Err::<(), Disconnected>(Disconnected),
{
    if delivered {
        Ok(())
    } else {
        Err(Disconnected)
    }
}

/// The remote peer's automatic reply to an inbound event: a relay `Ping` is
/// answered with the peer's own `Ping` as a liveness signal; nothing else
/// is answered.
pub fn heartbeat_reply(m: &ServerToClientMessage) -> (r: Option<ClientToServerMessage>)
    ensures
        r == (match *m {
            ServerToClientMessage::Ping => Some(ClientToServerMessage::Ping),
            _ => None::<ClientToServerMessage>,
        }),
{
    match m {
        ServerToClientMessage::Ping => Some(ClientToServerMessage::Ping),
        _ => None,
    }
}

/// Checks the handshake contract: the first frame a newly connected peer
/// receives must be `Handshake(id)`; any other first message is a fatal
/// protocol violation aborting construction.
pub fn expect_handshake(first: &ServerToClientMessage) -> (r: Result<PeerId, ProtocolViolation>)
    ensures
        (match *first {
            ServerToClientMessage::Handshake(id) => r == Ok::<PeerId, ProtocolViolation>(id),
            _ => r == Err::<PeerId, ProtocolViolation>(ProtocolViolation),
        }),
{
    match first {
        ServerToClientMessage::Handshake(id) => Ok(*id),
        _ => Err(ProtocolViolation),
    }
}

impl Client {
    /// The identity assigned during construction.
    pub closed spec fn spec_id(self) -> PeerId {
        self.id
    }

    /// Read access to the facade's assigned identity.
    pub fn id(&self) -> (r: PeerId)
        ensures
            r == self.spec_id(),
    {
        self.id
    }

    /// Enqueues one outbound message without blocking; fails with
    /// `Disconnected` once the underlying connection has permanently torn
    /// down. Whether the relay side is still alive depends on other tasks,
    /// so which outcome comes back cannot be promised here.
    pub fn send_message(&self, message: ClientToServerMessage) -> (r: Result<(), Disconnected>)
        ensures
            r == Ok::<(), Disconnected>(()) || r == Err::<(), Disconnected>(Disconnected),
    {
        let delivered = queue_send(&self.to_server, (message, self.id));
        classify_submit(delivered)
    }

    /// Polls the inbound queue without blocking: `None` when nothing is
    /// buffered, `Some(Ok(msg))` per buffered message in arrival order,
    /// `Some(Err(Disconnected))` once the connection has permanently torn
    /// down. The queue's state depends on other tasks; the mapping from the
    /// poll outcome is `classify_poll`'s contract.
    pub fn get_message(&mut self) -> (r: Option<Result<ServerToClientMessage, Disconnected>>)
        ensures
            final(self).spec_id() == old(self).spec_id(),
    {
        let p = poll_queue(&mut self.from_server);
        classify_poll(p)
    }
}

/// Remote-role construction, after the transport is connected and the first
/// frame is decoded: requires that frame to be a handshake, builds the
/// facade around a fresh queue pair, and hands back the two queue ends the
/// connection pump drives (outbound messages to write, inbound events to
/// fill).
pub fn connect_core(first: &ServerToClientMessage) -> (r: Result<
    (
        Client,
        UnboundedReceiver<(ClientToServerMessage, PeerId)>,
        UnboundedSender<ServerToClientMessage>,
    ),
    ProtocolViolation,
>)
    ensures
        (match *first {
            ServerToClientMessage::Handshake(id) => r matches Ok(parts) && parts.0.spec_id()
                == id,
            _ => r matches Err(e) && e == ProtocolViolation,
        }),
{
    let id = match expect_handshake(first) {
        Ok(id) => id,
        Err(e) => {
            return Err(e);
        },
    };
    let (to_server, from_client) = new_channel();
    let (to_client, from_server) = new_channel();
    Ok((Client { id, to_server, from_server }, from_client, to_client))
}

/// Relay-role construction of the embedded local peer: self-assigns an
/// identity and registers it with an in-process queue pair, so local
/// traffic never serializes through the wire codec. Returns the facade, the
/// registry seeded with exactly the local peer, a clone of the relay's
/// inbox sender (for connection pumps the accept loop spawns), and the
/// inbox receiver the relay event loop drains.
pub fn create_local_core() -> (r: (
    Client,
    Registry,
    UnboundedSender<(ClientToServerMessage, PeerId)>,
    UnboundedReceiver<(ClientToServerMessage, PeerId)>,
))
    ensures
        r.1.wf(),
        r.1.ids() == seq![r.0.spec_id()],
{
    let (to_server, from_clients) = new_channel();
    let (to_client, from_server) = new_channel();
    let mut registry = Registry::new();
    let id = fresh_peer_id();
    let _sent = registry.join(id, to_client);
    proof {
        let e = Seq::<PeerId>::empty();
        e.index_of_first_ensures(id);
        assert(registry.ids() =~= seq![id]);
    }
    let to_server_clone = clone_sender(&to_server);
    (Client { id, to_server, from_server }, registry, to_server_clone, from_clients)
}

} // verus!
