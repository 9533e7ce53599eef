use vstd::prelude::*;

verus! {

/// A process-unique 128-bit peer token, assigned by the relay at connect
/// time. Immutable once assigned.
#[derive(Clone, Copy, Debug, PartialEq, Eq, Hash, Structural)]
pub struct PeerId {
    pub bits: u128,
}

/// A peer's published state. The relay never interprets these fields, only
/// forwards them; each scalar is carried as the raw bit pattern of a 32-bit
/// IEEE-754 float, so the core itself stays float-free. The presentation
/// layer converts to and from real floats at the boundary.
#[derive(Clone, Copy, Debug, PartialEq, Eq, Structural)]
pub struct Circle {
    pub position_x: u32,
    pub position_y: u32,
    pub color_r: u32,
    pub color_g: u32,
    pub color_b: u32,
    pub radius: u32,
}

/// A message travelling peer -> relay.
#[derive(Clone, Copy, Debug, PartialEq, Eq, Structural)]
pub enum ClientToServerMessage {
    Disconnect,
    Ping,
    PlayerChanged(Circle),
}

/// A message travelling relay -> peer.
#[derive(Clone, Copy, Debug, PartialEq, Eq, Structural)]
pub enum ServerToClientMessage {
    Handshake(PeerId),
    ClientConnected(PeerId),
    ClientDisconnected(PeerId),
    Ping,
    PlayerChanged(PeerId, Circle),
}

/// Terminal state surfaced to the facade's caller: the underlying
/// connection has permanently torn down.
#[derive(Clone, Copy, Debug, PartialEq, Eq, Structural)]
pub struct Disconnected;

/// Codec-level failures, fatal to the owning connection.
#[derive(Clone, Copy, Debug, PartialEq, Eq, Structural)]
pub enum CodecError {
    /// The stream ended before a complete frame was read.
    TruncatedStream,
    /// The payload bytes do not deserialize to the expected message shape.
    MalformedPayload,
}

/// The handshake contract was broken: the first frame a newly connected
/// peer receives was not a handshake. Fatal to construction.
#[derive(Clone, Copy, Debug, PartialEq, Eq, Structural)]
pub struct ProtocolViolation;

/// The outcome of one non-blocking poll of an inbound event queue.
#[derive(Clone, Copy, Debug, PartialEq, Eq, Structural)]
pub enum RecvPoll {
    /// A buffered message, removed from the queue in arrival order.
    Received(ServerToClientMessage),
    /// Nothing is buffered right now; the queue is still open.
    Empty,
    /// The sending half is gone and the queue has been drained.
    Closed,
}

} // verus!
