//! Per-connection pump policy. A pump owns one duplex stream plus an
//! outbound and an inbound queue, and multiplexes between them; the loop
//! itself lives with the transport, outside the verified core, but every
//! decision it takes is this table.
use vstd::prelude::*;

verus! {

/// One event observed by a connection pump's multiplexing loop.
#[derive(Clone, Copy, Debug, PartialEq, Eq, Structural)]
pub enum PumpEvent {
    /// A message was pulled from the outbound queue.
    OutboundMessage,
    /// The outbound queue closed: its producer was dropped.
    OutboundClosed,
    /// A complete frame was read from the stream.
    FrameRead,
    /// The inbound queue's consumer is gone.
    InboundClosed,
    /// A read or write on the stream failed.
    IoError,
}

/// What the pump does next.
#[derive(Clone, Copy, Debug, PartialEq, Eq, Structural)]
pub enum PumpAction {
    /// Encode the message and write the frame immediately.
    WriteFrame,
    /// Decode the frame and push it to the inbound queue.
    ForwardFrame,
    /// Stop accepting writes, shut the stream down orderly, exit
    /// successfully.
    ShutdownCleanly,
    /// Exit immediately; no more reads are attempted.
    ExitSilently,
    /// Exit reporting the failure to the owner, which must treat it as a
    /// disconnect.
    ReportDisconnect,
}

/// The pump's termination and dispatch policy: writes and reads never block
/// each other, queue closure means orderly shutdown, an I/O failure means a
/// reported disconnect, and a dropped consumer stops the pump at once.
pub open spec fn pump_policy(e: PumpEvent) -> PumpAction {
    match e {
        PumpEvent::OutboundMessage => PumpAction::WriteFrame,
        PumpEvent::OutboundClosed => PumpAction::ShutdownCleanly,
        PumpEvent::FrameRead => PumpAction::ForwardFrame,
        PumpEvent::InboundClosed => PumpAction::ExitSilently,
        PumpEvent::IoError => PumpAction::ReportDisconnect,
    }
}

/// The decision a pump takes on one observed event.
pub fn pump_step(e: PumpEvent) -> (a: PumpAction)
    ensures
        a == pump_policy(e),
{
    match e {
        PumpEvent::OutboundMessage => PumpAction::WriteFrame,
        PumpEvent::OutboundClosed => PumpAction::ShutdownCleanly,
        PumpEvent::FrameRead => PumpAction::ForwardFrame,
        PumpEvent::InboundClosed => PumpAction::ExitSilently,
        PumpEvent::IoError => PumpAction::ReportDisconnect,
    }
}

} // verus!
