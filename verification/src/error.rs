//! What can go wrong on a connection.
//!
//! Only a short read can be waited out. A handshake error, a protocol error
//! and an I/O error each end the connection they occur on, and no other.

use vstd::prelude::*;

verus! {

/// The peer broke the protocol. The connection is closed and nothing more is
/// sent on it.
#[derive(Debug, Clone, Copy, PartialEq, Eq, Structural)]
pub enum ProtocolError {
    /// The opcode bits hold this value, which stands for no known opcode.
    InvalidOpcode(u8),
    /// A reserved bit is set although no extension was negotiated.
    ReservedBits,
    /// The payload length, given here, exceeds the ceiling.
    PayloadTooLarge(u64),
    /// The request ended its header section without asking for an upgrade.
    NoUpgrade,
}

/// The upgrade request cannot be answered.
#[derive(Debug, Clone, Copy, PartialEq, Eq, Structural)]
pub enum HandshakeError {
    /// The request carries no `Sec-WebSocket-Key`.
    MissingKey,
    /// The key is longer than the hasher can take.
    KeyTooLong,
}

/// Why no frame came out of a byte stream.
#[derive(Debug, Clone, Copy, PartialEq, Eq, Structural)]
pub enum FrameError {
    /// More bytes are needed: the stream is a proper prefix of what may
    /// still become a frame. Nothing was consumed, and the caller tries
    /// again when more bytes have arrived.
    Incomplete,
    /// The stream cannot be read any further.
    Protocol(ProtocolError),
}

/// Why a connection was closed.
#[derive(Debug, Clone, Copy, PartialEq, Eq, Structural)]
pub enum CloseReason {
    /// The handshake failed.
    Handshake(HandshakeError),
    /// The peer broke the protocol.
    Protocol(ProtocolError),
    /// Reading from or writing to the socket failed.
    Io,
    /// The peer asked to close, and the answer has been handed out.
    Finished,
}

impl FrameError {
    /// Whether the error can be waited out.
    pub fn is_recoverable(&self) -> (r: bool)
        ensures
            r == (*self == FrameError::Incomplete),
    {
        match self {
            FrameError::Incomplete => true,
            FrameError::Protocol(_) => false,
        }
    }
}

} // verus!
