//! A WebSocket server core: the frame codec, the opening handshake, the
//! per-connection state machine and the table of live connections.
//!
//! Nothing here touches a socket. The embedding program reads and writes
//! bytes and reports what happened; the types in this crate decide what
//! follows.
//!
//! - [`frame`] holds frames and their codec, [`wire`] what is proved of the
//!   wire format, [`mask`] the masking transform, [`bigendian`] the length
//!   fields and [`opcode`] the frame kinds.
//! - [`handshake`] computes the accept key and the upgrade response from
//!   the headers that [`headers`] collects.
//! - [`client`] is the state machine of one connection and [`server`] the
//!   table that dispatches readiness events to the connections.
//! - [`error`] names what can go wrong.

pub mod bigendian;
pub mod client;
pub mod error;
pub mod frame;
pub mod handshake;
pub mod headers;
pub mod mask;
pub mod opcode;
pub mod server;
pub mod wire;

pub use client::{ClientState, HandshakeProgress, ReadEvent, Ready, WebSocketClient};
pub use error::{CloseReason, FrameError, HandshakeError, ProtocolError};
pub use frame::{WebSocketFrame, WebSocketFrameHeader};
pub use handshake::{build_response, gen_key, key_fits};
pub use headers::{HeaderStore, HttpParser};
pub use opcode::OpCode;
pub use server::{Dispatch, Next, WebSocketServer, SERVER_TOKEN};
