//! One connection: its state machine.
//!
//! The connection owns no socket. The program that does reports what the
//! socket brought (the tokenizer's findings during the handshake, bytes
//! afterwards) and asks for the bytes to send when the socket can take them.
//! Each report is one step of the state machine; [`after_handshake`],
//! [`after_data`], [`after_send`], [`after_write`] and [`after_failure`] say
//! what a step does, and the methods of [`WebSocketClient`] take it.

use crate::error::{CloseReason, FrameError, HandshakeError, ProtocolError};
use crate::frame::{decoding, encoding, plain_frame, FrameView, WebSocketFrame, DEFAULT_MAX_PAYLOAD};
use crate::handshake::{
    accept_input, accept_key, build_response, gen_key, key_fits, response_bytes,
    DIGEST_INPUT_LIMIT,
};
use crate::headers::{HeaderStore, HttpParser, HttpParserView, KEY_HEADER};
use crate::opcode::OpCode;
use vstd::prelude::*;

verus! {

/// A set of readiness conditions: what a socket is ready for, or what a
/// connection wants to be told about.
#[derive(Debug, Clone, Copy, PartialEq, Eq, Structural)]
pub struct Ready {
    pub readable: bool,
    pub writable: bool,
}

/// Readable, not writable.
pub open spec fn readable_only() -> Ready {
    Ready { readable: true, writable: false }
}

/// Writable, not readable.
pub open spec fn writable_only() -> Ready {
    Ready { readable: false, writable: true }
}

/// Readable and writable.
pub open spec fn both() -> Ready {
    Ready { readable: true, writable: true }
}

/// Neither readable nor writable.
pub open spec fn neither() -> Ready {
    Ready { readable: false, writable: false }
}

impl Ready {
    /// The empty set.
    pub fn empty() -> (r: Ready)
        ensures
            r == neither(),
    {
        Ready { readable: false, writable: false }
    }

    /// Readable alone.
    pub fn readable() -> (r: Ready)
        ensures
            r == readable_only(),
    {
        Ready { readable: true, writable: false }
    }

    /// Writable alone.
    pub fn writable() -> (r: Ready)
        ensures
            r == writable_only(),
    {
        Ready { readable: false, writable: true }
    }

    /// Whether readable is in the set.
    pub fn is_readable(&self) -> (r: bool)
        ensures
            r == self.readable,
    {
        self.readable
    }

    /// Whether writable is in the set.
    pub fn is_writable(&self) -> (r: bool)
        ensures
            r == self.writable,
    {
        self.writable
    }

    /// Whether the set is empty.
    pub fn is_empty(&self) -> (r: bool)
        ensures
            r == (*self == neither()),
    {
        !self.readable && !self.writable
    }

    /// Adds what is in `other`.
    pub fn insert(&mut self, other: Ready)
        ensures
            *final(self) == (Ready {
                readable: old(self).readable || other.readable,
                writable: old(self).writable || other.writable,
            }),
    {
        self.readable = self.readable || other.readable;
        self.writable = self.writable || other.writable;
    }

    /// Takes out what is in `other`.
    pub fn remove(&mut self, other: Ready)
        ensures
            *final(self) == (Ready {
                readable: old(self).readable && !other.readable,
                writable: old(self).writable && !other.writable,
            }),
    {
        self.readable = self.readable && !other.readable;
        self.writable = self.writable && !other.writable;
    }
}

/// Where a connection stands.
#[derive(Debug, Clone, Copy, PartialEq, Eq, Structural)]
pub enum ClientState {
    /// The upgrade request is being read.
    AwaitingHandshake,
    /// The request asked for an upgrade; the response is still to be sent.
    HandshakeResponse,
    /// Frames are exchanged.
    Connected,
    /// The connection is over. Nothing leads out of this state.
    Closed,
}

/// What the tokenizer reports after it was fed the bytes that arrived.
pub enum HandshakeProgress {
    /// The header section has not ended yet.
    Partial,
    /// The header section has ended. `upgrade` says whether the request asks
    /// for an upgrade; `headers` are the headers it carried.
    Complete { upgrade: bool, headers: HeaderStore },
}

/// A [`HandshakeProgress`] as a mathematical value.
#[verifier::ext_equal]
pub enum HandshakeProgressView {
    Partial,
    Complete { upgrade: bool, headers: Map<Seq<char>, Seq<char>> },
}

impl View for HandshakeProgress {
    type V = HandshakeProgressView;

    open spec fn view(&self) -> HandshakeProgressView {
        match self {
            HandshakeProgress::Partial => HandshakeProgressView::Partial,
            HandshakeProgress::Complete { upgrade, headers } => HandshakeProgressView::Complete {
                upgrade: *upgrade,
                headers: headers@,
            },
        }
    }
}

impl HandshakeProgress {
    /// Sums up where the tokenizer stands after it was fed, with `upgrade` as
    /// its word on whether the request asks for an upgrade. Once the header
    /// section has ended the headers are taken out of `parser`, which starts
    /// afresh; until then `parser` is left alone.
    pub fn from_parser(parser: &mut HttpParser, upgrade: bool) -> (r: HandshakeProgress)
        ensures
            r@ == (if old(parser)@.complete {
                HandshakeProgressView::Complete { upgrade, headers: old(parser)@.headers }
            } else {
                HandshakeProgressView::Partial
            }),
            final(parser)@ == (if old(parser)@.complete {
                HttpParserView { current_key: None, headers: Map::empty(), complete: false }
            } else {
                old(parser)@
            }),
    {
        if parser.complete {
            let headers = parser.take_headers();
            HandshakeProgress::Complete { upgrade, headers }
        } else {
            HandshakeProgress::Partial
        }
    }
}

/// What a readable socket brought.
pub enum ReadEvent {
    /// During the handshake: the tokenizer's report on the bytes read.
    Handshake(HandshakeProgress),
    /// After the handshake: the bytes read.
    Data(Vec<u8>),
}

/// A [`ReadEvent`] as a mathematical value.
#[verifier::ext_equal]
pub enum ReadEventView {
    Handshake(HandshakeProgressView),
    Data(Seq<u8>),
}

impl View for ReadEvent {
    type V = ReadEventView;

    open spec fn view(&self) -> ReadEventView {
        match self {
            ReadEvent::Handshake(progress) => ReadEventView::Handshake(progress@),
            ReadEvent::Data(bytes) => ReadEventView::Data(bytes@),
        }
    }
}

/// A connection as a mathematical value.
#[verifier::ext_equal]
pub struct ClientView {
    pub state: ClientState,
    /// What the connection wants to be told about.
    pub interest: Ready,
    /// The headers of the upgrade request.
    pub headers: Map<Seq<char>, Seq<char>>,
    /// The frames that wait to be sent, the oldest first.
    pub outgoing: Seq<FrameView>,
    /// The bytes received that no frame has been read from yet.
    pub inbound: Seq<u8>,
    /// The peer asked to close: once the queue is flushed, the connection is.
    pub closing: bool,
    /// The ceiling on the payload length of a received frame.
    pub max_payload: u64,
    /// Why the connection was closed, once it is.
    pub closed_by: Option<CloseReason>,
}

impl ClientView {
    /// What holds of every connection:
    /// every queued frame can travel; a reason is recorded exactly when the
    /// connection is closed; and the interest follows the state. During the
    /// handshake the connection listens for the request and then waits to
    /// respond. Once connected it listens, and wants to write exactly while
    /// frames are queued; when closing it only waits to flush. A closed
    /// connection holds nothing and wants nothing.
    pub open spec fn wf(self) -> bool {
        &&& forall|i: int| 0 <= i < self.outgoing.len() ==> (#[trigger] self.outgoing[i]).wf()
        &&& (self.state == ClientState::Closed) == (self.closed_by is Some)
        &&& match self.state {
            ClientState::AwaitingHandshake => {
                &&& self.interest == readable_only()
                &&& self.outgoing.len() == 0
                &&& self.inbound.len() == 0
                &&& !self.closing
            },
            ClientState::HandshakeResponse => {
                &&& self.interest == writable_only()
                &&& self.outgoing.len() == 0
                &&& self.inbound.len() == 0
                &&& !self.closing
            },
            ClientState::Connected => if self.closing {
                self.interest == writable_only() && self.outgoing.len() > 0
            } else {
                self.interest.readable && self.interest.writable == (self.outgoing.len() > 0)
            },
            ClientState::Closed => {
                &&& self.interest == neither()
                &&& self.outgoing.len() == 0
                &&& self.inbound.len() == 0
                &&& !self.closing
            },
        }
    }
}

/// A connection that was just accepted.
pub open spec fn fresh_client(max_payload: u64) -> ClientView {
    ClientView {
        state: ClientState::AwaitingHandshake,
        interest: readable_only(),
        headers: Map::empty(),
        outgoing: Seq::empty(),
        inbound: Seq::empty(),
        closing: false,
        max_payload,
        closed_by: None,
    }
}

/// `v` closed for `reason`: the queue and the buffered bytes are dropped and
/// nothing is of interest any more.
pub open spec fn closed(v: ClientView, reason: CloseReason) -> ClientView {
    ClientView {
        state: ClientState::Closed,
        interest: neither(),
        outgoing: Seq::empty(),
        inbound: Seq::empty(),
        closing: false,
        closed_by: Some(reason),
        ..v
    }
}

/// The bytes of a queue of frames, the oldest first.
pub open spec fn wire_bytes(frames: Seq<FrameView>) -> Seq<u8>
    decreases frames.len(),
{
    if frames.len() == 0 {
        Seq::empty()
    } else {
        wire_bytes(frames.drop_last()) + encoding(frames.last())
    }
}

/// The connection after the tokenizer's report. Only a connection that
/// awaits its handshake listens to it. An unfinished header section changes
/// nothing. A finished one that asks for an upgrade hands over its headers
/// and turns the interest to writing; one that does not closes the
/// connection.
pub open spec fn after_handshake(v: ClientView, progress: HandshakeProgressView) -> ClientView {
    if v.state != ClientState::AwaitingHandshake {
        v
    } else {
        match progress {
            HandshakeProgressView::Partial => v,
            HandshakeProgressView::Complete { upgrade, headers } => if upgrade {
                ClientView {
                    state: ClientState::HandshakeResponse,
                    interest: writable_only(),
                    headers,
                    ..v
                }
            } else {
                closed(v, CloseReason::Protocol(ProtocolError::NoUpgrade))
            },
        }
    }
}

/// The connection after `bytes` arrived, and the frame that is handed to the
/// application, if any. Only a connected connection that is not closing
/// reads. The bytes join those buffered, and one frame is read from the
/// front. A short read keeps the bytes for later. A protocol error closes
/// the connection with nothing sent. A close frame is answered with a close
/// frame, after which the connection only waits to flush; a ping is
/// answered with a pong of the same payload; any other frame goes to the
/// application.
pub open spec fn after_data(v: ClientView, bytes: Seq<u8>) -> (ClientView, Option<FrameView>) {
    if v.state != ClientState::Connected || v.closing {
        (v, None)
    } else {
        let buffered = v.inbound + bytes;
        match decoding(buffered, v.max_payload) {
            Err(FrameError::Incomplete) => (ClientView { inbound: buffered, ..v }, None),
            Err(FrameError::Protocol(e)) => (closed(v, CloseReason::Protocol(e)), None),
            Ok((frame, used)) => {
                let rest = buffered.subrange(used as int, buffered.len() as int);
                match frame.header.opcode {
                    OpCode::ConnectionClose => (
                        ClientView {
                            inbound: rest,
                            outgoing: v.outgoing.push(
                                plain_frame(OpCode::ConnectionClose, Seq::empty()),
                            ),
                            interest: writable_only(),
                            closing: true,
                            ..v
                        },
                        None,
                    ),
                    OpCode::Ping => (
                        ClientView {
                            inbound: rest,
                            outgoing: v.outgoing.push(plain_frame(OpCode::Pong, frame.payload)),
                            interest: both(),
                            ..v
                        },
                        None,
                    ),
                    _ => (ClientView { inbound: rest, ..v }, Some(frame)),
                }
            },
        }
    }
}

/// The connection after its socket was readable and brought `event`, and
/// the frame that is handed to the application, if any: the tokenizer's
/// report is taken as [`after_handshake`] says, bytes as [`after_data`]
/// says.
pub open spec fn after_read(v: ClientView, event: ReadEventView) -> (ClientView, Option<FrameView>) {
    match event {
        ReadEventView::Handshake(progress) => (after_handshake(v, progress), None),
        ReadEventView::Data(bytes) => after_data(v, bytes),
    }
}

/// Whether a connection takes `frame` into its queue: it is connected, not
/// closing, and the frame can travel.
pub open spec fn accepts(v: ClientView, frame: FrameView) -> bool {
    v.state == ClientState::Connected && !v.closing && frame.wf()
}

/// The connection after the application handed it `frame` to send: the frame
/// joins the queue and writing becomes of interest, if the connection takes
/// it; else nothing changes.
pub open spec fn after_send(v: ClientView, frame: FrameView) -> ClientView {
    if accepts(v, frame) {
        ClientView { outgoing: v.outgoing.push(frame), interest: both(), ..v }
    } else {
        v
    }
}

/// The connection after it answered the upgrade request, and the bytes of
/// the answer. Without a key, or with one too long to hash, the connection
/// closes and nothing is sent. Else the response carries the accept key, the
/// connection is connected and listens.
pub open spec fn after_write_handshake(v: ClientView) -> (ClientView, Seq<u8>) {
    if v.state != ClientState::HandshakeResponse {
        (v, Seq::empty())
    } else if !v.headers.contains_key(KEY_HEADER@) {
        (closed(v, CloseReason::Handshake(HandshakeError::MissingKey)), Seq::empty())
    } else if accept_input(v.headers[KEY_HEADER@]).len() >= DIGEST_INPUT_LIMIT {
        (closed(v, CloseReason::Handshake(HandshakeError::KeyTooLong)), Seq::empty())
    } else {
        (
            ClientView { state: ClientState::Connected, interest: readable_only(), ..v },
            response_bytes(accept_key(v.headers[KEY_HEADER@])),
        )
    }
}

/// The connection after its socket became writable, and the bytes to send.
/// A pending handshake is answered. A connected connection sends its whole
/// queue, the oldest frame first, and then listens again, or is closed if
/// the peer had asked for that. In any other state nothing happens.
pub open spec fn after_write(v: ClientView) -> (ClientView, Seq<u8>) {
    match v.state {
        ClientState::HandshakeResponse => after_write_handshake(v),
        ClientState::Connected => if v.closing {
            (closed(v, CloseReason::Finished), wire_bytes(v.outgoing))
        } else {
            (
                ClientView { outgoing: Seq::empty(), interest: readable_only(), ..v },
                wire_bytes(v.outgoing),
            )
        },
        _ => (v, Seq::empty()),
    }
}

/// The connection after its socket failed: closed, unless it was already.
pub open spec fn after_failure(v: ClientView) -> ClientView {
    if v.state == ClientState::Closed {
        v
    } else {
        closed(v, CloseReason::Io)
    }
}

/// Every step keeps a sound connection sound.
pub proof fn lemma_client_steps_preserve_wf(v: ClientView, event: ReadEventView, frame: FrameView)
    requires
        v.wf(),
    ensures
        after_read(v, event).0.wf(),
        after_read(v, event).1 matches Some(delivered) ==> delivered.wf(),
        after_send(v, frame).wf(),
        after_write(v).0.wf(),
        after_failure(v).wf(),
{
    match event {
        ReadEventView::Handshake(progress) => {},
        ReadEventView::Data(bytes) => {
            crate::wire::lemma_decoded_is_well_formed(v.inbound + bytes, v.max_payload);
        },
    }
}

/// Nothing leads out of the closed state: whatever is reported to a closed
/// connection, it stays as it is, hands nothing to the application and has
/// nothing to send.
pub proof fn lemma_closed_is_terminal(v: ClientView, event: ReadEventView, frame: FrameView)
    requires
        v.state == ClientState::Closed,
    ensures
        after_read(v, event) == (v, None::<FrameView>),
        after_send(v, frame) == v,
        after_write(v) == (v, Seq::<u8>::empty()),
        after_failure(v) == v,
{
}

/// A protocol error ends the connection without a word: the connection is
/// closed for that error, nothing is handed to the application, and there is
/// nothing left to send, not even what was queued before.
pub proof fn lemma_protocol_error_closes_silently(v: ClientView, bytes: Seq<u8>, e: ProtocolError)
    requires
        v.state == ClientState::Connected,
        !v.closing,
        decoding(v.inbound + bytes, v.max_payload) == Err::<(FrameView, nat), FrameError>(
            FrameError::Protocol(e),
        ),
    ensures
        after_data(v, bytes).0 == closed(v, CloseReason::Protocol(e)),
        after_data(v, bytes).1 is None,
        after_write(after_data(v, bytes).0).1 == Seq::<u8>::empty(),
{
}

/// A short read changes nothing but the buffer: the bytes are kept, and the
/// state, the interest and the queue stay as they were.
pub proof fn lemma_short_read_waits(v: ClientView, bytes: Seq<u8>)
    requires
        v.state == ClientState::Connected,
        !v.closing,
        decoding(v.inbound + bytes, v.max_payload) == Err::<(FrameView, nat), FrameError>(
            FrameError::Incomplete,
        ),
    ensures
        after_data(v, bytes) == (ClientView { inbound: v.inbound + bytes, ..v }, None::<FrameView>),
{
}

/// The bytes of a queue begin with those of its oldest frame, and the bytes
/// of the younger frames follow.
pub proof fn lemma_wire_bytes_oldest_first(frames: Seq<FrameView>)
    requires
        frames.len() > 0,
    ensures
        wire_bytes(frames) == encoding(frames.first()) + wire_bytes(frames.drop_first()),
    decreases frames.len(),
{
    if frames.len() == 1 {
        assert(frames.drop_last() =~= Seq::<FrameView>::empty());
        assert(frames.drop_first() =~= Seq::<FrameView>::empty());
        assert(wire_bytes(frames.drop_last()) =~= Seq::<u8>::empty());
    } else {
        lemma_wire_bytes_oldest_first(frames.drop_last());
        assert(frames.drop_last().drop_first() =~= frames.drop_first().drop_last());
        assert(frames.drop_last().first() == frames.first());
        assert(frames.drop_first().last() == frames.last());
    }
}

/// What a connection sends is read back in the order in which it was
/// queued: a reader of the bytes of a queue gets the oldest frame, takes up
/// exactly its bytes, and is left with the bytes of the rest of the queue.
pub proof fn lemma_queue_reads_back_in_order(frames: Seq<FrameView>, max_payload: u64)
    requires
        frames.len() > 0,
        forall|i: int|
            0 <= i < frames.len() ==> (#[trigger] frames[i]).wf() && frames[i].payload.len()
                <= max_payload,
    ensures
        decoding(wire_bytes(frames), max_payload) == Ok::<(FrameView, nat), FrameError>(
            (frames.first(), encoding(frames.first()).len()),
        ),
        wire_bytes(frames).subrange(
            encoding(frames.first()).len() as int,
            wire_bytes(frames).len() as int,
        ) == wire_bytes(frames.drop_first()),
{
    let oldest = frames.first();
    let rest = wire_bytes(frames.drop_first());
    lemma_wire_bytes_oldest_first(frames);
    crate::wire::lemma_round_trip_in_any_tier(
        oldest,
        crate::frame::minimal_indicator(oldest.payload.len()),
        rest,
        max_payload,
    );
    crate::wire::lemma_encoding_length_tier(oldest);
    assert((encoding(oldest) + rest).subrange(
        encoding(oldest).len() as int,
        (encoding(oldest) + rest).len() as int,
    ) =~= rest);
}

/// The frames of a queue as mathematical values.
pub open spec fn views(frames: Seq<WebSocketFrame>) -> Seq<FrameView> {
    frames.map_values(|f: WebSocketFrame| f@)
}

/// One connection. See [`ClientView`] for what it holds.
pub struct WebSocketClient {
    headers: HeaderStore,
    interest: Ready,
    state: ClientState,
    outgoing: Vec<WebSocketFrame>,
    inbound: Vec<u8>,
    closing: bool,
    max_payload: u64,
    closed_by: Option<CloseReason>,
}

impl View for WebSocketClient {
    type V = ClientView;

    closed spec fn view(&self) -> ClientView {
        ClientView {
            state: self.state,
            interest: self.interest,
            headers: self.headers@,
            outgoing: views(self.outgoing@),
            inbound: self.inbound@,
            closing: self.closing,
            max_payload: self.max_payload,
            closed_by: self.closed_by,
        }
    }
}

impl WebSocketClient {
    /// Every connection is sound: see [`ClientView::wf`].
    #[verifier::type_invariant]
    spec fn sound(self) -> bool {
        self@.wf()
    }

    /// A connection that was just accepted, with the default ceiling on the
    /// payload length.
    pub fn new() -> (r: WebSocketClient)
        ensures
            r@ == fresh_client(DEFAULT_MAX_PAYLOAD),
            r@.wf(),
    {
        Self::with_max_payload(DEFAULT_MAX_PAYLOAD)
    }

    /// A connection that was just accepted, with `max_payload` as the ceiling
    /// on the payload length of the frames it reads.
    pub fn with_max_payload(max_payload: u64) -> (r: WebSocketClient)
        ensures
            r@ == fresh_client(max_payload),
            r@.wf(),
    {
        WebSocketClient {
            headers: HeaderStore::new(),
            interest: Ready::readable(),
            state: ClientState::AwaitingHandshake,
            outgoing: Vec::new(),
            inbound: Vec::new(),
            closing: false,
            max_payload,
            closed_by: None,
        }
    }

    /// Where the connection stands.
    pub fn state(&self) -> (r: ClientState)
        ensures
            r == self@.state,
    {
        self.state
    }

    /// What the connection wants to be told about: its socket is to be
    /// registered for this.
    pub fn interest(&self) -> (r: Ready)
        ensures
            r == self@.interest,
    {
        self.interest
    }

    /// The headers of the upgrade request.
    pub fn headers(&self) -> (r: &HeaderStore)
        ensures
            r@ == self@.headers,
    {
        &self.headers
    }

    /// The number of frames that wait to be sent.
    pub fn pending(&self) -> (r: usize)
        ensures
            r == self@.outgoing.len(),
    {
        self.outgoing.len()
    }

    /// The number of bytes received that no frame has been read from yet.
    pub fn buffered(&self) -> (r: usize)
        ensures
            r == self@.inbound.len(),
    {
        self.inbound.len()
    }

    /// Whether the peer asked to close.
    pub fn is_closing(&self) -> (r: bool)
        ensures
            r == self@.closing,
    {
        self.closing
    }

    /// Why the connection was closed, once it is.
    pub fn closed_by(&self) -> (r: Option<CloseReason>)
        ensures
            r == self@.closed_by,
    {
        self.closed_by
    }

    /// The socket was readable and `event` is what it brought. During the
    /// handshake the tokenizer's report counts, afterwards the bytes; an
    /// event of the other kind is ignored. Returns the frame that is meant
    /// for the application, if one was read. See [`after_read`].
    pub fn read(&mut self, event: ReadEvent) -> (delivered: Option<WebSocketFrame>)
        ensures
            final(self)@ == after_read(old(self)@, event@).0,
            match delivered {
                Some(frame) => after_read(old(self)@, event@).1 == Some(frame@),
                None => after_read(old(self)@, event@).1 is None,
            },
            final(self)@.wf(),
    {
        match event {
            ReadEvent::Handshake(progress) => {
                self.read_handshake(progress);
                None
            },
            ReadEvent::Data(bytes) => self.read_data(bytes),
        }
    }

    /// Takes the tokenizer's report on the upgrade request: see
    /// [`after_handshake`].
    pub fn read_handshake(&mut self, progress: HandshakeProgress)
        ensures
            final(self)@ == after_handshake(old(self)@, progress@),
            final(self)@.wf(),
    {
        let next = self.take().with_handshake(progress);
        *self = next;
    }

    /// Takes the bytes that arrived on the upgraded connection and reads one
    /// frame: see [`after_data`].
    pub fn read_data(&mut self, bytes: Vec<u8>) -> (delivered: Option<WebSocketFrame>)
        ensures
            final(self)@ == after_data(old(self)@, bytes@).0,
            match delivered {
                Some(frame) => after_data(old(self)@, bytes@).1 == Some(frame@),
                None => after_data(old(self)@, bytes@).1 is None,
            },
            final(self)@.wf(),
    {
        let (next, delivered) = self.take().with_data(bytes);
        *self = next;
        delivered
    }

    /// Queues `frame` for sending, if the connection takes it: see
    /// [`after_send`]. Returns whether it did.
    pub fn send(&mut self, frame: WebSocketFrame) -> (taken: bool)
        ensures
            taken == accepts(old(self)@, frame@),
            final(self)@ == after_send(old(self)@, frame@),
            final(self)@.wf(),
    {
        let (next, taken) = self.take().with_frame(frame);
        *self = next;
        taken
    }

    /// The socket is writable: returns the bytes to send on it, all of which
    /// are to be written. See [`after_write`].
    pub fn write(&mut self) -> (bytes: Vec<u8>)
        ensures
            final(self)@ == after_write(old(self)@).0,
            bytes@ == after_write(old(self)@).1,
            final(self)@.wf(),
    {
        let (next, bytes) = self.take().written();
        *self = next;
        bytes
    }

    /// Answers the upgrade request: returns the response to send, or closes
    /// the connection where the request cannot be answered. See
    /// [`after_write_handshake`].
    pub fn write_handshake(&mut self) -> (bytes: Vec<u8>)
        ensures
            final(self)@ == after_write_handshake(old(self)@).0,
            bytes@ == after_write_handshake(old(self)@).1,
            final(self)@.wf(),
    {
        let (next, bytes) = self.take().answered();
        *self = next;
        bytes
    }

    /// The socket failed: the connection is closed. See [`after_failure`].
    pub fn fail(&mut self)
        ensures
            final(self)@ == after_failure(old(self)@),
            final(self)@.wf(),
    {
        let next = self.take().failed();
        *self = next;
    }

    /// Moves the connection out, for a step to hand back its successor.
    /// Until then a fresh connection stands in its place.
    fn take(&mut self) -> (taken: WebSocketClient)
        ensures
            taken@ == old(self)@,
            taken@.wf(),
    {
        let mut taken = Self::with_max_payload(self.max_payload);
        core::mem::swap(self, &mut taken);
        proof {
            use_type_invariant(&taken);
        }
        taken
    }

    /// The connection closed for `reason`.
    fn closed_for(self, reason: CloseReason) -> (r: WebSocketClient)
        ensures
            r@ == closed(self@, reason),
    {
        WebSocketClient {
            state: ClientState::Closed,
            interest: Ready::empty(),
            outgoing: Vec::new(),
            inbound: Vec::new(),
            closing: false,
            closed_by: Some(reason),
            ..self
        }
    }

    /// The step of [`after_handshake`].
    fn with_handshake(self, progress: HandshakeProgress) -> (r: WebSocketClient)
        requires
            self@.wf(),
        ensures
            r@ == after_handshake(self@, progress@),
            r@.wf(),
    {
        match self.state {
            ClientState::AwaitingHandshake => {},
            _ => {
                return self;
            },
        }
        match progress {
            HandshakeProgress::Partial => self,
            HandshakeProgress::Complete { upgrade, headers } => {
                if upgrade {
                    WebSocketClient {
                        state: ClientState::HandshakeResponse,
                        interest: Ready::writable(),
                        headers,
                        ..self
                    }
                } else {
                    self.closed_for(CloseReason::Protocol(ProtocolError::NoUpgrade))
                }
            },
        }
    }

    /// The step of [`after_data`].
    fn with_data(self, bytes: Vec<u8>) -> (r: (WebSocketClient, Option<WebSocketFrame>))
        requires
            self@.wf(),
        ensures
            r.0@ == after_data(self@, bytes@).0,
            match r.1 {
                Some(frame) => after_data(self@, bytes@).1 == Some(frame@),
                None => after_data(self@, bytes@).1 is None,
            },
            r.0@.wf(),
    {
        match self.state {
            ClientState::Connected => {},
            _ => {
                return (self, None);
            },
        }
        if self.closing {
            return (self, None);
        }
        let WebSocketClient {
            headers,
            interest,
            state,
            outgoing,
            inbound,
            closing,
            max_payload,
            closed_by,
        } = self;
        let mut inbound = inbound;
        let mut outgoing = outgoing;
        let mut arrived = bytes;
        inbound.append(&mut arrived);
        proof {
            crate::wire::lemma_decoded_is_well_formed(inbound@, max_payload);
        }
        match WebSocketFrame::read(inbound.as_slice(), max_payload) {
            Err(FrameError::Incomplete) => (
                WebSocketClient {
                    headers,
                    interest,
                    state,
                    outgoing,
                    inbound,
                    closing,
                    max_payload,
                    closed_by,
                },
                None,
            ),
            Err(FrameError::Protocol(e)) => (
                WebSocketClient {
                    headers,
                    interest: Ready::empty(),
                    state: ClientState::Closed,
                    outgoing: Vec::new(),
                    inbound: Vec::new(),
                    closing: false,
                    max_payload,
                    closed_by: Some(CloseReason::Protocol(e)),
                },
                None,
            ),
            Ok((frame, used)) => {
                let rest = inbound.split_off(used);
                match frame.get_opcode() {
                    OpCode::ConnectionClose => {
                        outgoing.push(WebSocketFrame::close());
                        assert(views(outgoing@) =~= self@.outgoing.push(
                            plain_frame(OpCode::ConnectionClose, Seq::empty()),
                        ));
                        (
                            WebSocketClient {
                                headers,
                                interest: Ready::writable(),
                                state,
                                outgoing,
                                inbound: rest,
                                closing: true,
                                max_payload,
                                closed_by,
                            },
                            None,
                        )
                    },
                    OpCode::Ping => {
                        let WebSocketFrame { payload, .. } = frame;
                        outgoing.push(WebSocketFrame::pong(payload));
                        assert(views(outgoing@) =~= self@.outgoing.push(
                            plain_frame(OpCode::Pong, payload@),
                        ));
                        let mut interest = interest;
                        interest.insert(Ready::writable());
                        (
                            WebSocketClient {
                                headers,
                                interest,
                                state,
                                outgoing,
                                inbound: rest,
                                closing,
                                max_payload,
                                closed_by,
                            },
                            None,
                        )
                    },
                    _ => (
                        WebSocketClient {
                            headers,
                            interest,
                            state,
                            outgoing,
                            inbound: rest,
                            closing,
                            max_payload,
                            closed_by,
                        },
                        Some(frame),
                    ),
                }
            },
        }
    }

    /// The step of [`after_send`].
    fn with_frame(self, frame: WebSocketFrame) -> (r: (WebSocketClient, bool))
        requires
            self@.wf(),
        ensures
            r.0@ == after_send(self@, frame@),
            r.1 == accepts(self@, frame@),
            r.0@.wf(),
    {
        let connected = match self.state {
            ClientState::Connected => true,
            _ => false,
        };
        if connected && !self.closing && frame.is_well_formed() {
            let WebSocketClient {
                headers,
                interest,
                state,
                outgoing,
                inbound,
                closing,
                max_payload,
                closed_by,
            } = self;
            let mut outgoing = outgoing;
            outgoing.push(frame);
            assert(views(outgoing@) =~= self@.outgoing.push(frame@));
            let mut interest = interest;
            interest.insert(Ready::writable());
            (
                WebSocketClient {
                    headers,
                    interest,
                    state,
                    outgoing,
                    inbound,
                    closing,
                    max_payload,
                    closed_by,
                },
                true,
            )
        } else {
            (self, false)
        }
    }

    /// The step of [`after_write`].
    fn written(self) -> (r: (WebSocketClient, Vec<u8>))
        requires
            self@.wf(),
        ensures
            r.0@ == after_write(self@).0,
            r.1@ == after_write(self@).1,
            r.0@.wf(),
    {
        match self.state {
            ClientState::HandshakeResponse => self.answered(),
            ClientState::Connected => {
                let bytes = self.queued_bytes();
                if self.closing {
                    (self.closed_for(CloseReason::Finished), bytes)
                } else {
                    (
                        WebSocketClient { outgoing: Vec::new(), interest: Ready::readable(), ..self },
                        bytes,
                    )
                }
            },
            _ => (self, Vec::new()),
        }
    }

    /// The bytes of the queue, the oldest frame first.
    fn queued_bytes(&self) -> (bytes: Vec<u8>)
        requires
            self@.wf(),
        ensures
            bytes@ == wire_bytes(self@.outgoing),
    {
        let mut out: Vec<u8> = Vec::new();
        let mut i: usize = 0;
        let ghost queue = self@.outgoing;
        while i < self.outgoing.len()
            invariant
                i <= self.outgoing.len(),
                queue == self@.outgoing,
                queue.len() == self.outgoing.len(),
                forall|j: int| 0 <= j < queue.len() ==> (#[trigger] queue[j]).wf(),
                out@ == wire_bytes(queue.subrange(0, i as int)),
            decreases self.outgoing.len() - i,
        {
            assert(self.outgoing[i as int]@ == queue[i as int]);
            let mut bytes = self.outgoing[i].write();
            out.append(&mut bytes);
            proof {
                let next = queue.subrange(0, i + 1);
                assert(next.drop_last() =~= queue.subrange(0, i as int));
            }
            i += 1;
        }
        assert(queue.subrange(0, i as int) =~= queue);
        out
    }

    /// The step of [`after_write_handshake`].
    fn answered(self) -> (r: (WebSocketClient, Vec<u8>))
        requires
            self@.wf(),
        ensures
            r.0@ == after_write_handshake(self@).0,
            r.1@ == after_write_handshake(self@).1,
            r.0@.wf(),
    {
        match self.state {
            ClientState::HandshakeResponse => {},
            _ => {
                return (self, Vec::new());
            },
        }
        let answer = match self.headers.get(KEY_HEADER) {
            None => Err(HandshakeError::MissingKey),
            Some(key) => {
                if key_fits(key) {
                    let accept = gen_key(key);
                    Ok(build_response(accept.as_str()))
                } else {
                    Err(HandshakeError::KeyTooLong)
                }
            },
        };
        match answer {
            Ok(bytes) => (
                WebSocketClient {
                    state: ClientState::Connected,
                    interest: Ready::readable(),
                    ..self
                },
                bytes,
            ),
            Err(e) => (self.closed_for(CloseReason::Handshake(e)), Vec::new()),
        }
    }

    /// The step of [`after_failure`].
    fn failed(self) -> (r: WebSocketClient)
        requires
            self@.wf(),
        ensures
            r@ == after_failure(self@),
            r@.wf(),
    {
        match self.state {
            ClientState::Closed => self,
            _ => self.closed_for(CloseReason::Io),
        }
    }
}

} // verus!
