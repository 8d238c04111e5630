//! The table of live connections.
//!
//! The server owns no socket either. The program around it waits for
//! readiness, does the reading and writing, and tells the server what
//! happened on which token; the server finds the connection, lets it take
//! its step, and says what to do with the socket next.

use crate::client::{
    accepts, after_read, after_send, after_write, fresh_client, lemma_client_steps_preserve_wf,
    ClientState, ClientView, ReadEvent, ReadEventView, Ready, WebSocketClient,
};
use crate::error::CloseReason;
use crate::frame::{FrameView, WebSocketFrame, DEFAULT_MAX_PAYLOAD};
use std::collections::HashMap;
use vstd::prelude::*;

verus! {

broadcast use vstd::std_specs::hash::group_hash_axioms;

/// The token of the listening socket. No connection ever has it.
pub const SERVER_TOKEN: usize = 0;

/// What is to be done with a socket after its event was dispatched.
#[derive(Debug, Clone, Copy, PartialEq, Eq, Structural)]
pub enum Next {
    /// The token is the listener's and it is readable: accept until the
    /// listener would block, and call [`WebSocketServer::accept`] for each
    /// socket.
    Accept,
    /// Register the socket again, for this interest. A registration serves
    /// one event only, so this is asked for after every dispatch that leaves
    /// the connection in the table.
    Rearm(Ready),
    /// The connection is closed and gone from the table: send what is left
    /// to send, then let go of the socket.
    Remove(CloseReason),
    /// Nothing answers to this token, or nothing was to be done.
    Ignore,
}

/// The outcome of one dispatch.
pub struct Dispatch {
    /// The frame that was read for the application, if any.
    pub delivered: Option<WebSocketFrame>,
    /// The bytes to send on the socket, all of them.
    pub outbound: Vec<u8>,
    /// What to do with the socket afterwards.
    pub next: Next,
}

/// A [`Dispatch`] as a mathematical value.
#[verifier::ext_equal]
pub struct DispatchView {
    pub delivered: Option<FrameView>,
    pub outbound: Seq<u8>,
    pub next: Next,
}

impl View for Dispatch {
    type V = DispatchView;

    open spec fn view(&self) -> DispatchView {
        DispatchView {
            delivered: match self.delivered {
                Some(frame) => Some(frame@),
                None => None,
            },
            outbound: self.outbound@,
            next: self.next,
        }
    }
}

/// The server as a mathematical value.
#[verifier::ext_equal]
pub struct ServerView {
    /// The live connections by their tokens.
    pub clients: Map<usize, ClientView>,
    /// The last token handed out.
    pub token_counter: usize,
    /// The ceiling on the payload length that new connections are given.
    pub max_payload: u64,
}

impl ServerView {
    /// What holds of every server: the table is finite; its tokens were all
    /// handed out by the counter and none is the listener's; every
    /// connection in it is sound and none is closed.
    pub open spec fn wf(self) -> bool {
        &&& self.clients.dom().finite()
        &&& forall|t: usize| #[trigger]
            self.clients.contains_key(t) ==> {
                &&& SERVER_TOKEN < t <= self.token_counter
                &&& self.clients[t].wf()
                &&& self.clients[t].state != ClientState::Closed
            }
    }
}

/// What a socket brought, if anything, as a mathematical value.
pub open spec fn brought(input: Option<ReadEvent>) -> Option<ReadEventView> {
    match input {
        Some(event) => Some(event@),
        None => None,
    }
}

/// A dispatch that changes nothing and asks for `next`.
pub open spec fn idle(next: Next) -> DispatchView {
    DispatchView { delivered: None, outbound: Seq::empty(), next }
}

/// One connection's part in a dispatch: if the socket was readable and
/// brought something, the read step; then, if the socket is writable, the
/// write step, which already sees what the read step queued.
pub open spec fn client_step(c: ClientView, events: Ready, input: Option<ReadEventView>) -> (
    ClientView,
    Option<FrameView>,
    Seq<u8>,
) {
    let (read, delivered) = match input {
        Some(event) => if events.readable {
            after_read(c, event)
        } else {
            (c, None)
        },
        None => (c, None),
    };
    let (written, outbound) = if events.writable {
        after_write(read)
    } else {
        (read, Seq::empty())
    };
    (written, delivered, outbound)
}

/// The table after `token` holds `c`, or is rid of it where `c` is closed.
pub open spec fn settled(s: ServerView, token: usize, c: ClientView) -> ServerView {
    if c.state == ClientState::Closed {
        ServerView { clients: s.clients.remove(token), ..s }
    } else {
        ServerView { clients: s.clients.insert(token, c), ..s }
    }
}

/// What is to be done with the socket of `c` after a step.
pub open spec fn next_for(c: ClientView) -> Next {
    match c.closed_by {
        Some(reason) => Next::Remove(reason),
        None => Next::Rearm(c.interest),
    }
}

/// The server after the event `events` on `token`, with `input` as what a
/// readable socket brought, and the outcome of the dispatch.
///
/// On the listener's token the server only asks for the pending sockets to
/// be accepted. A token that no connection has is ignored. Else the
/// connection takes its step; if that closes it, it leaves the table, and
/// if not, its socket is to be registered again for the interest it now has.
pub open spec fn after_ready(
    s: ServerView,
    token: usize,
    events: Ready,
    input: Option<ReadEventView>,
) -> (ServerView, DispatchView) {
    if token == SERVER_TOKEN {
        (s, idle(if events.readable { Next::Accept } else { Next::Ignore }))
    } else if !s.clients.contains_key(token) {
        (s, idle(Next::Ignore))
    } else {
        let (c, delivered, outbound) = client_step(s.clients[token], events, input);
        (settled(s, token, c), DispatchView { delivered, outbound, next: next_for(c) })
    }
}

/// The server after a socket was accepted: the next token is handed out and
/// a fresh connection stands under it. Once the tokens are used up nothing
/// changes.
pub open spec fn after_accept(s: ServerView) -> (ServerView, Option<usize>) {
    if s.token_counter == usize::MAX {
        (s, None)
    } else {
        let token = (s.token_counter + 1) as usize;
        (
            ServerView {
                clients: s.clients.insert(token, fresh_client(s.max_payload)),
                token_counter: token,
                ..s
            },
            Some(token),
        )
    }
}

/// The server after the application handed it `frame` for the connection
/// `token`, and whether the frame was taken: it is, as [`after_send`] says,
/// if there is such a connection and it takes the frame.
pub open spec fn after_send_to(s: ServerView, token: usize, frame: FrameView) -> (ServerView, bool) {
    if s.clients.contains_key(token) && accepts(s.clients[token], frame) {
        (
            ServerView {
                clients: s.clients.insert(token, after_send(s.clients[token], frame)),
                ..s
            },
            true,
        )
    } else {
        (s, false)
    }
}

/// The server after the socket of `token` failed: the connection, if there
/// was one, is gone.
pub open spec fn after_disconnect(s: ServerView, token: usize) -> ServerView {
    ServerView { clients: s.clients.remove(token), ..s }
}

/// The connections of a table as mathematical values.
pub open spec fn client_views(clients: Map<usize, WebSocketClient>) -> Map<usize, ClientView> {
    clients.map_values(|c: WebSocketClient| c@)
}

/// The live connections, each under its token.
pub struct WebSocketServer {
    clients: HashMap<usize, WebSocketClient>,
    token_counter: usize,
    max_payload: u64,
}

impl View for WebSocketServer {
    type V = ServerView;

    closed spec fn view(&self) -> ServerView {
        ServerView {
            clients: client_views(self.clients@),
            token_counter: self.token_counter,
            max_payload: self.max_payload,
        }
    }
}

impl WebSocketServer {
    /// Every server is sound: see [`ServerView::wf`].
    #[verifier::type_invariant]
    spec fn sound(self) -> bool {
        self@.wf()
    }

    /// A server without connections, which gives its connections the default
    /// ceiling on the payload length.
    pub fn new() -> (r: WebSocketServer)
        ensures
            r@ == (ServerView {
                clients: Map::empty(),
                token_counter: 0,
                max_payload: DEFAULT_MAX_PAYLOAD,
            }),
            r@.wf(),
    {
        Self::with_max_payload(DEFAULT_MAX_PAYLOAD)
    }

    /// A server without connections, which gives its connections
    /// `max_payload` as the ceiling on the payload length.
    pub fn with_max_payload(max_payload: u64) -> (r: WebSocketServer)
        ensures
            r@ == (ServerView { clients: Map::empty(), token_counter: 0, max_payload }),
            r@.wf(),
    {
        let clients: HashMap<usize, WebSocketClient> = HashMap::new();
        assert(client_views(clients@) =~= Map::empty());
        WebSocketServer { clients, token_counter: 0, max_payload }
    }

    /// The number of live connections.
    pub fn len(&self) -> (r: usize)
        ensures
            r == self@.clients.len(),
    {
        assert(self@.clients.dom() =~= self.clients@.dom());
        self.clients.len()
    }

    /// Whether a connection has this token.
    pub fn contains(&self, token: usize) -> (r: bool)
        ensures
            r == self@.clients.contains_key(token),
    {
        self.clients.contains_key(&token)
    }

    /// The state of the connection with this token, if there is one.
    pub fn state(&self, token: usize) -> (r: Option<ClientState>)
        ensures
            r == (if self@.clients.contains_key(token) {
                Some(self@.clients[token].state)
            } else {
                None
            }),
    {
        match self.clients.get(&token) {
            Some(client) => Some(client.state()),
            None => None,
        }
    }

    /// The interest of the connection with this token, if there is one: what
    /// its socket is to be registered for.
    pub fn interest(&self, token: usize) -> (r: Option<Ready>)
        ensures
            r == (if self@.clients.contains_key(token) {
                Some(self@.clients[token].interest)
            } else {
                None
            }),
    {
        match self.clients.get(&token) {
            Some(client) => Some(client.interest()),
            None => None,
        }
    }

    /// The number of bytes that the connection with this token has received
    /// and not yet read a frame from, if there is such a connection.
    pub fn buffered(&self, token: usize) -> (r: Option<usize>)
        ensures
            match r {
                Some(n) => self@.clients.contains_key(token) && n == self@.clients[token].inbound.len(),
                None => !self@.clients.contains_key(token),
            },
    {
        match self.clients.get(&token) {
            Some(client) => Some(client.buffered()),
            None => None,
        }
    }

    /// Moves the server out, for a step to hand back its successor. Until
    /// then an empty server stands in its place.
    fn take(&mut self) -> (taken: WebSocketServer)
        ensures
            taken@ == old(self)@,
            taken@.wf(),
    {
        let mut taken = Self::with_max_payload(self.max_payload);
        core::mem::swap(self, &mut taken);
        proof {
            use_type_invariant(&taken);
        }
        taken
    }

    /// A socket was accepted: returns the token of the new connection, whose
    /// socket is to be registered for reading, edge-triggered and for one
    /// event, or `None` once the tokens are used up. See [`after_accept`].
    pub fn accept(&mut self) -> (token: Option<usize>)
        ensures
            final(self)@ == after_accept(old(self)@).0,
            token == after_accept(old(self)@).1,
            final(self)@.wf(),
    {
        proof {
            use_type_invariant(&*self);
        }
        if self.token_counter == usize::MAX {
            return None;
        }
        let WebSocketServer { clients, token_counter, max_payload } = self.take();
        let mut clients = clients;
        let new_token = token_counter + 1;
        clients.insert(new_token, WebSocketClient::with_max_payload(max_payload));
        assert(client_views(clients@) =~= after_accept(old(self)@).0.clients);
        *self = WebSocketServer { clients, token_counter: new_token, max_payload };
        Some(new_token)
    }

    /// Queues `frame` on the connection `token`, if there is one and it
    /// takes the frame. Returns whether it did; the socket is then to be
    /// registered for the connection's new interest. See [`after_send_to`].
    pub fn send(&mut self, token: usize, frame: WebSocketFrame) -> (taken: bool)
        ensures
            final(self)@ == after_send_to(old(self)@, token, frame@).0,
            taken == after_send_to(old(self)@, token, frame@).1,
            final(self)@.wf(),
    {
        let WebSocketServer { clients, token_counter, max_payload } = self.take();
        let mut clients = clients;
        let taken = match clients.remove(&token) {
            Some(client) => {
                let mut client = client;
                let taken = client.send(frame);
                clients.insert(token, client);
                taken
            },
            None => false,
        };
        assert(client_views(clients@) =~= after_send_to(old(self)@, token, frame@).0.clients);
        *self = WebSocketServer { clients, token_counter, max_payload };
        taken
    }

    /// The socket of `token` failed: its connection is dropped. Returns
    /// whether there was one. See [`after_disconnect`].
    pub fn disconnect(&mut self, token: usize) -> (found: bool)
        ensures
            final(self)@ == after_disconnect(old(self)@, token),
            found == old(self)@.clients.contains_key(token),
            final(self)@.wf(),
    {
        let WebSocketServer { clients, token_counter, max_payload } = self.take();
        let mut clients = clients;
        let found = clients.remove(&token).is_some();
        assert(client_views(clients@) =~= old(self)@.clients.remove(token));
        *self = WebSocketServer { clients, token_counter, max_payload };
        found
    }

    /// Dispatches the event `events` on `token`; `input` is what the socket
    /// brought if it was readable. See [`after_ready`].
    pub fn ready(&mut self, token: usize, events: Ready, input: Option<ReadEvent>) -> (r: Dispatch)
        ensures
            final(self)@ == after_ready(old(self)@, token, events, brought(input)).0,
            r@ == after_ready(old(self)@, token, events, brought(input)).1,
            final(self)@.wf(),
    {
        if token == SERVER_TOKEN {
            proof {
                use_type_invariant(&*self);
            }
            let next = if events.is_readable() { Next::Accept } else { Next::Ignore };
            return Dispatch { delivered: None, outbound: Vec::new(), next };
        }
        let WebSocketServer { clients, token_counter, max_payload } = self.take();
        let mut clients = clients;
        let dispatch = match clients.remove(&token) {
            None => Dispatch { delivered: None, outbound: Vec::new(), next: Next::Ignore },
            Some(client) => {
                let mut client = client;
                let delivered = match input {
                    Some(event) => if events.is_readable() {
                        client.read(event)
                    } else {
                        None
                    },
                    None => None,
                };
                let outbound = if events.is_writable() { client.write() } else { Vec::new() };
                let next = match client.closed_by() {
                    Some(reason) => Next::Remove(reason),
                    None => {
                        let interest = client.interest();
                        clients.insert(token, client);
                        Next::Rearm(interest)
                    },
                };
                Dispatch { delivered, outbound, next }
            },
        };
        assert(client_views(clients@) =~= after_ready(
            old(self)@,
            token,
            events,
            brought(input),
        ).0.clients);
        *self = WebSocketServer { clients, token_counter, max_payload };
        dispatch
    }
}

/// A dispatch concerns one connection: whatever happens on `token`, every
/// other connection stays in the table as it was, and none appears.
pub proof fn lemma_dispatch_is_isolated(
    s: ServerView,
    token: usize,
    events: Ready,
    input: Option<ReadEventView>,
    frame: FrameView,
    other: usize,
)
    requires
        other != token,
    ensures
        after_ready(s, token, events, input).0.clients.contains_key(other)
            == s.clients.contains_key(other),
        after_ready(s, token, events, input).0.clients[other] == s.clients[other],
        after_send_to(s, token, frame).0.clients.contains_key(other) == s.clients.contains_key(
            other,
        ),
        after_send_to(s, token, frame).0.clients[other] == s.clients[other],
        after_disconnect(s, token).clients.contains_key(other) == s.clients.contains_key(other),
        after_disconnect(s, token).clients[other] == s.clients[other],
{
}

/// A token is handed out once: the one that `accept` gives is above every
/// token handed out before, so no connection has it, and none ever had. No
/// step lowers the counter.
pub proof fn lemma_tokens_are_fresh(
    s: ServerView,
    token: usize,
    events: Ready,
    input: Option<ReadEventView>,
    frame: FrameView,
)
    requires
        s.wf(),
    ensures
        after_accept(s).1 matches Some(fresh) ==> {
            &&& fresh > s.token_counter
            &&& fresh != SERVER_TOKEN
            &&& !s.clients.contains_key(fresh)
            &&& after_accept(s).0.clients[fresh] == fresh_client(s.max_payload)
            &&& forall|t: usize| t != fresh ==> s.clients.contains_key(t) == after_accept(
                s,
            ).0.clients.contains_key(t) && s.clients[t] == after_accept(s).0.clients[t]
        },
        after_accept(s).0.token_counter >= s.token_counter,
        after_ready(s, token, events, input).0.token_counter == s.token_counter,
        after_send_to(s, token, frame).0.token_counter == s.token_counter,
        after_disconnect(s, token).token_counter == s.token_counter,
{
    if s.token_counter < usize::MAX {
        let fresh = (s.token_counter + 1) as usize;
    }
}

/// Every step keeps the table sound: its connections are sound, none of
/// them is closed, and a connection that closes leaves at once.
pub proof fn lemma_server_steps_preserve_wf(
    s: ServerView,
    token: usize,
    events: Ready,
    input: Option<ReadEventView>,
    frame: FrameView,
)
    requires
        s.wf(),
    ensures
        after_accept(s).0.wf(),
        after_ready(s, token, events, input).0.wf(),
        after_send_to(s, token, frame).0.wf(),
        after_disconnect(s, token).wf(),
        after_ready(s, token, events, input).1.next is Remove ==> !after_ready(
            s,
            token,
            events,
            input,
        ).0.clients.contains_key(token),
{
    if token != SERVER_TOKEN && s.clients.contains_key(token) {
        let c = s.clients[token];
        match input {
            Some(event) => {
                lemma_client_steps_preserve_wf(c, event, frame);
                lemma_client_steps_preserve_wf(after_read(c, event).0, event, frame);
            },
            None => {},
        }
        lemma_client_steps_preserve_wf(c, ReadEventView::Data(Seq::empty()), frame);
    }
}

} // verus!
