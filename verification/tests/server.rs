use chat::client::{ClientState, HandshakeProgress, ReadEvent, Ready, WebSocketClient};
use chat::error::{CloseReason, ProtocolError};
use chat::frame::WebSocketFrame;
use chat::headers::HeaderStore;
use chat::opcode::OpCode;
use chat::server::{Next, WebSocketServer, SERVER_TOKEN};

const RESPONSE: &str = "HTTP/1.1 101 Switching Protocols\r\n\
                        Connection: Upgrade\r\n\
                        Sec-WebSocket-Accept: s3pPLMBiTxaQ9kYGzzhZRbK+xOo=\r\n\
                        Upgrade: websocket\r\n\r\n";

fn upgrade() -> Option<ReadEvent> {
    let mut headers = HeaderStore::new();
    headers.insert("Sec-WebSocket-Key".to_string(), "dGhlIHNhbXBsZSBub25jZQ==".to_string());
    Some(ReadEvent::Handshake(HandshakeProgress::Complete { upgrade: true, headers }))
}

fn data(code: OpCode, payload: &[u8]) -> Option<ReadEvent> {
    Some(ReadEvent::Data(WebSocketFrame::new_masked(code, payload.to_vec(), [9, 8, 7, 6]).write()))
}

fn readable() -> Ready {
    Ready::readable()
}

fn writable() -> Ready {
    Ready::writable()
}

fn both() -> Ready {
    Ready { readable: true, writable: true }
}

fn connect(server: &mut WebSocketServer) -> usize {
    let token = server.accept().unwrap();
    let d = server.ready(token, readable(), upgrade());
    assert_eq!(d.next, Next::Rearm(writable()));
    let d = server.ready(token, writable(), None);
    assert_eq!(d.outbound, RESPONSE.as_bytes().to_vec());
    assert_eq!(d.next, Next::Rearm(readable()));
    token
}

#[test]
fn tokens_count_up_from_one() {
    let mut server = WebSocketServer::new();
    assert_eq!(server.len(), 0);
    let a = server.accept().unwrap();
    let b = server.accept().unwrap();
    let c = server.accept().unwrap();
    assert_eq!((a, b, c), (1, 2, 3));
    assert_ne!(a, SERVER_TOKEN);
    assert_eq!(server.len(), 3);
    assert!(server.contains(a) && server.contains(b) && server.contains(c));
    assert!(!server.contains(SERVER_TOKEN));
    assert_eq!(server.state(b), Some(ClientState::AwaitingHandshake));
    assert_eq!(server.interest(b), Some(Ready::readable()));
    assert_eq!(server.state(4), None);
    assert_eq!(server.interest(4), None);
}

#[test]
fn tokens_are_not_reused() {
    let mut server = WebSocketServer::new();
    let a = server.accept().unwrap();
    let b = server.accept().unwrap();
    assert!(server.disconnect(b));
    assert!(server.disconnect(a));
    assert_eq!(server.len(), 0);
    let c = server.accept().unwrap();
    assert_eq!(c, 3);
    assert!(!server.contains(a) && !server.contains(b));
}

#[test]
fn listener_token_asks_for_accept() {
    let mut server = WebSocketServer::new();
    let d = server.ready(SERVER_TOKEN, readable(), None);
    assert_eq!(d.next, Next::Accept);
    assert!(d.outbound.is_empty() && d.delivered.is_none());
    let d = server.ready(SERVER_TOKEN, writable(), None);
    assert_eq!(d.next, Next::Ignore);
    assert_eq!(server.len(), 0);
}

#[test]
fn unknown_token_is_ignored() {
    let mut server = WebSocketServer::new();
    let token = connect(&mut server);
    let d = server.ready(token + 1, both(), data(OpCode::TextFrame, b"x"));
    assert_eq!(d.next, Next::Ignore);
    assert!(d.delivered.is_none());
    assert!(d.outbound.is_empty());
    assert_eq!(server.len(), 1);
    assert!(!server.send(token + 1, WebSocketFrame::from("x")));
    assert!(!server.disconnect(token + 1));
}

#[test]
fn dispatch_reads_and_rearms() {
    let mut server = WebSocketServer::new();
    let token = connect(&mut server);
    let d = server.ready(token, readable(), data(OpCode::TextFrame, b"hello"));
    assert_eq!(d.delivered.unwrap().payload, b"hello".to_vec());
    assert_eq!(d.next, Next::Rearm(readable()));
    assert!(server.send(token, WebSocketFrame::from("hello")));
    assert_eq!(server.interest(token), Some(both()));
    let d = server.ready(token, writable(), None);
    assert_eq!(d.outbound, vec![0x81, 5, b'h', b'e', b'l', b'l', b'o']);
    assert_eq!(d.next, Next::Rearm(readable()));
}

#[test]
fn readable_without_input_reads_nothing() {
    let mut server = WebSocketServer::new();
    let token = connect(&mut server);
    let d = server.ready(token, readable(), None);
    assert!(d.delivered.is_none());
    assert_eq!(d.next, Next::Rearm(readable()));
    // input without readiness is not read either
    let d = server.ready(token, writable(), data(OpCode::TextFrame, b"x"));
    assert!(d.delivered.is_none());
    assert_eq!(d.next, Next::Rearm(readable()));
}

#[test]
fn read_comes_before_write_in_one_dispatch() {
    let mut server = WebSocketServer::new();
    let token = connect(&mut server);
    // the pong that the read queues is flushed by the write of the same dispatch
    let d = server.ready(token, both(), data(OpCode::Ping, b"p"));
    assert!(d.delivered.is_none());
    assert_eq!(d.outbound, vec![0x8A, 1, b'p']);
    assert_eq!(d.next, Next::Rearm(readable()));
}

#[test]
fn close_frame_removes_the_connection_after_the_answer() {
    let mut server = WebSocketServer::new();
    let token = connect(&mut server);
    let d = server.ready(token, readable(), data(OpCode::ConnectionClose, &[]));
    assert_eq!(d.next, Next::Rearm(writable()));
    assert!(server.contains(token));
    let d = server.ready(token, writable(), None);
    assert_eq!(d.outbound, vec![0x88, 0]);
    assert_eq!(d.next, Next::Remove(CloseReason::Finished));
    assert!(!server.contains(token));
    assert_eq!(server.len(), 0);
    // a late event for the token is ignored
    let d = server.ready(token, readable(), data(OpCode::TextFrame, b"x"));
    assert_eq!(d.next, Next::Ignore);
}

#[test]
fn protocol_error_removes_the_connection_and_sends_nothing() {
    let mut server = WebSocketServer::new();
    let token = connect(&mut server);
    let other = connect(&mut server);
    assert!(server.send(token, WebSocketFrame::from("queued")));
    let d = server.ready(token, both(), Some(ReadEvent::Data(vec![0x83, 0x00])));
    assert_eq!(d.next, Next::Remove(CloseReason::Protocol(ProtocolError::InvalidOpcode(3))));
    assert!(d.outbound.is_empty());
    assert!(d.delivered.is_none());
    assert!(!server.contains(token));
    // the other connection is untouched
    assert_eq!(server.state(other), Some(ClientState::Connected));
    assert_eq!(server.interest(other), Some(readable()));
}

#[test]
fn failed_handshake_removes_the_connection() {
    let mut server = WebSocketServer::new();
    let token = server.accept().unwrap();
    let d = server.ready(
        token,
        readable(),
        Some(ReadEvent::Handshake(HandshakeProgress::Complete { upgrade: false, headers: HeaderStore::new() })),
    );
    assert_eq!(d.next, Next::Remove(CloseReason::Protocol(ProtocolError::NoUpgrade)));
    assert_eq!(server.len(), 0);
}

#[test]
fn clients_see_only_their_own_echo() {
    let mut server = WebSocketServer::with_max_payload(1 << 16);
    let n = 16usize;
    let tokens: Vec<usize> = (0..n).map(|_| connect(&mut server)).collect();
    assert_eq!(server.len(), n);

    // every client sends its own payload, in an interleaved order
    let mut received: Vec<(usize, Vec<u8>)> = Vec::new();
    for (i, token) in tokens.iter().enumerate().rev() {
        let payload = format!("client-{}", i).into_bytes();
        let d = server.ready(*token, readable(), data(OpCode::TextFrame, &payload));
        let frame = d.delivered.unwrap();
        assert_eq!(frame.payload, payload);
        received.push((*token, frame.payload));
    }
    // the application echoes each payload to its sender
    for (token, payload) in received {
        assert!(server.send(token, WebSocketFrame::new(OpCode::TextFrame, payload)));
    }
    for (i, token) in tokens.iter().enumerate() {
        let d = server.ready(*token, writable(), None);
        let (frame, used) = WebSocketFrame::read(&d.outbound, 1 << 16).unwrap();
        assert_eq!(used, d.outbound.len());
        assert_eq!(frame.payload, format!("client-{}", i).into_bytes());
        assert!(!frame.header.masked);
        assert_eq!(d.next, Next::Rearm(readable()));
    }
    assert_eq!(server.len(), n);
}

#[test]
fn one_failure_leaves_the_others_alone() {
    let mut server = WebSocketServer::new();
    let a = connect(&mut server);
    let b = connect(&mut server);
    assert!(server.send(b, WebSocketFrame::from("kept")));
    assert!(server.disconnect(a));
    assert!(!server.contains(a));
    assert_eq!(server.state(b), Some(ClientState::Connected));
    let d = server.ready(b, writable(), None);
    assert_eq!(d.outbound, vec![0x81, 4, b'k', b'e', b'p', b't']);
}

#[test]
fn server_gives_its_ceiling_to_new_connections() {
    let mut server = WebSocketServer::with_max_payload(3);
    let token = connect(&mut server);
    let d = server.ready(token, readable(), data(OpCode::TextFrame, b"four"));
    assert_eq!(d.next, Next::Remove(CloseReason::Protocol(ProtocolError::PayloadTooLarge(4))));
    let _ = WebSocketClient::new();
}

#[test]
fn buffered_bytes_are_counted_per_connection() {
    let mut server = WebSocketServer::new();
    let a = connect(&mut server);
    let b = connect(&mut server);
    let d = server.ready(a, readable(), Some(ReadEvent::Data(vec![0x81])));
    assert!(d.delivered.is_none());
    assert_eq!(d.next, Next::Rearm(readable()));
    assert_eq!(server.buffered(a), Some(1));
    assert_eq!(server.buffered(b), Some(0));
    assert_eq!(server.buffered(99), None);
    let d = server.ready(a, readable(), Some(ReadEvent::Data(vec![0x01, b'x'])));
    // an unmasked frame is read like a masked one
    assert_eq!(d.delivered.unwrap().payload, vec![b'x']);
    assert_eq!(server.buffered(a), Some(0));
}
