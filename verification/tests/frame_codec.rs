use chat::error::{FrameError, ProtocolError};
use chat::frame::{WebSocketFrame, DEFAULT_MAX_PAYLOAD};
use chat::mask::apply_mask;
use chat::opcode::OpCode;

fn payload_of(len: usize) -> Vec<u8> {
    (0..len).map(|i| (i % 251) as u8).collect()
}

fn assert_same(a: &WebSocketFrame, b: &WebSocketFrame) {
    assert_eq!(a.header, b.header);
    assert_eq!(a.mask, b.mask);
    assert_eq!(a.payload, b.payload);
}

#[test]
fn opcode_values() {
    assert_eq!(OpCode::from(1), Some(OpCode::TextFrame));
    assert_eq!(OpCode::from(2), Some(OpCode::BinaryFrame));
    assert_eq!(OpCode::from(8), Some(OpCode::ConnectionClose));
    assert_eq!(OpCode::from(9), Some(OpCode::Ping));
    assert_eq!(OpCode::from(10), Some(OpCode::Pong));
    for op in [0u8, 3, 4, 5, 6, 7, 11, 12, 13, 14, 15, 16, 255] {
        assert_eq!(OpCode::from(op), None);
    }
    for code in [OpCode::TextFrame, OpCode::BinaryFrame, OpCode::ConnectionClose, OpCode::Ping, OpCode::Pong] {
        assert_eq!(OpCode::from(code.to_u8()), Some(code));
    }
}

#[test]
fn parse_header_reads_every_field() {
    let h = WebSocketFrame::parse_header(0x8185).unwrap();
    assert!(h.fin);
    assert!(!h.rsv1 && !h.rsv2 && !h.rsv3);
    assert_eq!(h.opcode, OpCode::TextFrame);
    assert!(h.masked);
    assert_eq!(h.payload_length, 5);

    let h = WebSocketFrame::parse_header(0x027E).unwrap();
    assert!(!h.fin);
    assert_eq!(h.opcode, OpCode::BinaryFrame);
    assert!(!h.masked);
    assert_eq!(h.payload_length, 126);
}

#[test]
fn parse_header_rejects_unknown_opcode() {
    assert_eq!(WebSocketFrame::parse_header(0x8300), Err(ProtocolError::InvalidOpcode(3)));
    assert_eq!(WebSocketFrame::parse_header(0x8000), Err(ProtocolError::InvalidOpcode(0)));
    assert_eq!(WebSocketFrame::parse_header(0x0F00), Err(ProtocolError::InvalidOpcode(15)));
}

#[test]
fn parse_header_rejects_reserved_bits() {
    assert_eq!(WebSocketFrame::parse_header(0xC100), Err(ProtocolError::ReservedBits));
    assert_eq!(WebSocketFrame::parse_header(0xA100), Err(ProtocolError::ReservedBits));
    assert_eq!(WebSocketFrame::parse_header(0x9100), Err(ProtocolError::ReservedBits));
    // an unknown opcode is reported first
    assert_eq!(WebSocketFrame::parse_header(0xF300), Err(ProtocolError::InvalidOpcode(3)));
}

#[test]
fn mask_twice_is_identity() {
    let key = [0x37, 0xfa, 0x21, 0x3d];
    let plain = payload_of(1001);
    let mut data = plain.clone();
    apply_mask(key, &mut data);
    assert_ne!(data, plain);
    apply_mask(key, &mut data);
    assert_eq!(data, plain);
}

#[test]
fn mask_exact_bytes() {
    let mut data = b"Hello".to_vec();
    apply_mask([0x37, 0xfa, 0x21, 0x3d], &mut data);
    assert_eq!(data, vec![0x7f, 0x9f, 0x4d, 0x51, 0x58]);
}

#[test]
fn write_unmasked_text() {
    let frame = WebSocketFrame::from("Hello");
    assert_eq!(frame.get_opcode(), OpCode::TextFrame);
    assert!(frame.is_well_formed());
    assert_eq!(frame.write(), vec![0x81, 0x05, 0x48, 0x65, 0x6c, 0x6c, 0x6f]);
}

#[test]
fn write_masked_text() {
    let frame = WebSocketFrame::new_masked(OpCode::TextFrame, b"Hello".to_vec(), [0x37, 0xfa, 0x21, 0x3d]);
    assert_eq!(
        frame.write(),
        vec![0x81, 0x85, 0x37, 0xfa, 0x21, 0x3d, 0x7f, 0x9f, 0x4d, 0x51, 0x58]
    );
}

#[test]
fn read_masked_text() {
    let bytes = [0x81, 0x85, 0x37, 0xfa, 0x21, 0x3d, 0x7f, 0x9f, 0x4d, 0x51, 0x58, 0xff];
    let (frame, used) = WebSocketFrame::read(&bytes, DEFAULT_MAX_PAYLOAD).unwrap();
    assert_eq!(used, 11);
    assert_eq!(frame.payload, b"Hello".to_vec());
    assert_eq!(frame.mask, Some([0x37, 0xfa, 0x21, 0x3d]));
    assert!(frame.header.masked);
    assert!(frame.header.fin);
    assert_eq!(frame.header.payload_length, 5);
    assert_eq!(frame.get_opcode(), OpCode::TextFrame);
}

#[test]
fn round_trip_all_opcodes_and_tiers() {
    let codes = [OpCode::TextFrame, OpCode::BinaryFrame, OpCode::ConnectionClose, OpCode::Ping, OpCode::Pong];
    let lengths = [0usize, 1, 5, 124, 125, 126, 127, 1000, 65535, 65536, 70000];
    for code in codes {
        for len in lengths {
            let plain = WebSocketFrame::new(code, payload_of(len));
            let bytes = plain.write();
            let (back, used) = WebSocketFrame::read(&bytes, DEFAULT_MAX_PAYLOAD).unwrap();
            assert_eq!(used, bytes.len());
            assert_same(&back, &plain);

            let masked = WebSocketFrame::new_masked(code, payload_of(len), [1, 2, 3, 0xfe]);
            let bytes = masked.write();
            let (back, used) = WebSocketFrame::read(&bytes, DEFAULT_MAX_PAYLOAD).unwrap();
            assert_eq!(used, bytes.len());
            assert_same(&back, &masked);
        }
    }
}

#[test]
fn length_tier_boundaries() {
    let f = WebSocketFrame::new(OpCode::BinaryFrame, payload_of(125));
    let b = f.write();
    assert_eq!(b.len(), 2 + 125);
    assert_eq!(b[1], 125);

    let f = WebSocketFrame::new(OpCode::BinaryFrame, payload_of(126));
    let b = f.write();
    assert_eq!(b.len(), 4 + 126);
    assert_eq!(&b[1..4], &[126, 0x00, 0x7e]);

    let f = WebSocketFrame::new(OpCode::BinaryFrame, payload_of(65535));
    let b = f.write();
    assert_eq!(b.len(), 4 + 65535);
    assert_eq!(&b[1..4], &[126, 0xff, 0xff]);

    let f = WebSocketFrame::new(OpCode::BinaryFrame, payload_of(65536));
    let b = f.write();
    assert_eq!(b.len(), 10 + 65536);
    assert_eq!(&b[1..10], &[127, 0, 0, 0, 0, 0, 1, 0, 0]);

    let f = WebSocketFrame::new_masked(OpCode::BinaryFrame, payload_of(126), [9, 9, 9, 9]);
    let b = f.write();
    assert_eq!(b.len(), 8 + 126);
    assert_eq!(&b[1..8], &[0x80 | 126, 0x00, 0x7e, 9, 9, 9, 9]);
}

#[test]
fn read_accepts_any_tier_for_the_same_length() {
    let body = payload_of(5);
    let expected = WebSocketFrame::new(OpCode::BinaryFrame, body.clone());

    let mut direct = vec![0x82, 5];
    direct.extend_from_slice(&body);
    let mut wide = vec![0x82, 126, 0, 5];
    wide.extend_from_slice(&body);
    let mut widest = vec![0x82, 127, 0, 0, 0, 0, 0, 0, 0, 5];
    widest.extend_from_slice(&body);

    for bytes in [direct, wide, widest] {
        let (frame, used) = WebSocketFrame::read(&bytes, DEFAULT_MAX_PAYLOAD).unwrap();
        assert_eq!(used, bytes.len());
        assert_same(&frame, &expected);
    }
}

#[test]
fn every_proper_prefix_is_incomplete() {
    let frames = [
        WebSocketFrame::new(OpCode::TextFrame, payload_of(0)),
        WebSocketFrame::new(OpCode::TextFrame, payload_of(7)),
        WebSocketFrame::new_masked(OpCode::BinaryFrame, payload_of(7), [4, 3, 2, 1]),
        WebSocketFrame::new(OpCode::BinaryFrame, payload_of(300)),
        WebSocketFrame::new_masked(OpCode::BinaryFrame, payload_of(300), [4, 3, 2, 1]),
        WebSocketFrame::new_masked(OpCode::BinaryFrame, payload_of(65536), [4, 3, 2, 1]),
    ];
    for frame in frames.iter() {
        let bytes = frame.write();
        let cuts: Vec<usize> = if bytes.len() < 400 {
            (0..bytes.len()).collect()
        } else {
            let mut c: Vec<usize> = (0..20).collect();
            c.push(bytes.len() / 2);
            c.push(bytes.len() - 1);
            c
        };
        for cut in cuts {
            match WebSocketFrame::read(&bytes[..cut], DEFAULT_MAX_PAYLOAD) {
                Err(FrameError::Incomplete) => {}
                other => panic!("cut at {}: {:?}", cut, other.map(|(_, used)| used)),
            }
        }
        assert!(WebSocketFrame::read(&bytes, DEFAULT_MAX_PAYLOAD).is_ok());
    }
}

#[test]
fn read_rejects_unknown_opcode_and_reserved_bits() {
    assert_eq!(
        WebSocketFrame::read(&[0x83, 0x00], DEFAULT_MAX_PAYLOAD).err(),
        Some(FrameError::Protocol(ProtocolError::InvalidOpcode(3)))
    );
    assert_eq!(
        WebSocketFrame::read(&[0xC1, 0x00], DEFAULT_MAX_PAYLOAD).err(),
        Some(FrameError::Protocol(ProtocolError::ReservedBits))
    );
}

#[test]
fn read_enforces_the_ceiling() {
    let frame = WebSocketFrame::new(OpCode::BinaryFrame, payload_of(200));
    let bytes = frame.write();
    assert_eq!(WebSocketFrame::read(&bytes, 199).err(), Some(FrameError::Protocol(ProtocolError::PayloadTooLarge(200))));
    assert!(WebSocketFrame::read(&bytes, 200).is_ok());
    // the ceiling is enforced as soon as the length is known
    let announced = [0x82, 127, 0xff, 0xff, 0xff, 0xff, 0xff, 0xff, 0xff, 0xff];
    assert_eq!(
        WebSocketFrame::read(&announced, DEFAULT_MAX_PAYLOAD).err(),
        Some(FrameError::Protocol(ProtocolError::PayloadTooLarge(u64::MAX)))
    );
    assert_eq!(WebSocketFrame::read(&announced[..9], DEFAULT_MAX_PAYLOAD).err(), Some(FrameError::Incomplete));
    // also in the sixteen-bit form
    assert_eq!(
        WebSocketFrame::read(&[0x82, 126, 0x01, 0x00], 255).err(),
        Some(FrameError::Protocol(ProtocolError::PayloadTooLarge(256)))
    );
}

#[test]
fn read_stops_at_the_end_of_the_frame() {
    let first = WebSocketFrame::from("one");
    let second = WebSocketFrame::new(OpCode::Ping, vec![1, 2]);
    let mut stream = first.write();
    stream.extend(second.write());
    let (a, used) = WebSocketFrame::read(&stream, DEFAULT_MAX_PAYLOAD).unwrap();
    assert_same(&a, &first);
    let (b, rest) = WebSocketFrame::read(&stream[used..], DEFAULT_MAX_PAYLOAD).unwrap();
    assert_same(&b, &second);
    assert_eq!(used + rest, stream.len());
}

#[test]
fn well_formedness_is_checked() {
    let mut frame = WebSocketFrame::from("abc");
    assert!(frame.is_well_formed());
    frame.payload.push(0);
    assert!(!frame.is_well_formed());
    frame.header.payload_length = 4;
    assert!(frame.is_well_formed());
    frame.header.masked = true;
    assert!(!frame.is_well_formed());
    frame.mask = Some([0, 0, 0, 0]);
    assert!(frame.is_well_formed());
    frame.header.rsv2 = true;
    assert!(!frame.is_well_formed());
    assert!(FrameError::Incomplete.is_recoverable());
    assert!(!FrameError::Protocol(ProtocolError::ReservedBits).is_recoverable());
}
