use chat::bigendian::{push_u16_be, push_u64_be};
use chat::frame::WebSocketFrame;
use chat::opcode::OpCode;

#[test]
fn sixteen_bits_most_significant_first() {
    let mut out = vec![0xaa];
    push_u16_be(&mut out, 0x1234);
    assert_eq!(out, vec![0xaa, 0x12, 0x34]);
    push_u16_be(&mut out, 0);
    push_u16_be(&mut out, 0xffff);
    push_u16_be(&mut out, 0x00ff);
    assert_eq!(out, vec![0xaa, 0x12, 0x34, 0, 0, 0xff, 0xff, 0x00, 0xff]);
}

#[test]
fn sixty_four_bits_most_significant_first() {
    let mut out = Vec::new();
    push_u64_be(&mut out, 0x0102_0304_0506_0708);
    assert_eq!(out, vec![1, 2, 3, 4, 5, 6, 7, 8]);
    let mut out = Vec::new();
    push_u64_be(&mut out, u64::MAX);
    assert_eq!(out, vec![0xff; 8]);
    let mut out = Vec::new();
    push_u64_be(&mut out, 0x8000_0000_0000_0001);
    assert_eq!(out, vec![0x80, 0, 0, 0, 0, 0, 0, 1]);
}

#[test]
fn extended_lengths_are_read_most_significant_first() {
    // 0x0102 = 258 bytes announced in two bytes
    let mut bytes = vec![0x82, 126, 0x01, 0x02];
    bytes.extend(std::iter::repeat(7u8).take(258));
    let (frame, used) = WebSocketFrame::read(&bytes, 1 << 20).unwrap();
    assert_eq!(frame.header.payload_length, 258);
    assert_eq!(frame.payload.len(), 258);
    assert_eq!(used, 262);

    // 0x0000_0000_0001_0203 = 66051 bytes announced in eight bytes
    let mut bytes = vec![0x82, 127, 0, 0, 0, 0, 0, 1, 2, 3];
    bytes.extend(std::iter::repeat(9u8).take(66051));
    let (frame, used) = WebSocketFrame::read(&bytes, 1 << 20).unwrap();
    assert_eq!(frame.header.payload_length, 66051);
    assert_eq!(frame.payload.len(), 66051);
    assert_eq!(used, 66061);
    assert_eq!(frame.get_opcode(), OpCode::BinaryFrame);

    // with the bytes swapped the announced length is another
    let short = [0x82, 126, 0x02, 0x01, 0, 0];
    assert!(WebSocketFrame::read(&short, 1 << 20).is_err());
}
