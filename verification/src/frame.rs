//! Frames and the frame codec.
//!
//! A frame on the wire is two header bytes, an optional extended length of
//! two or eight big-endian bytes, an optional four-byte mask key and the
//! payload. [`encoding`] and [`decoding`] say what the codec computes;
//! [`WebSocketFrame::write`] and [`WebSocketFrame::read`] compute it.

use crate::bigendian::{be16, be16_bytes, be64, be64_bytes, push_u16_be, push_u64_be, read_u16_be, read_u64_be};
use crate::error::{FrameError, ProtocolError};
use crate::mask::{apply_mask, masked};
use crate::opcode::{opcode_of, OpCode};
use vstd::prelude::*;
use vstd::slice::{slice_subrange, slice_to_vec};
use vstd::string::StringSliceAdditionalSpecFns;

verus! {

/// The payload ceiling that a connection enforces unless it is given another.
pub const DEFAULT_MAX_PAYLOAD: u64 = 16_777_216;

/// What the first two bytes of a frame say.
///
/// `payload_length` is the length of the payload in bytes. Straight out of
/// [`WebSocketFrame::parse_header`] it holds the seven-bit length indicator,
/// which is the length itself up to 125 and otherwise announces an extended
/// length field; [`WebSocketFrame::read`] resolves it.
#[derive(Debug, Clone, Copy, PartialEq, Eq, Structural)]
pub struct WebSocketFrameHeader {
    pub fin: bool,
    pub rsv1: bool,
    pub rsv2: bool,
    pub rsv3: bool,
    pub masked: bool,
    pub opcode: OpCode,
    pub payload_length: u64,
}

/// A frame: header, mask key and payload. The payload is held unmasked.
#[derive(Debug)]
pub struct WebSocketFrame {
    pub header: WebSocketFrameHeader,
    pub mask: Option<[u8; 4]>,
    pub payload: Vec<u8>,
}

/// A frame as a mathematical value.
#[verifier::ext_equal]
pub struct FrameView {
    pub header: WebSocketFrameHeader,
    pub mask: Option<Seq<u8>>,
    pub payload: Seq<u8>,
}

impl FrameView {
    /// The frame is one that can travel: no reserved bit is set, a mask key
    /// of four bytes is present exactly if the header says so, and the header
    /// gives the true length of the payload.
    pub open spec fn wf(self) -> bool {
        &&& !self.header.rsv1
        &&& !self.header.rsv2
        &&& !self.header.rsv3
        &&& self.header.masked <==> self.mask is Some
        &&& self.mask matches Some(key) ==> key.len() == 4
        &&& self.header.payload_length == self.payload.len()
    }
}

impl View for WebSocketFrame {
    type V = FrameView;

    open spec fn view(&self) -> FrameView {
        FrameView {
            header: self.header,
            mask: match self.mask {
                Some(key) => Some(key@),
                None => None,
            },
            payload: self.payload@,
        }
    }
}

/// What two header bytes say: the header, or the protocol error they amount
/// to. From the most significant bit down, the first byte holds the final
/// flag, three reserved bits and four opcode bits; the second holds the mask
/// flag and seven bits of length indicator. An unknown opcode is reported
/// before a reserved bit.
pub open spec fn header_of(b0: u8, b1: u8) -> Result<WebSocketFrameHeader, ProtocolError> {
    match opcode_of(b0 % 16) {
        None => Err(ProtocolError::InvalidOpcode(b0 % 16)),
        Some(opcode) => if (b0 / 16) % 8 != 0 {
            Err(ProtocolError::ReservedBits)
        } else {
            Ok(
                WebSocketFrameHeader {
                    fin: b0 >= 128,
                    rsv1: false,
                    rsv2: false,
                    rsv3: false,
                    masked: b1 >= 128,
                    opcode,
                    payload_length: (b1 % 128) as u64,
                },
            )
        },
    }
}

/// The first byte of a frame with this header.
pub open spec fn first_byte(h: WebSocketFrameHeader) -> u8 {
    ((if h.fin { 128int } else { 0 }) + (if h.rsv1 { 64int } else { 0 }) + (if h.rsv2 { 32int } else { 0 })
        + (if h.rsv3 { 16int } else { 0 }) + h.opcode.wire_value()) as u8
}

/// The second byte of a frame: the mask flag over a length indicator.
pub open spec fn second_byte(is_masked: bool, indicator: u8) -> u8
    recommends
        indicator <= 127,
{
    ((if is_masked { 128int } else { 0 }) + indicator) as u8
}

/// The number of extended length bytes that a length indicator announces.
pub open spec fn extended_length_size(indicator: u8) -> nat {
    if indicator == 126 {
        2
    } else if indicator == 127 {
        8
    } else {
        0
    }
}

/// The smallest length indicator that can announce a payload of `len` bytes:
/// the length itself up to 125, then 126 up to 65535, then 127.
pub open spec fn minimal_indicator(len: nat) -> u8 {
    if len <= 125 {
        len as u8
    } else if len <= 65535 {
        126
    } else {
        127
    }
}

/// Whether the length indicator `indicator` can announce a payload of `len`
/// bytes, minimal or not.
pub open spec fn indicator_fits(indicator: u8, len: nat) -> bool {
    ||| indicator <= 125 && len == indicator
    ||| indicator == 126 && len <= 65535
    ||| indicator == 127 && len <= u64::MAX
}

/// The extended length bytes that follow the indicator.
pub open spec fn extended_length_bytes(indicator: u8, len: nat) -> Seq<u8> {
    if indicator == 126 {
        be16_bytes(len as u16)
    } else if indicator == 127 {
        be64_bytes(len as u64)
    } else {
        Seq::empty()
    }
}

/// The bytes of `f` where the length is announced by `indicator`.
pub open spec fn encoding_with(f: FrameView, indicator: u8) -> Seq<u8> {
    seq![first_byte(f.header), second_byte(f.mask is Some, indicator)] + extended_length_bytes(
        indicator,
        f.payload.len(),
    ) + (match f.mask {
        Some(key) => key + masked(f.payload, key),
        None => f.payload,
    })
}

/// The bytes of `f` on the wire, with the smallest length indicator.
pub open spec fn encoding(f: FrameView) -> Seq<u8> {
    encoding_with(f, minimal_indicator(f.payload.len()))
}

/// The payload length that a stream announces after its two header bytes,
/// given the length indicator. The stream holds the extended length bytes.
pub open spec fn announced_length(bytes: Seq<u8>, indicator: u8) -> nat {
    if indicator == 126 {
        be16(bytes.subrange(2, 4))
    } else if indicator == 127 {
        be64(bytes.subrange(2, 10))
    } else {
        indicator as nat
    }
}

/// The frame at the start of `bytes` and the number of bytes it takes up, or
/// the reason why there is none, with `max_payload` as the ceiling on the
/// payload length.
///
/// The steps are taken in order, and each fails with `Incomplete` where the
/// stream ends before the bytes it needs: the two header bytes, the extended
/// length, the mask key, the payload. A protocol error is reported as soon
/// as the bytes that show it are there.
pub open spec fn decoding(bytes: Seq<u8>, max_payload: u64) -> Result<(FrameView, nat), FrameError> {
    if bytes.len() < 2 {
        Err(FrameError::Incomplete)
    } else {
        match header_of(bytes[0], bytes[1]) {
            Err(e) => Err(FrameError::Protocol(e)),
            Ok(h) => {
                let indicator = h.payload_length as u8;
                let length_end: int = 2 + extended_length_size(indicator) as int;
                if bytes.len() < length_end {
                    Err(FrameError::Incomplete)
                } else {
                    let len = announced_length(bytes, indicator);
                    let start: int = length_end + if h.masked { 4int } else { 0 };
                    if len > max_payload {
                        Err(FrameError::Protocol(ProtocolError::PayloadTooLarge(len as u64)))
                    } else if bytes.len() < start + len {
                        Err(FrameError::Incomplete)
                    } else {
                        let raw = bytes.subrange(start, start + len);
                        let key = bytes.subrange(length_end, start);
                        Ok(
                            (
                                FrameView {
                                    header: WebSocketFrameHeader { payload_length: len as u64, ..h },
                                    mask: if h.masked { Some(key) } else { None },
                                    payload: if h.masked { masked(raw, key) } else { raw },
                                },
                                (start + len) as nat,
                            ),
                        )
                    }
                }
            },
        }
    }
}

/// The final, unmasked frame with this opcode and payload: what a server
/// sends.
pub open spec fn plain_frame(opcode: OpCode, payload: Seq<u8>) -> FrameView {
    FrameView {
        header: WebSocketFrameHeader {
            fin: true,
            rsv1: false,
            rsv2: false,
            rsv3: false,
            masked: false,
            opcode,
            payload_length: payload.len() as u64,
        },
        mask: None,
        payload,
    }
}

/// The final frame with this opcode and payload that travels masked with
/// `key`: what a client sends.
pub open spec fn masked_frame(opcode: OpCode, payload: Seq<u8>, key: Seq<u8>) -> FrameView {
    FrameView {
        header: WebSocketFrameHeader { masked: true, ..plain_frame(opcode, payload).header },
        mask: Some(key),
        payload,
    }
}

impl WebSocketFrame {
    /// A final, unmasked frame.
    pub fn new(opcode: OpCode, payload: Vec<u8>) -> (r: WebSocketFrame)
        ensures
            r@ == plain_frame(opcode, payload@),
            r@.wf(),
    {
        WebSocketFrame {
            header: WebSocketFrameHeader {
                fin: true,
                rsv1: false,
                rsv2: false,
                rsv3: false,
                masked: false,
                opcode,
                payload_length: payload.len() as u64,
            },
            mask: None,
            payload,
        }
    }

    /// A final frame that travels masked with `key`. The payload is handed
    /// over, and held, unmasked.
    pub fn new_masked(opcode: OpCode, payload: Vec<u8>, key: [u8; 4]) -> (r: WebSocketFrame)
        ensures
            r@ == masked_frame(opcode, payload@, key@),
            r@.wf(),
    {
        WebSocketFrame {
            header: WebSocketFrameHeader {
                fin: true,
                rsv1: false,
                rsv2: false,
                rsv3: false,
                masked: true,
                opcode,
                payload_length: payload.len() as u64,
            },
            mask: Some(key),
            payload,
        }
    }

    /// An unmasked text frame that carries `text`.
    pub fn from(text: &str) -> (r: WebSocketFrame)
        ensures
            r@ == plain_frame(OpCode::TextFrame, text.spec_bytes()),
            r@.wf(),
    {
        Self::new(OpCode::TextFrame, slice_to_vec(text.as_bytes()))
    }

    /// The unmasked close frame with an empty payload.
    pub fn close() -> (r: WebSocketFrame)
        ensures
            r@ == plain_frame(OpCode::ConnectionClose, Seq::empty()),
            r@.wf(),
    {
        Self::new(OpCode::ConnectionClose, Vec::new())
    }

    /// The unmasked pong frame that answers a ping with this payload.
    pub fn pong(payload: Vec<u8>) -> (r: WebSocketFrame)
        ensures
            r@ == plain_frame(OpCode::Pong, payload@),
            r@.wf(),
    {
        Self::new(OpCode::Pong, payload)
    }

    /// Parses the first two bytes of a frame, handed over as one big-endian
    /// number.
    pub fn parse_header(buf: u16) -> (r: Result<WebSocketFrameHeader, ProtocolError>)
        ensures
            r == header_of((buf / 256) as u8, (buf % 256) as u8),
    {
        let b0 = (buf >> 8) as u8;
        let b1 = (buf & 0xFF) as u8;
        assert(buf >> 8 == buf / 256 && buf & 0xFF == buf % 256) by (bit_vector);
        let opcode_num = b0 & 0x0F;
        assert(b0 & 0x0F == b0 % 16) by (bit_vector);
        assert((b0 & 0x70 == 0) == ((b0 / 16) % 8 == 0)) by (bit_vector);
        assert((b0 & 0x80 == 0x80) == (b0 >= 128)) by (bit_vector);
        assert((b1 & 0x80 == 0x80) == (b1 >= 128)) by (bit_vector);
        assert(b1 & 0x7F == b1 % 128) by (bit_vector);
        match OpCode::from(opcode_num) {
            Some(opcode) => {
                if b0 & 0x70 != 0 {
                    Err(ProtocolError::ReservedBits)
                } else {
                    Ok(
                        WebSocketFrameHeader {
                            fin: b0 & 0x80 == 0x80,
                            rsv1: false,
                            rsv2: false,
                            rsv3: false,
                            masked: b1 & 0x80 == 0x80,
                            opcode,
                            payload_length: (b1 & 0x7F) as u64,
                        },
                    )
                }
            },
            None => Err(ProtocolError::InvalidOpcode(opcode_num)),
        }
    }

    /// Reads the frame at the start of `input`, which holds the bytes received
    /// and not yet consumed. `max_payload` is the ceiling on the payload
    /// length.
    ///
    /// On success the frame comes with the number of bytes that it took up;
    /// what follows them in `input` belongs to the next frame. On
    /// `Incomplete` nothing is consumed, and the call is to be repeated once
    /// more bytes are there.
    pub fn read(input: &[u8], max_payload: u64) -> (r: Result<(WebSocketFrame, usize), FrameError>)
        ensures
            match r {
                Ok((frame, used)) => decoding(input@, max_payload) == Ok::<(FrameView, nat), FrameError>(
                    (frame@, used as nat),
                ),
                Err(e) => decoding(input@, max_payload) == Err::<(FrameView, nat), FrameError>(e),
            },
    {
        if input.len() < 2 {
            return Err(FrameError::Incomplete);
        }
        let buf = read_u16_be(input);
        let header = match Self::parse_header(buf) {
            Ok(header) => header,
            Err(e) => {
                return Err(FrameError::Protocol(e));
            },
        };
        let (len, length_end) = match Self::read_length(header.payload_length as u8, input) {
            Ok(found) => found,
            Err(e) => {
                return Err(e);
            },
        };
        if len > max_payload {
            return Err(FrameError::Protocol(ProtocolError::PayloadTooLarge(len)));
        }
        let (mask_key, start) = if header.masked {
            match Self::read_mask(input, length_end) {
                Ok(key) => (Some(key), length_end + 4),
                Err(e) => {
                    return Err(e);
                },
            }
        } else {
            (None, length_end)
        };
        let mut payload = match Self::read_payload(len, input, start) {
            Ok(payload) => payload,
            Err(e) => {
                return Err(e);
            },
        };
        if let Some(mask) = mask_key {
            apply_mask(mask, &mut payload);
        }
        let used = start + payload.len();
        let frame = WebSocketFrame {
            header: WebSocketFrameHeader { payload_length: len, ..header },
            mask: mask_key,
            payload,
        };
        Ok((frame, used))
    }

    /// Resolves the length indicator: reads the extended length, if the
    /// indicator announces one, and says where the length field ends.
    fn read_length(indicator: u8, input: &[u8]) -> (r: Result<(u64, usize), FrameError>)
        requires
            input@.len() >= 2,
        ensures
            match r {
                Ok((len, end)) => {
                    &&& end == 2 + extended_length_size(indicator)
                    &&& end <= input@.len()
                    &&& len == announced_length(input@, indicator)
                },
                Err(e) => {
                    &&& e == FrameError::Incomplete
                    &&& input@.len() < 2 + extended_length_size(indicator)
                },
            },
    {
        if indicator == 126 {
            if input.len() < 4 {
                return Err(FrameError::Incomplete);
            }
            let len = read_u16_be(slice_subrange(input, 2, 4));
            Ok((len as u64, 4))
        } else if indicator == 127 {
            if input.len() < 10 {
                return Err(FrameError::Incomplete);
            }
            let len = read_u64_be(slice_subrange(input, 2, 10));
            Ok((len, 10))
        } else {
            Ok((indicator as u64, 2))
        }
    }

    /// Reads the four bytes of the mask key at `at`.
    fn read_mask(input: &[u8], at: usize) -> (r: Result<[u8; 4], FrameError>)
        requires
            at <= input@.len(),
        ensures
            match r {
                Ok(key) => at + 4 <= input@.len() && key@ == input@.subrange(at as int, at + 4),
                Err(e) => e == FrameError::Incomplete && input@.len() < at + 4,
            },
    {
        if input.len() - at < 4 {
            return Err(FrameError::Incomplete);
        }
        let key = [input[at], input[at + 1], input[at + 2], input[at + 3]];
        Ok(key)
    }

    /// Reads the `len` payload bytes at `at`, as they stand on the wire.
    fn read_payload(len: u64, input: &[u8], at: usize) -> (r: Result<Vec<u8>, FrameError>)
        requires
            at <= input@.len(),
        ensures
            match r {
                Ok(payload) => at + len <= input@.len() && payload@ == input@.subrange(
                    at as int,
                    at + len,
                ),
                Err(e) => e == FrameError::Incomplete && input@.len() < at + len,
            },
    {
        let remaining = input.len() - at;
        if (remaining as u64) < len {
            return Err(FrameError::Incomplete);
        }
        let count = len as usize;
        Ok(slice_to_vec(slice_subrange(input, at, at + count)))
    }

    /// The bytes of this frame on the wire. The length is announced in the
    /// shortest form: in the header up to 125 bytes, in two further bytes up
    /// to 65535, in eight beyond. A masked frame carries its key and has it
    /// applied to the payload.
    pub fn write(&self) -> (out: Vec<u8>)
        requires
            self@.wf(),
        ensures
            out@ == encoding(self@),
    {
        let mut out: Vec<u8> = Vec::new();
        let code = self.header.opcode.to_u8();
        let b0: u8 = if self.header.fin { 128 + code } else { code };
        out.push(b0);
        let flag: u8 = if self.mask.is_some() { 128 } else { 0 };
        let len = self.payload.len();
        if len <= 125 {
            out.push(flag + len as u8);
        } else if len <= 65535 {
            out.push(flag + 126);
            push_u16_be(&mut out, len as u16);
        } else {
            out.push(flag + 127);
            push_u64_be(&mut out, len as u64);
        }
        match self.mask {
            Some(key) => {
                out.push(key[0]);
                out.push(key[1]);
                out.push(key[2]);
                out.push(key[3]);
                let mut body = self.payload.clone();
                apply_mask(key, &mut body);
                out.append(&mut body);
            },
            None => {
                out.extend_from_slice(self.payload.as_slice());
            },
        }
        out
    }

    /// Whether this frame can travel: see [`FrameView::wf`].
    pub fn is_well_formed(&self) -> (r: bool)
        ensures
            r == self@.wf(),
    {
        !self.header.rsv1 && !self.header.rsv2 && !self.header.rsv3 && self.header.masked
            == self.mask.is_some() && self.header.payload_length == self.payload.len() as u64
    }

    /// The opcode of this frame.
    pub fn get_opcode(&self) -> (r: OpCode)
        ensures
            r == self@.header.opcode,
    {
        self.header.opcode
    }
}

} // verus!
