//! What holds of the wire format: decoding undoes encoding, whichever
//! length form was used, and a frame cut short is never taken for a broken
//! one.

use crate::bigendian::{
    be16_bytes, be64_bytes, lemma_be16_round_trip, lemma_be64_round_trip, lemma_be_bounds,
};
use crate::error::{FrameError, ProtocolError};
use crate::frame::{
    announced_length, decoding, encoding, encoding_with, extended_length_size, first_byte,
    header_of, indicator_fits, minimal_indicator, second_byte, FrameView, WebSocketFrameHeader,
};
use crate::mask::{lemma_mask_involution, masked};
use crate::opcode::lemma_opcode_wire_round_trip;
use vstd::prelude::*;

verus! {

/// The length of an encoding: two header bytes, the extended length, the
/// mask key if there is one, and the payload.
pub open spec fn encoded_len(f: FrameView, indicator: u8) -> nat {
    2 + extended_length_size(indicator) + (if f.mask is Some { 4nat } else { 0 }) + f.payload.len()
}

/// An encoding has the length that its parts add up to, and its second byte
/// holds the indicator below the mask flag.
pub proof fn lemma_encoding_layout(f: FrameView, indicator: u8)
    requires
        f.wf(),
        indicator <= 127,
    ensures
        encoding_with(f, indicator).len() == encoded_len(f, indicator),
        encoding_with(f, indicator)[1] % 128 == indicator,
        encoding_with(f, indicator)[1] >= 128 <==> f.header.masked,
{
}

/// The shortest length form is chosen on encoding: the indicator is the
/// length itself up to 125 bytes, 126 with two further bytes up to 65535,
/// and 127 with eight further bytes beyond.
pub proof fn lemma_encoding_length_tier(f: FrameView)
    requires
        f.wf(),
    ensures
        indicator_fits(minimal_indicator(f.payload.len()), f.payload.len()),
        f.payload.len() <= 125 ==> encoding(f)[1] % 128 == f.payload.len() && encoding(f).len() == 2
            + (if f.header.masked { 4nat } else { 0 }) + f.payload.len(),
        125 < f.payload.len() <= 65535 ==> encoding(f)[1] % 128 == 126 && encoding(f).len() == 4 + (
        if f.header.masked { 4nat } else { 0 }) + f.payload.len(),
        65535 < f.payload.len() ==> encoding(f)[1] % 128 == 127 && encoding(f).len() == 10 + (
        if f.header.masked { 4nat } else { 0 }) + f.payload.len(),
{
    lemma_encoding_layout(f, minimal_indicator(f.payload.len()));
}

/// Whatever decodes is well formed, lies within the stream and keeps to the
/// ceiling.
pub proof fn lemma_decoded_is_well_formed(bytes: Seq<u8>, max_payload: u64)
    ensures
        decoding(bytes, max_payload) matches Ok((f, used)) ==> {
            &&& f.wf()
            &&& f.payload.len() <= max_payload
            &&& 2 <= used <= bytes.len()
            &&& used == encoded_len(f, (bytes[1] % 128) as u8)
        },
{
    if bytes.len() >= 10 {
        lemma_be_bounds(bytes.subrange(2, 10));
    }
    if bytes.len() >= 4 {
        lemma_be_bounds(bytes.subrange(2, 4));
    }
}

/// The two header bytes of a well-formed frame say what its header says,
/// with the indicator in place of the length.
pub proof fn lemma_header_round_trip(f: FrameView, indicator: u8)
    requires
        f.wf(),
        indicator <= 127,
    ensures
        header_of(first_byte(f.header), second_byte(f.mask is Some, indicator)) == Ok::<
            WebSocketFrameHeader,
            ProtocolError,
        >(WebSocketFrameHeader { payload_length: indicator as u64, ..f.header }),
{
    lemma_opcode_wire_round_trip(f.header.opcode, 0);
}

/// The length that an encoding announces is the length of the payload.
proof fn lemma_announced_length(f: FrameView, indicator: u8, bytes: Seq<u8>)
    requires
        f.wf(),
        indicator_fits(indicator, f.payload.len()),
        encoding_with(f, indicator).is_prefix_of(bytes),
    ensures
        announced_length(bytes, indicator) == f.payload.len(),
{
    let enc = encoding_with(f, indicator);
    let len = f.payload.len();
    if indicator == 126 {
        lemma_be16_round_trip(len as u16);
        assert(bytes.subrange(2, 4) =~= be16_bytes(len as u16)) by {
            assert(enc.subrange(2, 4) =~= be16_bytes(len as u16));
        }
    } else if indicator == 127 {
        lemma_be64_round_trip(len as u64);
        assert(bytes.subrange(2, 10) =~= be64_bytes(len as u64)) by {
            assert(enc.subrange(2, 10) =~= be64_bytes(len as u64));
        }
    }
}

/// Decoding undoes encoding in every length form that can announce the
/// payload, minimal or not, and stops where the frame ends: whatever follows
/// the frame in the stream is left alone.
pub proof fn lemma_round_trip_in_any_tier(f: FrameView, indicator: u8, rest: Seq<u8>, max_payload: u64)
    requires
        f.wf(),
        f.payload.len() <= max_payload,
        indicator_fits(indicator, f.payload.len()),
    ensures
        decoding(encoding_with(f, indicator) + rest, max_payload) == Ok::<(FrameView, nat), FrameError>(
            (f, encoding_with(f, indicator).len()),
        ),
{
    let bytes = encoding_with(f, indicator) + rest;
    let len = f.payload.len();
    lemma_encoding_layout(f, indicator);
    lemma_header_round_trip(f, indicator);
    lemma_announced_length(f, indicator, bytes);
    if let Some(k) = f.mask {
        lemma_mask_involution(f.payload, k);
    }
    let length_end: int = 2 + extended_length_size(indicator) as int;
    let start: int = length_end + if f.header.masked { 4int } else { 0 };
    let raw = bytes.subrange(start, start + len);
    let key = bytes.subrange(length_end, start);
    let got = FrameView {
        header: WebSocketFrameHeader { payload_length: len as u64, ..f.header },
        mask: if f.header.masked { Some(key) } else { None },
        payload: if f.header.masked { masked(raw, key) } else { raw },
    };
    assert(got =~= f);
}

/// Decoding what was encoded gives the frame back, and takes up exactly the
/// bytes of the encoding.
pub proof fn lemma_round_trip(f: FrameView, max_payload: u64)
    requires
        f.wf(),
        f.payload.len() <= max_payload,
    ensures
        decoding(encoding(f), max_payload) == Ok::<(FrameView, nat), FrameError>(
            (f, encoding(f).len()),
        ),
{
    let indicator = minimal_indicator(f.payload.len());
    lemma_round_trip_in_any_tier(f, indicator, Seq::empty(), max_payload);
}

/// A valid encoding cut short at any point decodes as `Incomplete`, never as
/// a protocol error.
pub proof fn lemma_truncated_is_incomplete(f: FrameView, indicator: u8, cut: int, max_payload: u64)
    requires
        f.wf(),
        f.payload.len() <= max_payload,
        indicator_fits(indicator, f.payload.len()),
        0 <= cut < encoding_with(f, indicator).len(),
    ensures
        decoding(encoding_with(f, indicator).subrange(0, cut), max_payload) == Err::<
            (FrameView, nat),
            FrameError,
        >(FrameError::Incomplete),
{
    lemma_encoding_layout(f, indicator);
    if cut >= 2 {
        lemma_header_round_trip(f, indicator);
        if cut >= 2 + extended_length_size(indicator) {
            lemma_announced_length(f, indicator, encoding_with(f, indicator));
        }
    }
}

} // verus!
