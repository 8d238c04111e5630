//! Big-endian integers, as the extended length fields of a frame hold them.

use byteorder::{BigEndian, ByteOrder};
use vstd::prelude::*;

verus! {

/// The number that the first two bytes of `b` spell, most significant first.
pub open spec fn be16(b: Seq<u8>) -> nat
    recommends
        b.len() >= 2,
{
    (b[0] as nat) * 256 + (b[1] as nat)
}

/// The number that the first eight bytes of `b` spell, most significant
/// first.
pub open spec fn be64(b: Seq<u8>) -> nat
    recommends
        b.len() >= 8,
{
    (((((((b[0] as nat) * 256 + (b[1] as nat)) * 256 + (b[2] as nat)) * 256 + (b[3] as nat)) * 256
        + (b[4] as nat)) * 256 + (b[5] as nat)) * 256 + (b[6] as nat)) * 256 + (b[7] as nat)
}

/// The two bytes that spell `n`, most significant first.
pub open spec fn be16_bytes(n: u16) -> Seq<u8> {
    seq![(n / 256) as u8, (n % 256) as u8]
}

/// The eight bytes that spell `n`, most significant first.
pub open spec fn be64_bytes(n: u64) -> Seq<u8> {
    seq![
        (n / 0x100_0000_0000_0000) as u8,
        ((n / 0x1_0000_0000_0000) % 256) as u8,
        ((n / 0x100_0000_0000) % 256) as u8,
        ((n / 0x1_0000_0000) % 256) as u8,
        ((n / 0x100_0000) % 256) as u8,
        ((n / 0x1_0000) % 256) as u8,
        ((n / 0x100) % 256) as u8,
        (n % 256) as u8,
    ]
}

/// The bytes of a 16-bit number spell that number.
pub proof fn lemma_be16_round_trip(n: u16)
    ensures
        be16_bytes(n).len() == 2,
        be16(be16_bytes(n)) == n,
{
}

/// The bytes of a 64-bit number spell that number.
pub proof fn lemma_be64_round_trip(n: u64)
    ensures
        be64_bytes(n).len() == 8,
        be64(be64_bytes(n)) == n,
{
    assert(n / 0x1_0000 == (n / 0x100) / 256 && n / 0x100_0000 == (n / 0x1_0000) / 256 && n
        / 0x1_0000_0000 == (n / 0x100_0000) / 256 && n / 0x100_0000_0000 == (n / 0x1_0000_0000)
        / 256 && n / 0x1_0000_0000_0000 == (n / 0x100_0000_0000) / 256 && n
        / 0x100_0000_0000_0000 == (n / 0x1_0000_0000_0000) / 256 && n / 0x100_0000_0000_0000
        < 256) by (bit_vector);
}

/// Two bytes spell a number below 2^16, eight bytes one below 2^64.
pub proof fn lemma_be_bounds(b: Seq<u8>)
    ensures
        b.len() >= 2 ==> be16(b) <= u16::MAX,
        b.len() >= 8 ==> be64(b) <= u64::MAX,
{
}

/// Calls `byteorder::BigEndian::read_u16`, which reads the first two bytes of
/// `buf` as a big-endian number and panics on a shorter slice.
#[verifier::external_body]
pub(crate) fn read_u16_be(buf: &[u8]) -> (r: u16)
    requires
        buf@.len() >= 2,
    ensures
        r as nat == be16(buf@),
{
    BigEndian::read_u16(buf)
}

/// Calls `byteorder::BigEndian::read_u64`, which reads the first eight bytes
/// of `buf` as a big-endian number and panics on a shorter slice.
#[verifier::external_body]
pub(crate) fn read_u64_be(buf: &[u8]) -> (r: u64)
    requires
        buf@.len() >= 8,
    ensures
        r as nat == be64(buf@),
{
    BigEndian::read_u64(buf)
}

/// Appends the two big-endian bytes of `n` to `out`.
pub fn push_u16_be(out: &mut Vec<u8>, n: u16)
    ensures
        final(out)@ == old(out)@ + be16_bytes(n),
{
    let hi = (n >> 8) as u8;
    let lo = (n & 0xff) as u8;
    assert(n >> 8 == n / 256 && n & 0xff == n % 256) by (bit_vector);
    out.push(hi);
    out.push(lo);
}

/// Appends the eight big-endian bytes of `n` to `out`.
pub fn push_u64_be(out: &mut Vec<u8>, n: u64)
    ensures
        final(out)@ == old(out)@ + be64_bytes(n),
{
    let b0 = (n >> 56) as u8;
    let b1 = ((n >> 48) & 0xff) as u8;
    let b2 = ((n >> 40) & 0xff) as u8;
    let b3 = ((n >> 32) & 0xff) as u8;
    let b4 = ((n >> 24) & 0xff) as u8;
    let b5 = ((n >> 16) & 0xff) as u8;
    let b6 = ((n >> 8) & 0xff) as u8;
    let b7 = (n & 0xff) as u8;
    assert(n >> 56 == n / 0x100_0000_0000_0000 && (n >> 48) & 0xff == (n / 0x1_0000_0000_0000) % 256
        && (n >> 40) & 0xff == (n / 0x100_0000_0000) % 256 && (n >> 32) & 0xff == (n
        / 0x1_0000_0000) % 256 && (n >> 24) & 0xff == (n / 0x100_0000) % 256 && (n >> 16) & 0xff
        == (n / 0x1_0000) % 256 && (n >> 8) & 0xff == (n / 0x100) % 256 && n & 0xff == n % 256)
        by (bit_vector);
    out.push(b0);
    out.push(b1);
    out.push(b2);
    out.push(b3);
    out.push(b4);
    out.push(b5);
    out.push(b6);
    out.push(b7);
}

} // verus!
