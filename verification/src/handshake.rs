//! The opening handshake: the accept key and the upgrade response.

use rustc_serialize::base64::{ToBase64, STANDARD};
use vstd::prelude::*;
use vstd::slice::slice_to_vec;
use vstd::string::StringSliceAdditionalSpecFns;
use vstd::utf8::encode_utf8;

verus! {

/// The fixed identifier that is appended to the client's key before hashing.
pub const WEBSOCKET_GUID: &'static str = "258EAFA5-E914-47DA-95CA-C5AB0DC85B11";

/// The response up to the accept key.
pub const RESPONSE_HEAD: &'static str =
    "HTTP/1.1 101 Switching Protocols\r\nConnection: Upgrade\r\nSec-WebSocket-Accept: ";

/// The response after the accept key: one more header and the empty line.
pub const RESPONSE_TAIL: &'static str = "\r\nUpgrade: websocket\r\n\r\n";

/// The hasher takes fewer bytes than this.
pub const DIGEST_INPUT_LIMIT: u64 = 0x2000_0000_0000_0000;

/// The 20 bytes that the `sha1` crate computes as the digest of `data`.
pub uninterp spec fn sha1_digest(data: Seq<u8>) -> Seq<u8>;

/// The text that `rustc_serialize` gives as the standard Base64 form of
/// `data`: the alphabet with `+` and `/`, padded with `=`, on one line.
pub uninterp spec fn base64_standard(data: Seq<u8>) -> Seq<char>;

/// What is hashed for a client key: the bytes of the key, then those of the
/// fixed identifier.
pub open spec fn accept_input(client_key: Seq<char>) -> Seq<u8> {
    encode_utf8(client_key) + WEBSOCKET_GUID.spec_bytes()
}

/// The accept key that answers a client key: the Base64 form of the digest
/// of the key followed by the fixed identifier.
pub open spec fn accept_key(client_key: Seq<char>) -> Seq<char> {
    base64_standard(sha1_digest(accept_input(client_key)))
}

/// The bytes of the upgrade response that carries `accept`.
pub open spec fn response_bytes(accept: Seq<char>) -> Seq<u8> {
    RESPONSE_HEAD.spec_bytes() + encode_utf8(accept) + RESPONSE_TAIL.spec_bytes()
}

/// Hashes `data` with `sha1::Sha1`: a fresh hasher, one `update`, then
/// `digest().bytes()`. The digest is a function of the bytes alone. The
/// hasher counts the input in bits in a `u64`, which overflows from 2^61
/// bytes on.
#[verifier::external_body]
fn sha1_of(data: &[u8]) -> (r: [u8; 20])
    requires
        data@.len() < DIGEST_INPUT_LIMIT,
    ensures
        r@ == sha1_digest(data@),
{
    let mut m = sha1::Sha1::new();
    m.update(data);
    m.digest().bytes()
}

/// Calls `rustc_serialize::base64::ToBase64::to_base64` on the digest with
/// the `STANDARD` configuration. The text is a function of the bytes alone.
#[verifier::external_body]
fn to_base64_standard(digest: &[u8; 20]) -> (r: String)
    ensures
        r@ == base64_standard(digest@),
{
    digest.to_base64(STANDARD)
}

/// The fixed identifier is 36 bytes long.
pub proof fn lemma_guid_length()
    ensures
        WEBSOCKET_GUID.spec_bytes().len() == 36,
{
    reveal_strlit("258EAFA5-E914-47DA-95CA-C5AB0DC85B11");
    vstd::string::is_ascii_spec_bytes(WEBSOCKET_GUID);
}

/// Whether `key` leaves room for the fixed identifier within what the
/// hasher takes. Any key that a machine can hold today does.
pub fn key_fits(key: &String) -> (r: bool)
    ensures
        r == (accept_input(key@).len() < DIGEST_INPUT_LIMIT),
{
    proof {
        lemma_guid_length();
    }
    (key.as_str().as_bytes().len() as u64) < DIGEST_INPUT_LIMIT - 36
}

/// Computes the accept key for a client's `Sec-WebSocket-Key`: the key and
/// the fixed identifier are hashed together and the digest is put in Base64.
/// The key has to fit, which [`key_fits`] tells.
pub fn gen_key(key: &String) -> (r: String)
    requires
        accept_input(key@).len() < DIGEST_INPUT_LIMIT,
    ensures
        r@ == accept_key(key@),
{
    let mut data: Vec<u8> = slice_to_vec(key.as_str().as_bytes());
    data.extend_from_slice(WEBSOCKET_GUID.as_bytes());
    assert(data@ =~= accept_input(key@));
    let digest = sha1_of(data.as_slice());
    to_base64_standard(&digest)
}

/// The upgrade response that carries `accept_key`, ready to be sent.
pub fn build_response(accept_key: &str) -> (r: Vec<u8>)
    ensures
        r@ == response_bytes(accept_key@),
{
    let mut out: Vec<u8> = slice_to_vec(RESPONSE_HEAD.as_bytes());
    out.extend_from_slice(accept_key.as_bytes());
    out.extend_from_slice(RESPONSE_TAIL.as_bytes());
    out
}

} // verus!
