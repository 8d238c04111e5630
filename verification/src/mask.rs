//! The payload masking transform.

use vstd::prelude::*;

verus! {

/// `payload` with each byte XORed with the key byte at its index modulo 4.
pub open spec fn masked(payload: Seq<u8>, key: Seq<u8>) -> Seq<u8>
    recommends
        key.len() == 4,
{
    Seq::new(payload.len(), |i: int| payload[i] ^ key[i % 4])
}

/// Applies the masking transform to `payload` in place.
pub fn apply_mask(mask: [u8; 4], payload: &mut Vec<u8>)
    ensures
        final(payload)@ == masked(old(payload)@, mask@),
{
    let n = payload.len();
    let mut i: usize = 0;
    while i < n
        invariant
            i <= n,
            payload.len() == n,
            n == old(payload).len(),
            forall|j: int| 0 <= j < i ==> payload@[j] == old(payload)@[j] ^ mask@[j % 4],
            forall|j: int| i <= j < n ==> payload@[j] == old(payload)@[j],
        decreases n - i,
    {
        let b = payload[i] ^ mask[i % 4];
        payload.set(i, b);
        i += 1;
    }
}

/// Masking is its own inverse: applying the transform twice with the same
/// key gives the bytes back as they were.
pub proof fn lemma_mask_involution(payload: Seq<u8>, key: Seq<u8>)
    ensures
        masked(masked(payload, key), key) == payload,
{
    assert forall|i: int| 0 <= i < payload.len() implies masked(masked(payload, key), key)[i]
        == payload[i] by {
        let a = payload[i];
        let k = key[i % 4];
        assert((a ^ k) ^ k == a) by (bit_vector);
    }
}

} // verus!
