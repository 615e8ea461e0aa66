//! The synthetic payload: one buffer of random bytes that every frame of a
//! run carries.

use crate::random;
use vstd::prelude::*;

verus! {

/// The size, in bytes, of the payload of a frame: 140 KiB.
pub const PAYLOAD_SIZE: usize = 140 * 1024;

/// A buffer of `size` random bytes. A run makes one and shares it: what the
/// bytes are does not matter, only how many they are.
pub fn synthetic_payload(size: usize) -> (payload: Vec<u8>)
    ensures
        payload.len() == size,
{
    let mut payload: Vec<u8> = Vec::new();
    let mut filled: usize = 0;
    while filled < size
        invariant
            filled <= size,
            payload.len() == filled,
        decreases size - filled,
    {
        payload.push(random::random_byte());
        filled = filled + 1;
    }
    payload
}

} // verus!
