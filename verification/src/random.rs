//! The source of chance: payload bytes and the draws of the readers.

use rand::seq::IteratorRandom;
use vstd::prelude::*;

verus! {

/// `rand::random::<u8>`: one byte from the thread's generator. Nothing is
/// claimed of the value. (The generator gives up where the system has no
/// randomness to seed it with.)
#[verifier::external_body]
pub(crate) fn random_byte() -> u8 {
    rand::random::<u8>()
}

/// `rand::seq::IteratorRandom::choose` on the range `start..end`, with
/// `rand::thread_rng` as the generator. The method returns `None` if and only
/// if the iterator is empty, and otherwise one of the items that the iterator
/// yields: here an integer of the range. Which one is left open. The method
/// counts the items in a `usize`, so the range may hold no more than that.
#[verifier::external_body]
pub(crate) fn choose_index(start: u64, end: u64) -> (drawn: Option<u64>)
    requires
        end - start <= usize::MAX,
    ensures
        drawn is Some <==> start < end,
        drawn matches Some(index) ==> start <= index < end,
{
    (start..end).choose(&mut rand::thread_rng())
}

} // verus!
