//! The random generator of the `rand` crate, as the credential generators
//! use it. Nothing here is proved: each item states what `rand` documents.

use vstd::prelude::*;
use rand::seq::{IndexedRandom, SliceRandom};
use rand::RngExt;
use rand::rngs::ThreadRng;

verus! {

#[verifier::external_type_specification]
#[verifier::external_body]
pub struct ExThreadRng(rand::rngs::ThreadRng);

/// `rand::rng`: a handle to the thread-local generator. Nothing is promised
/// of its state. `rand` panics here, and in the calls below, only if the
/// operating system's randomness source fails; that case is not excluded.
#[verifier::external_body]
pub(crate) fn thread_rng() -> ThreadRng {
    rand::rng()
}

/// `IndexedRandom::choose` on bytes: `None` exactly when `items` is empty,
/// otherwise one of the bytes of `items` (which one is left to chance).
#[verifier::external_body]
pub(crate) fn choose_byte(items: &[u8], rng: &mut ThreadRng) -> (r: Option<u8>)
    ensures
        items@.len() == 0 <==> r is None,
        r matches Some(b) ==> items@.contains(b),
{
    items.choose(rng).copied()
}

/// `RngExt::random_range` over `0..end`: some index below `end`. An empty
/// range makes `rand` panic, so `end` must be positive.
#[verifier::external_body]
pub(crate) fn random_index(rng: &mut ThreadRng, end: usize) -> (r: usize)
    requires
        end > 0,
    ensures
        r < end,
{
    rng.random_range(0..end)
}

/// `SliceRandom::shuffle`: the same bytes in some order.
#[verifier::external_body]
pub(crate) fn shuffle_bytes(items: &mut Vec<u8>, rng: &mut ThreadRng)
    ensures
        final(items)@.to_multiset() == old(items)@.to_multiset(),
{
    items.shuffle(rng)
}

} // verus!
