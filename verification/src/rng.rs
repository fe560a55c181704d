//! Trusted wrappers around the process random number generator.
//!
//! Shuffling, tie-breaking and parameter mutation all draw from `rand`.
//! Each wrapper states only what holds of every possible outcome; no
//! verified code depends on which outcome was drawn.

use vstd::prelude::*;

use crate::Card;
use rand::seq::SliceRandom;
use rand::Rng;

verus! {

/// Relies on rand's `SliceRandom::shuffle`: a Fisher-Yates shuffle permutes
/// the slice in place, so the cards afterwards are exactly the cards before,
/// in some order.
#[verifier::external_body]
pub(crate) fn shuffle_cards(deck: &mut Vec<Card>)
    ensures
        final(deck)@.to_multiset() == old(deck)@.to_multiset(),
        final(deck)@.len() == old(deck)@.len(),
{
    let mut rng = rand::thread_rng();
    deck.shuffle(&mut rng);
}

/// Relies on rand's `Rng::gen_range`: for a non-empty half-open range the
/// result is drawn from inside it (`gen_range` panics only on an empty
/// range, which the precondition excludes).
#[verifier::external_body]
pub(crate) fn random_in(lo: u64, hi: u64) -> (r: u64)
    requires
        lo < hi,
    ensures
        lo <= r < hi,
{
    rand::thread_rng().gen_range(lo..hi)
}

/// Relies on rand's `random::<bool>()`: nothing can be promised of a fair
/// coin, so this wrapper has no postcondition beyond its type.
#[verifier::external_body]
pub(crate) fn random_bool() -> bool {
    rand::random::<bool>()
}

} // verus!
