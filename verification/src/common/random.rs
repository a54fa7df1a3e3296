//! The random generators behind shuffling. Nothing here is proved: each
//! item states what the library takes for granted of the `rand` crate.

use super::card::is_reordering;
use super::card::Card;
use rand::seq::SliceRandom;
use vstd::prelude::*;

verus! {

/// The handle `rand::rngs::ThreadRng` to the generator of the current
/// thread. It is only carried from where it is made to where it is used.
#[verifier::external_type_specification]
#[verifier::external_body]
pub struct ExThreadRng(rand::rngs::ThreadRng);

/// The generator `rand::rngs::StdRng`, which a caller seeds and hands to
/// the library. It is only carried to where it is used.
#[verifier::external_type_specification]
#[verifier::external_body]
pub struct ExStdRng(rand::rngs::StdRng);

/// Calls `rand::thread_rng`, which hands out the generator of the current
/// thread, seeded by the system. Nothing is claimed of the handle. The
/// call fails only where the system cannot seed a generator at all.
#[verifier::external_body]
pub(crate) fn thread_generator() -> rand::rngs::ThreadRng {
    rand::thread_rng()
}

/// Calls `SliceRandom::shuffle` of `rand` on the cards with a seeded
/// generator. The shuffle only swaps cards with one another, so whatever
/// the generator yields, the vector afterwards holds the cards it held
/// before, each as often. Which order comes out is left open.
#[verifier::external_body]
pub(crate) fn shuffle_cards_seeded(cards: &mut Vec<Card>, rng: &mut rand::rngs::StdRng)
    ensures
        is_reordering(final(cards)@, old(cards)@),
{
    cards.shuffle(rng);
}

/// Calls `SliceRandom::shuffle` of `rand` on the cards with the generator
/// of the current thread. The shuffle only swaps cards with one another,
/// so whatever the generator yields, the vector afterwards holds the cards
/// it held before, each as often. Which order comes out is left open.
#[verifier::external_body]
pub(crate) fn shuffle_cards_thread(cards: &mut Vec<Card>, rng: &mut rand::rngs::ThreadRng)
    ensures
        is_reordering(final(cards)@, old(cards)@),
{
    cards.shuffle(rng);
}

} // verus!
