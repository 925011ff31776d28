use vstd::prelude::*;

use rand::rngs::StdRng;
use rand::seq::SliceRandom;
use rand::Rng;

use crate::primitives::{Card, Suit};

verus! {

/// rand's seedable generator, carried through as an opaque value.
#[verifier::external_type_specification]
#[verifier::external_body]
pub struct ExStdRng(StdRng);

/// Relies on `SliceRandom::shuffle` from rand: it permutes the slice in place by swaps.
#[verifier::external_body]
pub(crate) fn shuffle_cards(cards: &mut Vec<Card>, rng: &mut StdRng)
    ensures
        final(cards)@.to_multiset() == old(cards)@.to_multiset(),
{
    cards.shuffle(rng);
}

/// Relies on `SliceRandom::choose` from rand: one element of a non-empty slice,
/// None for an empty one.
#[verifier::external_body]
pub(crate) fn choose_trump(options: &Vec<Option<Suit>>, rng: &mut StdRng) -> (r: Option<
    Option<Suit>,
>)
    ensures
        options@.len() == 0 <==> r is None,
        r is Some ==> options@.contains(r.unwrap()),
{
    options.choose(rng).copied()
}

/// Relies on `Rng::gen_range` from rand: a value of the range `0..n`, which must not be empty.
#[verifier::external_body]
pub(crate) fn random_index(rng: &mut StdRng, n: usize) -> (r: usize)
    requires
        n > 0,
    ensures
        r < n,
{
    rng.gen_range(0..n)
}

} // verus!
