use rand::rngs::SmallRng;
use rand::seq::IteratorRandom;
use rand::{Rng, SeedableRng};
use vstd::prelude::*;
use crate::location::Direction;

verus! {

/// The small generator of the rand crate. Nothing is known of its state.
#[verifier::external_type_specification]
#[verifier::external_body]
pub struct ExSmallRng(rand::rngs::SmallRng);

/// Calls `SmallRng::seed_from_u64`, which builds a generator from the seed.
/// Trusted, and nothing is claimed of the generator.
#[verifier::external_body]
pub(crate) fn rng_from_seed(seed: u64) -> SmallRng {
    SmallRng::seed_from_u64(seed)
}

/// Calls `IteratorRandom::choose` on the items of `moves`, which returns
/// `None` if and only if there is no item, and else one of the items.
/// Trusted: exactly that; which item comes back is left open.
#[verifier::external_body]
pub(crate) fn rng_choose(rng: &mut SmallRng, moves: &Vec<Direction>) -> (chosen: Option<
    Direction,
>)
    ensures
        chosen is Some <==> moves@.len() > 0,
        chosen is Some ==> moves@.contains(chosen.unwrap()),
{
    moves.iter().copied().choose(rng)
}

/// Calls `Rng::gen` for a `u64`, which draws the generator's next value.
/// Trusted, and nothing is claimed of the value.
#[verifier::external_body]
pub(crate) fn rng_next_u64(rng: &mut SmallRng) -> u64 {
    rng.gen()
}

} // verus!
