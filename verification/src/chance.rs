//! The random draws the crate makes. Each function here hands one call to the
//! `rand` or `uuid` crate; its contract is taken on trust from that crate's
//! documentation and states only what holds of every outcome.

use crate::creature::Direction;
use rand::rngs::StdRng;
use rand::seq::SliceRandom;
use rand::{Rng, SeedableRng};
use uuid::Uuid;
use vstd::prelude::*;

verus! {

/// The generator of the `rand` crate that every draw is taken from. Nothing
/// is known of its state.
#[verifier::external_type_specification]
#[verifier::external_body]
pub struct ExStdRng(StdRng);

/// A generator seeded from the calling thread's generator
/// (`rand::thread_rng` handed to `SeedableRng::from_rng`). Nothing is
/// claimed of the generator that comes back.
#[verifier::external_body]
pub(crate) fn thread_seeded_rng() -> StdRng {
    StdRng::from_rng(rand::thread_rng()).expect("the thread generator yields a seed")
}

/// `Rng::gen_range` over `0..bound`: the draw lies below `bound`. The range
/// must not be empty, or `gen_range` panics.
#[verifier::external_body]
pub(crate) fn uniform_below(rng: &mut StdRng, bound: u64) -> (r: u64)
    requires
        bound > 0,
    ensures
        r < bound,
{
    rng.gen_range(0..bound)
}

/// `Rng::gen` for `bool`: a fair coin. Nothing is claimed of the outcome.
#[verifier::external_body]
pub(crate) fn coin_flip(rng: &mut StdRng) -> bool {
    rng.gen::<bool>()
}

/// `SliceRandom::shuffle`: the vector is permuted in place, so it holds the
/// same items as often as before.
#[verifier::external_body]
pub(crate) fn shuffle(rng: &mut StdRng, order: &mut Vec<usize>)
    ensures
        final(order)@.to_multiset() == old(order)@.to_multiset(),
{
    order.shuffle(rng)
}

/// `SliceRandom::choose` on a list of directions: one of the options comes
/// back. The list must not be empty, or there is nothing to choose.
#[verifier::external_body]
pub(crate) fn choose_direction(rng: &mut StdRng, options: &Vec<Direction>) -> (chosen: Direction)
    requires
        options@.len() > 0,
    ensures
        options@.contains(chosen),
{
    *options.choose(rng).expect("a list that is not empty")
}

/// `SliceRandom::choose_multiple`: `amount` items of `items`, or all of them
/// where there are fewer, each position taken at most once, in no stated
/// order.
#[verifier::external_body]
pub(crate) fn choose_multiple(
    rng: &mut StdRng,
    items: &Vec<usize>,
    amount: usize,
) -> (picked: Vec<usize>)
    ensures
        picked@.len() == if amount <= items@.len() { amount as int } else { items@.len() as int },
        picked@.to_multiset().subset_of(items@.to_multiset()),
{
    items.choose_multiple(rng, amount).copied().collect()
}

/// `Uuid::new_v4` as a 128-bit number (`Uuid::as_u128`). The identifier is
/// random: nothing is claimed of it, not even that it is new.
#[verifier::external_body]
pub(crate) fn random_id() -> u128 {
    Uuid::new_v4().as_u128()
}

} // verus!
