//! The calls into the `rand` crate.
//!
//! Nothing in this file is proved: each contract restates what the crate's
//! documentation and source say of the call in the body.
use vstd::prelude::*;
use rand::Rng;
use rand::SeedableRng;
use rand::seq::SliceRandom;
use crate::position::Position;

verus! {

#[verifier::external_type_specification]
#[verifier::external_body]
pub struct ExThreadRng(rand::rngs::ThreadRng);

/// `rand::thread_rng`: a handle to the generator of the calling thread, which
/// the operating system seeds. Nothing is known of what it will draw.
#[verifier::external_body]
pub(crate) fn thread_generator() -> (rng: rand::rngs::ThreadRng) {
    rand::thread_rng()
}

/// `Rng::gen_range` on the inclusive range from `low` to `high`: a value of
/// that range. The call panics on an empty range, which `requires` leaves out.
#[verifier::external_body]
pub(crate) fn draw_between(rng: &mut rand::rngs::ThreadRng, low: i32, high: i32) -> (n: i32)
    requires
        low <= high,
    ensures
        low <= n <= high,
{
    rng.gen_range(low..=high)
}

/// `Rng::gen` for `u64`: any value may come back.
#[verifier::external_body]
pub(crate) fn draw_seed(rng: &mut rand::rngs::ThreadRng) -> (seed: u64) {
    rng.gen()
}

/// `SliceRandom::choose`: `None` for an empty slice, otherwise one of its
/// elements.
#[verifier::external_body]
pub(crate) fn choose_from<T: Copy>(items: &Vec<T>, rng: &mut rand::rngs::ThreadRng) -> (picked:
    Option<T>)
    ensures
        items@.len() == 0 ==> picked is None,
        items@.len() > 0 ==> picked is Some && items@.contains(picked->0),
{
    items.choose(rng).copied()
}

/// The order in which `SliceRandom::shuffle` leaves `cells` when it draws from
/// a `StdRng` that `SeedableRng::seed_from_u64` made from `seed`.
pub uninterp spec fn shuffled_cells(seed: u64, cells: Seq<Position>) -> Seq<Position>;

/// `SliceRandom::shuffle` with a `StdRng` seeded from `seed`. The generator is
/// a pure function of its seed, so the outcome depends on `seed` and the cells
/// alone; the shuffle only swaps elements, so it keeps every cell as often as
/// it occurred.
#[verifier::external_body]
pub(crate) fn shuffle_cells(seed: u64, cells: &mut Vec<Position>)
    ensures
        final(cells)@ == shuffled_cells(seed, old(cells)@),
        final(cells)@.to_multiset() == old(cells)@.to_multiset(),
{
    let mut rng = rand::rngs::StdRng::seed_from_u64(seed);
    cells.shuffle(&mut rng);
}

} // verus!
