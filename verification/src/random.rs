//! Random draws from the pseudo-random generator of the `fastrand` crate.
//!
//! A `fastrand::Rng` is nothing but a 64-bit state, which every draw
//! advances; the library holds that state as an `RngState`, so that each
//! draw is a function of the state before it.
use vstd::prelude::*;

use crate::civilization::Civilization;

verus! {

/// The state of a `fastrand::Rng` generator: the integer it holds, which
/// `fastrand::Rng::with_seed` takes and `fastrand::Rng::get_seed` gives back.
#[derive(Copy, Clone, PartialEq, Eq, Structural, Debug, Hash)]
pub struct RngState(pub u64);

/// What `fastrand::Rng::choice` returns on the range `0..len` from a
/// generator in state `seed`, on a machine whose `usize` has `usize_bits`
/// bits, with the state of the generator after the call.
pub uninterp spec fn fastrand_choice_index(seed: u64, len: usize, usize_bits: u32) -> (
    Option<usize>,
    u64,
);

/// What `fastrand::Rng::choose_multiple` returns on `source` and `amount`
/// from a generator in state `seed`, on a machine whose `usize` has
/// `usize_bits` bits, with the state of the generator after the call.
pub uninterp spec fn fastrand_choose_multiple_civilizations(
    seed: u64,
    source: Seq<Civilization>,
    amount: usize,
    usize_bits: u32,
) -> (Seq<Civilization>, u64);

/// Draws an index below `len` with `fastrand::Rng::choice` on the range
/// `0..len`, from a generator in state `rng`, and leaves in `rng` the state
/// the generator ends in. The draw depends on nothing but the state, `len`
/// and the width of `usize` (the crate draws a `usize` from 32 bits where
/// `usize` has 32, from 64 where it has 64), and is named by
/// `fastrand_choice_index`. The crate's source returns `None` for an empty
/// range and otherwise the element at an index it drew below `len`, which
/// for a range starting at zero is that index.
#[verifier::external_body]
pub(crate) fn choose_index(rng: &mut RngState, len: usize, usize_bits: u32) -> (r: Option<usize>)
    requires
        usize_bits == usize::BITS,
    ensures
        (r, final(rng).0) == fastrand_choice_index(old(rng).0, len, usize_bits),
        r is None <==> len == 0,
        r matches Some(i) ==> i < len,
{
    let mut generator = fastrand::Rng::with_seed(rng.0);
    let r = generator.choice(0..len);
    rng.0 = generator.get_seed();
    r
}

/// Draws civilizations with `fastrand::Rng::choose_multiple`, from a
/// generator in state `rng`, and leaves in `rng` the state the generator
/// ends in. The draw depends on nothing but the state, the source, the
/// amount and the width of `usize`, and is named by
/// `fastrand_choose_multiple_civilizations`. The crate's source fills a
/// reservoir with the first `amount` items and then replaces slots with
/// later items, each item of the source used at most once: the result has
/// `min(amount, source.len())` items, and together they are a part of the
/// source.
#[verifier::external_body]
pub(crate) fn choose_multiple_civilizations(
    rng: &mut RngState,
    source: Vec<Civilization>,
    amount: usize,
    usize_bits: u32,
) -> (r: Vec<Civilization>)
    requires
        usize_bits == usize::BITS,
    ensures
        (r@, final(rng).0) == fastrand_choose_multiple_civilizations(
            old(rng).0,
            source@,
            amount,
            usize_bits,
        ),
        r.len() == if amount <= source.len() {
            amount
        } else {
            source.len()
        },
        r@.to_multiset().subset_of(source@.to_multiset()),
{
    let mut generator = fastrand::Rng::with_seed(rng.0);
    let r = generator.choose_multiple(source, amount);
    rng.0 = generator.get_seed();
    r
}

/// The index drawn below `len` from state `seed`, with the state after the
/// draw.
pub open spec fn spec_draw_index(seed: u64, len: int) -> (Option<usize>, u64) {
    fastrand_choice_index(seed, len as usize, usize::BITS)
}

/// One of `choices` picked from state `seed`, with the state after the
/// pick.
pub open spec fn spec_pick_bool(seed: u64, choices: Seq<bool>) -> (bool, u64) {
    let (i, next) = spec_draw_index(seed, choices.len() as int);
    (choices[i.unwrap() as int], next)
}

/// Picks one of `choices` at random, as `fastrand::Rng::choice` does on an
/// array of choices.
pub fn pick_bool(rng: &mut RngState, choices: &[bool]) -> (r: bool)
    requires
        choices@.len() > 0,
    ensures
        (r, final(rng).0) == spec_pick_bool(old(rng).0, choices@),
        choices@.contains(r),
{
    let i = choose_index(rng, choices.len(), usize::BITS).unwrap();
    let r = choices[i];
    assert(choices@[i as int] == r);
    r
}

} // verus!
