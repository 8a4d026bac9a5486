//! The source of chance.
//!
//! Everything random in the game comes through the functions of this
//! module.  Their contracts state only what holds of every draw, so what
//! is proved of the game holds however the dice fall.

use vstd::prelude::*;

verus! {

/// Draws `amount` different positions out of `0..length`.
///
/// Wraps `rand::seq::index::sample` with the thread-local generator: it
/// returns exactly `amount` distinct indices below `length`, in random
/// order, and panics when asked for more than there are, which the
/// precondition rules out.
#[verifier::external_body]
pub(crate) fn sample_indices(length: usize, amount: usize) -> (picked: Vec<usize>)
    requires
        amount <= length,
    ensures
        picked@.len() == amount,
        forall|i: int| 0 <= i < picked@.len() ==> picked@[i] < length,
        picked@.no_duplicates(),
{
    rand::seq::index::sample(&mut rand::thread_rng(), length, amount).into_vec()
}

/// Draws a number.
///
/// Wraps `rand::random::<usize>`; any value may come back.
#[verifier::external_body]
pub(crate) fn random_usize() -> usize {
    rand::random::<usize>()
}

} // verus!
