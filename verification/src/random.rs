//! The random draws of the generator.
//!
//! Nothing in this file is proved. Each function hands one call to the `rand`
//! crate, and its contract states what holds of every value the call can
//! return. What is done with a draw is decided, and proved, elsewhere.

use rand::rngs::StdRng;
use rand::seq::SliceRandom;
use rand::Rng;
use rand::SeedableRng;
use vstd::prelude::*;

verus! {

/// `rand::rngs::StdRng`, the generator every draw is taken from. Its state is
/// opaque to the proofs.
#[verifier::external_type_specification]
#[verifier::external_body]
pub struct ExStdRng(StdRng);

/// `SeedableRng::from_entropy` for `StdRng`: a generator seeded by the
/// operating system. Nothing is claimed of it. The call panics where the
/// system has no entropy to give.
#[verifier::external_body]
pub(crate) fn fresh_rng() -> StdRng {
    StdRng::from_entropy()
}

/// `SliceRandom::choose` on a slice of bytes. It answers `None` exactly when
/// the slice is empty, and otherwise with a copy of one of its elements. Which
/// element is left open.
#[verifier::external_body]
pub(crate) fn pick_one(rng: &mut StdRng, items: &[u8]) -> (picked: Option<u8>)
    ensures
        picked is None <==> items@.len() == 0,
        picked matches Some(item) ==> items@.contains(item),
{
    items.choose(rng).copied()
}

/// `Rng::gen_range` on the inclusive range `low..=high`. The call panics on
/// an empty range, which `requires` leaves out; the value lies in the range.
#[verifier::external_body]
pub(crate) fn draw_between(rng: &mut StdRng, low: u8, high: u8) -> (drawn: u8)
    requires
        low <= high,
    ensures
        low <= drawn <= high,
{
    rng.gen_range(low..=high)
}

} // verus!
