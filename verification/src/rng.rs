//! The library's one source of chance: a uniformly random angle.
use vstd::prelude::*;
use crate::num::FULL_TURN;
use rand::Rng;

verus! {

/// Relies on rand's `thread_rng` and `Rng::gen_range` over the integer
/// range `0..360000`, which panics only on an empty range and returns a
/// value within the given one. Nothing more is assumed of the draw.
#[verifier::external_body]
pub(crate) fn random_angle_mdeg() -> (r: i64)
    ensures
        0 <= r < FULL_TURN,
{
    rand::thread_rng().gen_range(0..360000i64)
}

} // verus!
