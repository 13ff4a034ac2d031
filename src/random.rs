//! The one source of chance in the engine: drawing a tetromino kind.
use vstd::prelude::*;
use rand::Rng;

verus! {

#[verifier::external_type_specification]
#[verifier::external_body]
pub struct ExStdRng(rand::rngs::StdRng);

/// Relies on rand's `Rng::random_range` over the closed range `1..=7`:
/// the value returned lies in that range. The range is not empty, so the call
/// does not panic.
#[verifier::external_body]
pub(crate) fn roll_one_to_seven(rng: &mut rand::rngs::StdRng) -> (r: u8)
    ensures
        1 <= r <= 7,
{
    rng.random_range(1..=7u8)
}

} // verus!
