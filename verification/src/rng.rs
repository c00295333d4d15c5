//! The source of chance: a seedable generator of the `rand` crate.

use vstd::prelude::*;
use rand::rngs::StdRng;
use rand::Rng;

verus! {

/// `rand::rngs::StdRng`, the generator that is handed through the library.
/// Nothing is known of what it holds.
#[verifier::external_type_specification]
#[verifier::external_body]
pub struct ExStdRng(StdRng);

/// `Rng::gen_range` of `rand`, on `i64`. Believed of it: the value it
/// returns lies in `low..high`. It panics unless `low < high`.
#[verifier::external_body]
pub(crate) fn gen_range(rng: &mut StdRng, low: i64, high: i64) -> (r: i64)
    requires
        low < high,
    ensures
        low <= r < high,
{
    rng.gen_range(low, high)
}

} // verus!
