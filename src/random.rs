use rand::Rng;
use rand::RngCore;
use vstd::prelude::*;

verus! {

/// Relies on rand's `Rng::gen_range` on the thread-local generator: a value
/// drawn from `low..high`, which panics on an empty range.
#[verifier::external_body]
pub(crate) fn random_below(low: u64, high: u64) -> (r: u64)
    requires
        low < high,
    ensures
        low <= r < high,
{
    rand::thread_rng().gen_range(low..high)
}

/// Relies on rand's `RngCore::next_u32` on the thread-local generator: any
/// 32-bit value.
#[verifier::external_body]
pub(crate) fn random_u32() -> (r: u32) {
    rand::thread_rng().next_u32()
}

/// A fair coin, drawn as the parity of a random 32-bit value.
pub(crate) fn random_coin() -> (r: bool) {
    random_u32() % 2 == 0
}

} // verus!
