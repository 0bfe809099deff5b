use vstd::prelude::*;

use rand::RngExt;

verus! {

/// A number drawn uniformly from `lo..hi` by `RngExt::random_range` on the
/// thread-local generator `rand::rng()`. Only the range is stated: which
/// number comes is chance. (`random_range` panics on an empty range, which
/// `requires` rules out; the generator's seeding from the operating system
/// is not described here.)
#[verifier::external_body]
pub(crate) fn random_in(lo: u64, hi: u64) -> (r: u64)
    requires
        lo < hi,
    ensures
        lo <= r < hi,
{
    rand::rng().random_range(lo..hi)
}

/// A percentile roll: uniform in `0..100`.
pub fn roll_percent() -> (r: u32)
    ensures
        r < 100,
{
    random_in(0, 100) as u32
}

} // verus!
