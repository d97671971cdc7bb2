//! The source of chance.

use rand::Rng;
use vstd::prelude::*;

verus! {

/// `rand::Rng::gen_range` on the generator of the current thread
/// (`rand::thread_rng`): some integer from `low` up to, but not including,
/// `high`. Which one is left open; that it lies in this range is taken
/// from the documentation of `gen_range`, and nothing here proves it.
/// `gen_range` panics where `low >= high`. The generator takes its seed
/// from the system when a thread first uses it, and panics where the
/// system has none to give: no argument rules that out.
#[verifier::external_body]
pub(crate) fn gen_range(low: isize, high: isize) -> (r: isize)
    requires
        low < high,
    ensures
        low <= r < high,
{
    rand::thread_rng().gen_range(low, high)
}

} // verus!
