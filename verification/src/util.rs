//! Small helpers shared by the other modules.

use vstd::prelude::*;
use vstd::std_specs::cmp::PartialOrdIs;
use vstd::std_specs::cmp::PartialOrdSpec;

verus! {

/// `val` held to the closed range from `min` to `max`, on mathematical integers.
///
/// The lower bound is tested first, so where `max < min` a value below `min`
/// still gives `min`.
pub open spec fn clamp_int(val: int, min: int, max: int) -> int {
    if val < min {
        min
    } else if val > max {
        max
    } else {
        val
    }
}

/// Holds `val` to the range from `min` to `max`: `min` where `val` is below
/// it, else `max` where `val` is above it, else `val` itself.
///
/// The contract speaks for every type whose `<` and `>` follow its
/// `partial_cmp`; for the integer types that is `clamp_int`.
pub fn clamp<T: PartialOrd>(val: T, min: T, max: T) -> (res: T)
    ensures
        T::obeys_partial_cmp_spec() ==> res == (if val.is_lt(&min) {
            min
        } else if val.is_gt(&max) {
            max
        } else {
            val
        }),
{
    if val < min {
        min
    } else if val > max {
        max
    } else {
        val
    }
}

} // verus!
