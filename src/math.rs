//! Small numeric helpers.
use vstd::prelude::*;

verus! {

/// `value` limited to the range between `min` and `max`, which may come in either order.
pub open spec fn spec_clamp(value: int, min: int, max: int) -> int {
    let lo = if min > max { max } else { min };
    let hi = if min > max { min } else { max };
    if value > hi {
        hi
    } else if value < lo {
        lo
    } else {
        value
    }
}

/// `value` limited to the range between `min` and `max`; the bounds may be given in
/// either order.
pub fn clamp(value: i64, min: i64, max: i64) -> (r: i64)
    ensures
        r == spec_clamp(value as int, min as int, max as int),
{
    let mut real_min = min;
    let mut real_max = max;
    if min > max {
        real_min = max;
        real_max = min;
    }
    let mut result = value;
    if value < real_min {
        result = real_min;
    }
    if value > real_max {
        result = real_max;
    }
    result
}

} // verus!
