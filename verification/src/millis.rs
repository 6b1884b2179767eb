//! Durations in milliseconds, counted in 32 bits.

use vstd::prelude::*;

verus! {

/// `a + b`, at most the largest duration.
pub open spec fn sat(a: int, b: int) -> int {
    if a + b > u32::MAX {
        u32::MAX as int
    } else {
        a + b
    }
}

} // verus!
