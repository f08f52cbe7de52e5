//! Small pieces of integer arithmetic that several modules share.

use vstd::prelude::*;

verus! {

/// The size of `x` without its sign.
pub open spec fn magnitude(x: int) -> int {
    if x < 0 {
        -x
    } else {
        x
    }
}

/// The mid price of a bid and an ask: half their sum, rounded down.
pub open spec fn mid_of(bid: int, ask: int) -> int {
    (bid + ask) / 2
}

/// `x`, or the nearest end of the range of `i64` if it lies outside.
pub open spec fn clamp_i64(x: int) -> i64 {
    if x < i64::MIN {
        i64::MIN
    } else if x > i64::MAX {
        i64::MAX
    } else {
        x as i64
    }
}

/// `x`, or the nearest end of the range of `u64` if it lies outside.
pub open spec fn clamp_u64(x: int) -> u64 {
    if x < 0 {
        0
    } else if x > u64::MAX {
        u64::MAX
    } else {
        x as u64
    }
}

/// `x + y`, and no more than `u64::MAX`.
pub open spec fn capped_sum(x: u64, y: nat) -> u64 {
    if x + y <= u64::MAX {
        (x + y) as u64
    } else {
        u64::MAX
    }
}

/// A wide integer brought into the range of `i64`.
pub(crate) fn clamp_wide(x: i128) -> (r: i64)
    ensures
        r == clamp_i64(x as int),
{
    if x < i64::MIN as i128 {
        i64::MIN
    } else if x > i64::MAX as i128 {
        i64::MAX
    } else {
        x as i64
    }
}

} // verus!
