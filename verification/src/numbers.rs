//! Sums that stop at the ends of their type.

use vstd::prelude::*;

verus! {

/// `a + b`, held at the largest `u64`.
pub open spec fn saturating_add_u64(a: u64, b: u64) -> u64 {
    if a + b > u64::MAX {
        u64::MAX
    } else {
        (a + b) as u64
    }
}

/// `a + b`, held within `i64`.
pub open spec fn saturating_add_i64(a: i64, b: i64) -> i64 {
    if a + b > i64::MAX {
        i64::MAX
    } else if a + b < i64::MIN {
        i64::MIN
    } else {
        (a + b) as i64
    }
}

/// `a + b`, held at the largest `u64`.
pub fn add_saturating_u64(a: u64, b: u64) -> (r: u64)
    ensures
        r == saturating_add_u64(a, b),
{
    a.saturating_add(b)
}

/// `a + b`, held within `i64`.
pub fn add_saturating_i64(a: i64, b: i64) -> (r: i64)
    ensures
        r == saturating_add_i64(a, b),
{
    match a.checked_add(b) {
        Some(sum) => sum,
        None => if b > 0 {
            i64::MAX
        } else {
            i64::MIN
        },
    }
}

} // verus!
