//! Arithmetic on measures. A measure is a `u64` in hundredths of a pixel;
//! sums and products that would pass `u64::MAX` stay at `u64::MAX`, so that
//! no layout computation can fail.

use vstd::prelude::*;

verus! {

/// How many units of measure make one pixel.
pub const UNITS_PER_PIXEL: u64 = 100;

/// `v` where it is a measure, else the nearest measure.
pub open spec fn clamp(v: int) -> u64 {
    if v < 0 {
        0
    } else if v > u64::MAX {
        u64::MAX
    } else {
        v as u64
    }
}

/// The sum of two measures.
pub open spec fn spec_plus(a: u64, b: u64) -> u64 {
    clamp(a + b)
}

/// A measure taken `count` times.
pub open spec fn spec_times(a: u64, count: nat) -> u64 {
    clamp(a * count)
}

/// `percent` hundredths of `whole`, rounded down.
pub open spec fn spec_percent_of(whole: u64, percent: u64) -> u64 {
    clamp((whole * percent) / 100)
}

/// The sum of two measures.
#[verifier::when_used_as_spec(spec_plus)]
pub fn plus(a: u64, b: u64) -> (sum: u64)
    ensures
        sum == spec_plus(a, b),
{
    if a > u64::MAX - b {
        u64::MAX
    } else {
        a + b
    }
}

/// A measure taken `count` times.
pub fn times(a: u64, count: usize) -> (product: u64)
    ensures
        product == spec_times(a, count as nat),
{
    assert(0 <= a * count <= 0xffff_ffff_ffff_ffff * 0xffff_ffff_ffff_ffff) by (nonlinear_arith)
        requires
            0 <= a <= 0xffff_ffff_ffff_ffff,
            0 <= count <= 0xffff_ffff_ffff_ffff,
    ;
    let wide: u128 = (a as u128) * (count as u128);
    if wide > u64::MAX as u128 {
        u64::MAX
    } else {
        wide as u64
    }
}

/// `percent` hundredths of `whole`, rounded down.
#[verifier::when_used_as_spec(spec_percent_of)]
pub fn percent_of(whole: u64, percent: u64) -> (part: u64)
    ensures
        part == spec_percent_of(whole, percent),
{
    assert(0 <= whole * percent <= 0xffff_ffff_ffff_ffff * 0xffff_ffff_ffff_ffff)
        by (nonlinear_arith)
        requires
            0 <= whole <= 0xffff_ffff_ffff_ffff,
            0 <= percent <= 0xffff_ffff_ffff_ffff,
    ;
    let wide: u128 = (whole as u128) * (percent as u128) / 100;
    if wide > u64::MAX as u128 {
        u64::MAX
    } else {
        wide as u64
    }
}

} // verus!
