//! Conversion between raw brightness units and the percentage scale.
//!
//! A percentage is carried as an integer count of milli-percent units:
//! 1000 units are one percentage point.  All conversions truncate, never
//! round; the round-trip drift this causes is bounded below by
//! [`lemma_percent_round_trip`].

use vstd::arithmetic::div_mod::lemma_fundamental_div_mod;
use vstd::prelude::*;

verus! {

/// Lowest accepted percentage: 0.1%, so that this tool cannot switch a
/// display fully off.
pub const MIN_PERCENT_MILLI: u64 = 100;

/// Highest accepted percentage: 100.0%.
pub const MAX_PERCENT_MILLI: u64 = 100_000;

/// One hundred percent in milli-percent units; the divisor of every
/// percentage conversion.
pub const PERCENT_SCALE_MILLI: u64 = 100_000;

/// A milli-percent value clamped into the accepted range
/// `[MIN_PERCENT_MILLI, MAX_PERCENT_MILLI]`.
pub open spec fn spec_clamp_percent(p: int) -> int {
    if p < MIN_PERCENT_MILLI as int {
        MIN_PERCENT_MILLI as int
    } else if p > MAX_PERCENT_MILLI as int {
        MAX_PERCENT_MILLI as int
    } else {
        p
    }
}

/// The raw value that a milli-percent value converts to: truncating.
pub open spec fn spec_raw_from_percent(p: int, max: int) -> int {
    p * (max as int) / (PERCENT_SCALE_MILLI as int)
}

/// The milli-percent value that a raw value converts to: truncating.
pub open spec fn spec_percent_from_raw(value: int, max: int) -> int {
    value * (PERCENT_SCALE_MILLI as int) / (max as int)
}

/// Clamp a signed milli-percent value into the accepted range.
pub fn clamp_percent(p: i128) -> (r: u64)
    ensures
        r == spec_clamp_percent(p as int),
{
    if p < MIN_PERCENT_MILLI as i128 {
        MIN_PERCENT_MILLI
    } else if p > MAX_PERCENT_MILLI as i128 {
        MAX_PERCENT_MILLI
    } else {
        p as u64
    }
}

/// The percentage (in milli-percent) that a raw `value` stands for on a
/// device whose highest raw value is `max`.  No clamping: a raw value
/// above `max` yields more than 100%.
pub fn get_percentage(value: u32, max: u32) -> (r: u64)
    requires
        max >= 1,
    ensures
        r == spec_percent_from_raw(value as int, max as int),
{
    ((value as u64) * PERCENT_SCALE_MILLI) / (max as u64)
}

/// The raw value that a milli-percent value `p` stands for on a device
/// whose highest raw value is `max`.  Truncates, so the result never
/// exceeds `max`.
pub fn get_value_from_percentage(p: u64, max: u32) -> (r: u32)
    requires
        p <= MAX_PERCENT_MILLI,
    ensures
        r == spec_raw_from_percent(p as int, max as int),
        r <= max,
{
    proof {
        assert((p as int) * (max as int) <= (MAX_PERCENT_MILLI as int) * (max as int))
            by (nonlinear_arith)
            requires
                p <= MAX_PERCENT_MILLI,
        ;
        assert((MAX_PERCENT_MILLI as int) * (max as int) / (PERCENT_SCALE_MILLI as int) == max);
        assert((p as int) * (max as int) / (PERCENT_SCALE_MILLI as int) <= (
        MAX_PERCENT_MILLI as int) * (max as int) / (PERCENT_SCALE_MILLI as int))
            by (nonlinear_arith)
            requires
                (p as int) * (max as int) <= (MAX_PERCENT_MILLI as int) * (max as int),
        ;
    }
    let wide: u64 = (p * (max as u64)) / PERCENT_SCALE_MILLI;
    wide as u32
}

/// A clamped percentage converts to a raw value inside the device's
/// native range.
pub proof fn lemma_raw_in_range(p: int, max: int)
    requires
        0 <= p <= MAX_PERCENT_MILLI as int,
        max >= 1,
    ensures
        0 <= spec_raw_from_percent(p, max) <= max,
{
    assert(0 <= p * max <= (MAX_PERCENT_MILLI as int) * max) by (nonlinear_arith)
        requires
            0 <= p <= MAX_PERCENT_MILLI as int,
            max >= 1,
    ;
    assert((MAX_PERCENT_MILLI as int) * max / (PERCENT_SCALE_MILLI as int) == max);
    assert(p * max / (PERCENT_SCALE_MILLI as int) <= (MAX_PERCENT_MILLI as int) * max / (
    PERCENT_SCALE_MILLI as int)) by (nonlinear_arith)
        requires
            p * max <= (MAX_PERCENT_MILLI as int) * max,
    ;
    assert(p * max / (PERCENT_SCALE_MILLI as int) >= 0) by (nonlinear_arith)
        requires
            p * max >= 0,
    ;
}

/// Truncation-bounded round trip: converting a percentage to a raw value
/// and back never gains, and loses less than one raw unit's worth of
/// percentage plus one milli-percent (the two truncations).
pub proof fn lemma_percent_round_trip(p: int, max: int)
    requires
        MIN_PERCENT_MILLI as int <= p <= MAX_PERCENT_MILLI as int,
        max >= 1,
    ensures
        spec_percent_from_raw(spec_raw_from_percent(p, max), max) <= p,
        (p - spec_percent_from_raw(spec_raw_from_percent(p, max), max)) * max < (
        PERCENT_SCALE_MILLI as int) + max,
{
    let m = PERCENT_SCALE_MILLI as int;
    let raw = spec_raw_from_percent(p, max);
    let back = spec_percent_from_raw(raw, max);
    let s = (p * max) % m;
    let t = (raw * m) % max;
    lemma_fundamental_div_mod(p * max, m);
    lemma_fundamental_div_mod(raw * m, max);
    assert(p * max == m * raw + s);
    assert(raw * m == max * back + t);
    assert(0 <= s < m);
    assert(0 <= t < max);
    assert(max * back == p * max - s - t) by (nonlinear_arith)
        requires
            p * max == m * raw + s,
            raw * m == max * back + t,
    ;
    assert(back <= p && (p - back) * max == s + t) by (nonlinear_arith)
        requires
            max * back == p * max - s - t,
            0 <= s,
            0 <= t,
            max >= 1,
    ;
}

} // verus!
