//! Brightness as a share of the device's maximum.
//!
//! A share is held in thousandths of a percent, so that turning it into the
//! device's own unit is exact integer arithmetic: the product with the maximum
//! is divided by `FULL_SCALE` and rounded to the nearest unit, a half going
//! away from zero.

use crate::util::clamp_int;
use vstd::prelude::*;

verus! {

/// The number of thousandths in one hundred percent.
pub const FULL_SCALE: i64 = 100_000;

/// A share of the maximum, or a change of it, in thousandths of a percent.
#[derive(Clone, Copy, Debug, PartialEq, Eq, Structural)]
pub struct Percent {
    pub thousandths: i32,
}

/// `n / d` rounded to the nearest integer, a half going away from zero.
pub open spec fn round_div(n: int, d: int) -> int
    recommends
        d > 0,
{
    if n >= 0 {
        (2 * n + d) / (2 * d)
    } else {
        -((2 * -n + d) / (2 * d))
    }
}

/// The level, in the device's unit, that lies `delta` thousandths of a percent
/// of `max` away from `current`, held to the range from zero to `max`.
pub open spec fn shifted_native(current: int, delta: int, max: int) -> int {
    clamp_int(round_div(current * FULL_SCALE as int + delta * max, FULL_SCALE as int), 0, max)
}

/// The level, in the device's unit, that is `share` thousandths of a percent
/// of `max`, held to the range from zero to `max`.
pub open spec fn native_of(share: int, max: int) -> int {
    clamp_int(round_div(share * max, FULL_SCALE as int), 0, max)
}

/// A level that is shifted by nothing stays where it is, as long as it is a
/// level of the device.
pub proof fn lemma_shift_by_zero(current: int, max: int)
    requires
        0 <= current <= max,
    ensures
        shifted_native(current, 0, max) == current,
{
    let d = FULL_SCALE as int;
    assert((2 * (current * d) + d) / (2 * d) == current) by (nonlinear_arith)
        requires
            d == 100_000,
            current >= 0,
    ;
}

/// The share of `max` that the level `native` is, in thousandths of a percent
/// and rounded to the nearest one.
pub open spec fn percent_of(native: int, max: int) -> int
    recommends
        max > 0,
{
    round_div(native * FULL_SCALE as int, max)
}

/// Computes `round_div` where nothing is negative.
fn round_div_exec(n: i64, d: i64) -> (rounded: i64)
    requires
        0 <= n <= 0x7000_0000_0000_0000,
        0 < d <= 0x7FFF_FFFF,
    ensures
        rounded == round_div(n as int, d as int),
        0 <= rounded <= n + 1,
{
    let whole: i64 = n / d;
    let rest: i64 = n % d;
    proof {
        let x: int = 2 * n + d;
        let twice: int = 2 * d;
        vstd::arithmetic::div_mod::lemma_fundamental_div_mod(n as int, d as int);
        assert(0 <= whole <= n) by (nonlinear_arith)
            requires
                n == d * whole + rest,
                0 <= rest < d,
                n >= 0,
        ;
        if 2 * rest >= d {
            assert(x == (whole + 1) * twice + (2 * rest - d)) by (nonlinear_arith)
                requires
                    x == 2 * n + d,
                    twice == 2 * d,
                    n == d * whole + rest,
            ;
            vstd::arithmetic::div_mod::lemma_fundamental_div_mod_converse(
                x,
                twice,
                whole + 1,
                2 * rest - d,
            );
        } else {
            assert(x == whole * twice + (2 * rest + d)) by (nonlinear_arith)
                requires
                    x == 2 * n + d,
                    twice == 2 * d,
                    n == d * whole + rest,
            ;
            vstd::arithmetic::div_mod::lemma_fundamental_div_mod_converse(
                x,
                twice,
                whole as int,
                2 * rest + d,
            );
        }
    }
    if 2 * rest >= d {
        whole + 1
    } else {
        whole
    }
}

/// Computes `shifted_native`: the level `delta` thousandths of a percent of
/// `max` away from `current`, rounded to the nearest unit and held to the
/// device's range.
pub fn shift_native(current: i32, delta: i64, max: i32) -> (native: i32)
    requires
        max > 0,
        -0x8000_0000 <= delta <= 0x8000_0000,
    ensures
        native == shifted_native(current as int, delta as int, max as int),
        0 <= native <= max,
{
    assert(-0x4000_0000_0000_0000 <= delta * max <= 0x4000_0000_0000_0000) by (nonlinear_arith)
        requires
            -0x8000_0000 <= delta <= 0x8000_0000,
            0 < max <= 0x7FFF_FFFF,
    ;
    let n: i64 = current as i64 * FULL_SCALE + delta * (max as i64);
    if n <= 0 {
        assert(round_div(n as int, 100_000) == if n < 0 {
            -((2 * -(n as int) + 100_000) / 200_000int)
        } else {
            100_000int / 200_000int
        });
        0
    } else {
        let rounded: i64 = round_div_exec(n, FULL_SCALE);
        if rounded > max as i64 {
            max
        } else {
            rounded as i32
        }
    }
}

/// Computes `percent_of`: the share of `max` that `native` is.
pub fn percent_of_native(native: i32, max: i32) -> (share: Percent)
    requires
        0 <= native <= max,
        max > 0,
    ensures
        share.thousandths == percent_of(native as int, max as int),
        0 <= share.thousandths <= FULL_SCALE,
{
    let n: i64 = native as i64 * FULL_SCALE;
    let rounded: i64 = round_div_exec(n, max as i64);
    proof {
        let m: int = max as int;
        let full: int = 100_000 * m;
        assert(n <= full) by (nonlinear_arith)
            requires
                n == native * 100_000,
                native <= m,
                full == 100_000 * m,
        ;
        assert(2 * full + m == 100_000 * (2 * m) + m) by (nonlinear_arith)
            requires
                full == 100_000 * m,
        ;
        vstd::arithmetic::div_mod::lemma_fundamental_div_mod_converse(
            2 * full + m,
            2 * m,
            100_000,
            m,
        );
        vstd::arithmetic::div_mod::lemma_div_is_ordered(2 * n + m, 2 * full + m, 2 * m);
    }
    Percent { thousandths: rounded as i32 }
}

impl Percent {
    /// The level, in the device's unit, that is this share of `max`.
    pub fn to_native(self, max: i32) -> (native: i32)
        requires
            max > 0,
        ensures
            native == native_of(self.thousandths as int, max as int),
            0 <= native <= max,
    {
        shift_native(0, self.thousandths as i64, max)
    }
}

} // verus!
