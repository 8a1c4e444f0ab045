//! Fixed-point angles and trigonometry.
//!
//! Angles are measured in millidegrees: a full turn is `FULL_TURN` = 360 000.
//! Sines and cosines are scaled by `TRIG_SCALE` = 1000, so they range over
//! [-1000, 1000].  The sine of an angle in the first half turn is computed
//! with Bhaskara's rational approximation, which is exact at 0, 90 and 180
//! degrees and within a fraction of a percent elsewhere.

use vstd::prelude::*;

verus! {

/// A full turn, in millidegrees.
pub const FULL_TURN: i64 = 360_000;

/// Half a turn, in millidegrees.
pub const HALF_TURN: i64 = 180_000;

/// A quarter turn, in millidegrees.
pub const QUARTER_TURN: i64 = 90_000;

/// Scale of trigonometric values: sin and cos of 90 degrees are 1000.
pub const TRIG_SCALE: i64 = 1000;

/// The angle folded into [0, FULL_TURN).
pub open spec fn norm_angle(a: int) -> int {
    a % 360_000
}

/// Folds an angle into [0, FULL_TURN).
pub fn normalize_angle(a: i64) -> (r: i64)
    ensures
        r == norm_angle(a as int),
        0 <= r < 360_000,
{
    proof {
        vstd::arithmetic::div_mod::lemma_mod_bound(a as int, 360_000int);
    }
    a.checked_rem_euclid(360_000).unwrap()
}

/// Bhaskara's sine approximation on [0, HALF_TURN], scaled by TRIG_SCALE.
pub open spec fn sin_half_mdeg(d: int) -> int
    recommends
        0 <= d <= 180_000,
{
    (4000 * (d * (180_000 - d))) / (40_500_000_000 - d * (180_000 - d))
}

/// Sine of an angle in millidegrees, scaled by TRIG_SCALE.
pub open spec fn sin_mdeg(a: int) -> int {
    let n = norm_angle(a);
    if n <= 180_000 {
        sin_half_mdeg(n)
    } else {
        -sin_half_mdeg(n - 180_000)
    }
}

/// Cosine of an angle in millidegrees, scaled by TRIG_SCALE.
pub open spec fn cos_mdeg(a: int) -> int {
    sin_mdeg(a + 90_000)
}

proof fn lemma_sin_half_bounds(d: int)
    requires
        0 <= d <= 180_000,
    ensures
        0 <= sin_half_mdeg(d) <= 1000,
{
    assert(0 <= d * (180_000 - d) <= 8_100_000_000) by (nonlinear_arith)
        requires 0 <= d <= 180_000;
    let p = d * (180_000 - d);
    let num = 4000 * p;
    let den = 40_500_000_000 - p;
    assert(num <= 1000 * den);
    vstd::arithmetic::div_mod::lemma_div_is_ordered(num, 1000 * den, den);
    vstd::arithmetic::div_mod::lemma_div_multiples_vanish(1000, den);
    vstd::arithmetic::div_mod::lemma_div_pos_is_pos(num, den);
}

/// The sine and cosine of any angle stay within the trigonometric scale.
pub proof fn lemma_trig_bounds(a: int)
    ensures
        -1000 <= sin_mdeg(a) <= 1000,
        -1000 <= cos_mdeg(a) <= 1000,
{
    lemma_sin_bounds(a);
    lemma_sin_bounds(a + 90_000);
}

proof fn lemma_sin_bounds(a: int)
    ensures
        -1000 <= sin_mdeg(a) <= 1000,
{
    vstd::arithmetic::div_mod::lemma_mod_bound(a, 360_000int);
    let n = norm_angle(a);
    if n <= 180_000 {
        lemma_sin_half_bounds(n);
    } else {
        lemma_sin_half_bounds(n - 180_000);
    }
}

/// Sine of any angle in millidegrees, scaled by TRIG_SCALE.
pub fn sin_milli(a: i64) -> (r: i64)
    ensures
        r == sin_mdeg(a as int),
        -1000 <= r <= 1000,
{
    let n = normalize_angle(a);
    if n <= 180_000 {
        sin_half(n as u64) as i64
    } else {
        proof {
            lemma_sin_half_bounds(n - 180_000);
        }
        -(sin_half((n - 180_000) as u64) as i64)
    }
}

/// Cosine of any angle in millidegrees, scaled by TRIG_SCALE.
pub fn cos_milli(a: i64) -> (r: i64)
    ensures
        r == cos_mdeg(a as int),
        -1000 <= r <= 1000,
{
    let n = normalize_angle(a);
    proof {
        vstd::arithmetic::div_mod::lemma_mod_bound(a as int, 360_000int);
        vstd::arithmetic::div_mod::lemma_small_mod(90_000nat, 360_000nat);
        vstd::arithmetic::div_mod::lemma_add_mod_noop(a as int, 90_000int, 360_000int);
        assert(norm_angle(n + 90_000) == norm_angle(a + 90_000));
    }
    sin_milli(n + 90_000)
}

/// `v` scaled by a trigonometric value `t` (itself scaled by TRIG_SCALE),
/// rounding towards zero.
pub open spec fn scale_trig(v: int, t: int) -> int {
    if v >= 0 && t >= 0 {
        (v * t) / 1000
    } else if v < 0 && t < 0 {
        ((-v) * (-t)) / 1000
    } else if v < 0 {
        -(((-v) * t) / 1000)
    } else {
        -((v * (-t)) / 1000)
    }
}

/// Multiplies a fixed-point coordinate by a trigonometric value, rounding
/// towards zero.
pub fn scale_trig_milli(v: i64, t: i64) -> (r: i64)
    requires
        -1_000_000_000_000 <= v <= 1_000_000_000_000,
        -1000 <= t <= 1000,
    ensures
        r == scale_trig(v as int, t as int),
        -1_000_000_000_000 <= r <= 1_000_000_000_000,
        v >= 0 && t >= 0 ==> 0 <= r <= v,
{
    let av: u64 = if v >= 0 { v as u64 } else { (-v) as u64 };
    let at: u64 = if t >= 0 { t as u64 } else { (-t) as u64 };
    proof {
        assert(av * at <= 1_000_000_000_000u64 * 1000) by (nonlinear_arith)
            requires av <= 1_000_000_000_000 && at <= 1000;
        vstd::arithmetic::div_mod::lemma_div_is_ordered(
            (av * at) as int,
            1_000_000_000_000_000int,
            1000int,
        );
        vstd::arithmetic::div_mod::lemma_div_pos_is_pos((av * at) as int, 1000int);
        if v >= 0 && t >= 0 {
            assert(av * at <= av * 1000) by (nonlinear_arith)
                requires at <= 1000;
            vstd::arithmetic::div_mod::lemma_div_is_ordered(
                (av * at) as int,
                (av as int) * 1000,
                1000int,
            );
            vstd::arithmetic::div_mod::lemma_div_multiples_vanish(av as int, 1000int);
        }
    }
    let m = (av * at) / 1000;
    if (v >= 0) == (t >= 0) {
        m as i64
    } else {
        -(m as i64)
    }
}

/// Whether `l` is the integer square root of `n`.
pub open spec fn is_isqrt(n: int, l: int) -> bool {
    0 <= l && l * l <= n < (l + 1) * (l + 1)
}

/// The integer square root as a value: the unique `l >= 0` with
/// `l * l <= n < (l + 1) * (l + 1)`.
pub open spec fn spec_isqrt(n: int) -> int {
    choose|l: int| is_isqrt(n, l)
}

/// The integer square root is unique: any root bracketing `n` is the
/// square root.
pub proof fn lemma_isqrt_unique(n: int, l: int)
    requires
        is_isqrt(n, l),
    ensures
        l == spec_isqrt(n),
{
    assert(exists|m: int| is_isqrt(n, m)) by {
        assert(is_isqrt(n, l));
    }
    let m = choose|m: int| is_isqrt(n, m);
    if m < l {
        assert((m + 1) * (m + 1) <= l * l) by (nonlinear_arith)
            requires 0 <= m && m + 1 <= l;
    }
    if m > l {
        assert((l + 1) * (l + 1) <= m * m) by (nonlinear_arith)
            requires 0 <= l && l + 1 <= m;
    }
}

/// The integer square root: the largest `r` with `r * r <= n`.
pub fn isqrt(n: u64) -> (r: u64)
    ensures
        r * r <= n < (r + 1) * (r + 1),
        r == spec_isqrt(n as int),
{
    let mut lo: u64 = 0;
    let mut hi: u64 = 4_294_967_296;
    proof {
        assert((4_294_967_296int) * 4_294_967_296 > u64::MAX) by (nonlinear_arith);
    }
    while lo + 1 < hi
        invariant
            lo < hi <= 4_294_967_296,
            lo * lo <= n,
            n < hi * hi,
        decreases hi - lo,
    {
        let mid = lo + (hi - lo) / 2;
        proof {
            assert(mid * mid <= 4_294_967_295u64 * 4_294_967_295) by (nonlinear_arith)
                requires mid <= 4_294_967_295u64;
        }
        if mid * mid <= n {
            lo = mid;
        } else {
            hi = mid;
        }
    }
    proof {
        lemma_isqrt_unique(n as int, lo as int);
    }
    lo
}

/// The rational arctangent approximation on a slope `n / d` with
/// `0 <= n <= d`, in millidegrees (a value in [0, 45_000]).
pub open spec fn atan_frac_mdeg(n: int, d: int) -> int
    recommends
        0 <= n <= d,
        0 < d,
{
    let z = (n * 1000) / d;
    45 * z + (z * (1000 - z) * (14_020 + (3800 * z) / 1000)) / 1_000_000
}

/// The heading of the displacement `(dx, dy)`, in millidegrees in
/// [0, FULL_TURN): 0 points along positive x, a quarter turn along
/// positive y.
pub open spec fn angle_of(dx: int, dy: int) -> int
    recommends
        dx != 0 || dy != 0,
{
    let ax = if dx >= 0 { dx } else { -dx };
    let ay = if dy >= 0 { dy } else { -dy };
    let base = if ay <= ax {
        atan_frac_mdeg(ay, ax)
    } else {
        90_000 - atan_frac_mdeg(ax, ay)
    };
    if dx >= 0 && dy >= 0 {
        norm_angle(base)
    } else if dx < 0 && dy >= 0 {
        180_000 - base
    } else if dx < 0 {
        180_000 + base
    } else {
        norm_angle(360_000 - base)
    }
}

proof fn lemma_atan_frac_bounds(n: int, d: int)
    requires
        0 <= n <= d,
        0 < d,
        d <= 1_000_000_000_000,
    ensures
        0 <= atan_frac_mdeg(n, d) <= 45_000,
{
    let z = (n * 1000) / d;
    assert(n * 1000 <= d * 1000) by (nonlinear_arith)
        requires n <= d;
    vstd::arithmetic::div_mod::lemma_div_is_ordered(n * 1000, d * 1000, d);
    vstd::arithmetic::div_mod::lemma_div_multiples_vanish(1000, d);
    vstd::arithmetic::div_mod::lemma_div_pos_is_pos(n * 1000, d);
    assert(0 <= z <= 1000);
    let w = 14_020 + (3800 * z) / 1000;
    vstd::arithmetic::div_mod::lemma_div_pos_is_pos(3800 * z, 1000);
    vstd::arithmetic::div_mod::lemma_div_is_ordered(3800 * z, 3_800_000int, 1000);
    assert(14_020 <= w <= 17_820);
    let c = z * (1000 - z) * w;
    assert(0 <= c <= (1000 - z) * 45_000_000) by (nonlinear_arith)
        requires 0 <= z <= 1000 && 14_020 <= w <= 17_820 && c == z * (1000 - z) * w;
    vstd::arithmetic::div_mod::lemma_div_is_ordered(c, (1000 - z) * 45_000_000, 1_000_000);
    assert((1000 - z) * 45_000_000 == ((1000 - z) * 45) * 1_000_000) by (nonlinear_arith);
    vstd::arithmetic::div_mod::lemma_div_multiples_vanish((1000 - z) * 45, 1_000_000);
    vstd::arithmetic::div_mod::lemma_div_pos_is_pos(c, 1_000_000);
    assert(45 * z + (1000 - z) * 45 == 45_000);
}

fn atan_frac(n: u64, d: u64) -> (r: u64)
    requires
        n <= d,
        0 < d,
        d <= 1_000_000_000_000,
    ensures
        r == atan_frac_mdeg(n as int, d as int),
        r <= 45_000,
{
    proof {
        lemma_atan_frac_bounds(n as int, d as int);
        assert(n * 1000 <= 1_000_000_000_000u64 * 1000) by (nonlinear_arith)
            requires n <= 1_000_000_000_000u64;
    }
    let z = (n * 1000) / d;
    proof {
        assert(n * 1000 <= d * 1000) by (nonlinear_arith)
            requires n <= d;
        vstd::arithmetic::div_mod::lemma_div_is_ordered((n * 1000) as int, (d * 1000) as int, d as int);
        vstd::arithmetic::div_mod::lemma_div_multiples_vanish(1000, d as int);
        assert(z <= 1000);
        assert(z * (1000 - z) <= 250_000) by (nonlinear_arith)
            requires 0 <= z <= 1000;
        assert(z * (1000 - z) * (14_020 + (3800 * z) / 1000) <= 250_000u64 * 17_820)
            by (nonlinear_arith)
            requires 0 <= z <= 1000;
    }
    let w = 14_020 + (3800 * z) / 1000;
    let c = z * (1000 - z) * w / 1_000_000;
    45 * z + c
}

/// The heading of a nonzero displacement, folded into [0, FULL_TURN).
pub fn displacement_angle(dx: i64, dy: i64) -> (r: i64)
    requires
        !(dx == 0 && dy == 0),
        -1_000_000_000_000 <= dx <= 1_000_000_000_000,
        -1_000_000_000_000 <= dy <= 1_000_000_000_000,
    ensures
        r == angle_of(dx as int, dy as int),
        0 <= r < 360_000,
{
    let ax: u64 = if dx >= 0 { dx as u64 } else { (-dx) as u64 };
    let ay: u64 = if dy >= 0 { dy as u64 } else { (-dy) as u64 };
    let base: i64 = if ay <= ax {
        atan_frac(ay, ax) as i64
    } else {
        proof {
            lemma_atan_frac_bounds(ax as int, ay as int);
        }
        90_000 - (atan_frac(ax, ay) as i64)
    };
    proof {
        if dx >= 0 && dy >= 0 {
            vstd::arithmetic::div_mod::lemma_small_mod(base as nat, 360_000nat);
        }
        if !(dx >= 0 && dy >= 0) && !(dx < 0) {
            if base == 0 {
                assert(norm_angle(360_000) == 0);
            } else {
                vstd::arithmetic::div_mod::lemma_small_mod((360_000 - base) as nat, 360_000nat);
            }
        }
    }
    if dx >= 0 && dy >= 0 {
        base
    } else if dx < 0 && dy >= 0 {
        180_000 - base
    } else if dx < 0 {
        180_000 + base
    } else {
        if base == 0 {
            0
        } else {
            360_000 - base
        }
    }
}

fn sin_half(d: u64) -> (r: u64)
    requires
        d <= 180_000,
    ensures
        r == sin_half_mdeg(d as int),
        r <= 1000,
{
    proof {
        lemma_sin_half_bounds(d as int);
        assert(0 <= (d as int) * (180_000 - d as int) <= 8_100_000_000) by (nonlinear_arith)
            requires 0 <= d as int <= 180_000;
    }
    let p = d * (180_000 - d);
    let num = 4000 * p;
    let den = 40_500_000_000 - p;
    num / den
}

} // verus!
