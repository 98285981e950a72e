//! Fixed-point scalar arithmetic.
//!
//! Every scalar of the animation core (a time in seconds, a blend weight, a
//! coordinate, a quaternion component) is an `i64` holding the value scaled
//! by `FP_ONE` (six decimal places). Products and quotients rescale by
//! `FP_ONE` with truncation toward zero, and every operation saturates at
//! the `i64` range, so each operation is total and has an exact description
//! as a spec function over `int`.

use vstd::prelude::*;

verus! {

/// The fixed-point representation of 1.0: six decimal places.
pub const FP_ONE: i64 = 1_000_000;

/// Saturation of an unbounded integer into the `i64` range.
pub open spec fn fp_clip(x: int) -> int {
    if x > i64::MAX as int {
        i64::MAX as int
    } else if x < i64::MIN as int {
        i64::MIN as int
    } else {
        x
    }
}

/// Division truncating toward zero (the machine division of signed
/// integers), expressed over mathematical integers.
pub open spec fn fp_tdiv(a: int, b: int) -> int
    recommends
        b != 0,
{
    if a >= 0 {
        if b >= 0 {
            a / b
        } else {
            -(a / (-b))
        }
    } else {
        if b >= 0 {
            -((-a) / b)
        } else {
            (-a) / (-b)
        }
    }
}

/// Truncated remainder: the sign follows the dividend, as in machine `%`.
pub open spec fn fp_trem(a: int, b: int) -> int
    recommends
        b != 0,
{
    a - b * fp_tdiv(a, b)
}

/// The exact value of a saturating fixed-point sum.
pub open spec fn fp_sum(a: int, b: int) -> int {
    fp_clip(a + b)
}

/// The exact value of a saturating fixed-point difference.
pub open spec fn fp_diff(a: int, b: int) -> int {
    fp_clip(a - b)
}

/// The exact value of a fixed-point product: rescale by `FP_ONE`,
/// truncate toward zero, saturate.
pub open spec fn fp_prod(a: int, b: int) -> int {
    fp_clip(fp_tdiv(a * b, FP_ONE as int))
}

/// The exact value of a fixed-point quotient: scale the dividend by
/// `FP_ONE`, truncate toward zero, saturate.
pub open spec fn fp_quot(a: int, b: int) -> int
    recommends
        b != 0,
{
    fp_clip(fp_tdiv(a * FP_ONE as int, b))
}

/// Clamp into the unit interval `[0, FP_ONE]`.
pub open spec fn fp_unit_clamp(x: int) -> int {
    if x < 0 {
        0
    } else if x > FP_ONE as int {
        FP_ONE as int
    } else {
        x
    }
}

/// Saturate a 128-bit intermediate back into `i64`.
fn clip_i128(x: i128) -> (r: i64)
    ensures
        r as int == fp_clip(x as int),
{
    if x > i64::MAX as i128 {
        i64::MAX
    } else if x < i64::MIN as i128 {
        i64::MIN
    } else {
        x as i64
    }
}

/// Truncating division of 128-bit intermediates, by sign-splitting into
/// unsigned division.
fn tdiv_i128(a: i128, b: i128) -> (q: i128)
    requires
        b != 0,
        a != i128::MIN,
    ensures
        q == fp_tdiv(a as int, b as int),
        q != i128::MIN,
{
    let ua: u128 = if a < 0 {
        (-a) as u128
    } else {
        a as u128
    };
    let ub: u128 = if b < 0 {
        if b == i128::MIN {
            // |i128::MIN| does not fit in i128, but does in u128.
            u128::MAX / 2 + 1
        } else {
            (-b) as u128
        }
    } else {
        b as u128
    };
    assert(ua as int == if a >= 0 { a as int } else { -(a as int) });
    assert(ub as int == if b >= 0 { b as int } else { -(b as int) });
    let uq: u128 = ua / ub;
    assert(uq as int == ua as int / ub as int);
    if (a < 0) != (b < 0) {
        assert(uq < 0x8000_0000_0000_0000_0000_0000_0000_0000u128) by {
            assert(ua as int / ub as int <= ua as int) by {
                vstd::arithmetic::div_mod::lemma_div_is_ordered_by_denominator(
                    ua as int, 1, ub as int);
            }
        }
        let qi: i128 = uq as i128;
        -qi
    } else {
        assert(uq < 0x8000_0000_0000_0000_0000_0000_0000_0000u128) by {
            assert(ua as int / ub as int <= ua as int) by {
                vstd::arithmetic::div_mod::lemma_div_is_ordered_by_denominator(
                    ua as int, 1, ub as int);
            }
        }
        uq as i128
    }
}

/// Saturating addition.
pub fn fp_add(a: i64, b: i64) -> (r: i64)
    ensures
        r as int == fp_sum(a as int, b as int),
{
    let s: i128 = a as i128 + b as i128;
    clip_i128(s)
}

/// Saturating subtraction.
pub fn fp_sub(a: i64, b: i64) -> (r: i64)
    ensures
        r as int == fp_diff(a as int, b as int),
{
    let s: i128 = a as i128 - b as i128;
    clip_i128(s)
}

/// Fixed-point multiplication: `a * b / FP_ONE`, truncated, saturated.
pub fn fp_mul(a: i64, b: i64) -> (r: i64)
    ensures
        r as int == fp_prod(a as int, b as int),
{
    assert(-0x4000_0000_0000_0000_0000_0000_0000_0000 <= a as int * b as int
        <= 0x4000_0000_0000_0000_0000_0000_0000_0000) by (nonlinear_arith)
        requires
            -0x8000_0000_0000_0000 <= a as int <= 0x7FFF_FFFF_FFFF_FFFF,
            -0x8000_0000_0000_0000 <= b as int <= 0x7FFF_FFFF_FFFF_FFFF,
    ;
    let p: i128 = a as i128 * b as i128;
    let q: i128 = tdiv_i128(p, FP_ONE as i128);
    clip_i128(q)
}

/// Fixed-point division: `a * FP_ONE / b`, truncated, saturated.
pub fn fp_div(a: i64, b: i64) -> (r: i64)
    requires
        b != 0,
    ensures
        r as int == fp_quot(a as int, b as int),
{
    assert(-0x4000_0000_0000_0000_0000_0000_0000_0000 <= a as int * FP_ONE as int
        <= 0x4000_0000_0000_0000_0000_0000_0000_0000) by (nonlinear_arith)
        requires
            -0x8000_0000_0000_0000 <= a as int <= 0x7FFF_FFFF_FFFF_FFFF,
            FP_ONE == 1_000_000,
    ;
    let p: i128 = a as i128 * FP_ONE as i128;
    let q: i128 = tdiv_i128(p, b as i128);
    clip_i128(q)
}

/// The exact value of a fixed-point linear interpolation step
/// `x + d * (v - x)`, the primitive of every blend in the core.
pub open spec fn fp_lerp(x: int, d: int, v: int) -> int {
    fp_sum(x, fp_prod(d, fp_diff(v, x)))
}

/// Linear interpolation from `x` toward `v` by fraction `d`.
pub fn fp_blend(x: i64, d: i64, v: i64) -> (r: i64)
    ensures
        r as int == fp_lerp(x as int, d as int, v as int),
{
    let diff = fp_sub(v, x);
    let scaled = fp_mul(d, diff);
    fp_add(x, scaled)
}

/// Truncated remainder, the machine `%` of signed integers: the result
/// carries the sign of the dividend.
pub fn fp_rem(a: i64, b: i64) -> (r: i64)
    requires
        b != 0,
    ensures
        r as int == fp_trem(a as int, b as int),
{
    let ua: u128 = if a < 0 {
        (-(a as i128)) as u128
    } else {
        a as u128
    };
    let ub: u128 = if b < 0 {
        (-(b as i128)) as u128
    } else {
        b as u128
    };
    let ur: u128 = ua % ub;
    proof {
        vstd::arithmetic::div_mod::lemma_fundamental_div_mod(ua as int, ub as int);
        assert(ur as int == ua as int % ub as int);
        assert(0 <= ur as int && (ur as int) < ub as int);
        let qa = ua as int / ub as int;
        let ra = ua as int % ub as int;
        assert(ua as int == ub as int * qa + ra);
        assert(fp_trem(a as int, b as int) == if a >= 0 { ra } else { -ra }) by (nonlinear_arith)
            requires
                b != 0,
                ua as int == if a >= 0 { a as int } else { -(a as int) },
                ub as int == if b >= 0 { b as int } else { -(b as int) },
                ua as int == ub as int * qa + ra,
                0 <= ra < ub as int,
                qa == ua as int / ub as int,
                ra == ua as int % ub as int,
                fp_trem(a as int, b as int) == a as int - b as int * fp_tdiv(a as int, b as int),
                fp_tdiv(a as int, b as int) == (
                if (a as int >= 0) == (b as int >= 0) { qa } else { -qa }),
        ;
    }
    if a < 0 {
        -(ur as i64)
    } else {
        ur as i64
    }
}

/// A product with a factor in the unit interval does not grow the other
/// factor's magnitude, and nonnegative factors give a nonnegative product.
pub proof fn lemma_fp_prod_unit(a: int, b: int)
    requires
        0 <= a,
        0 <= b <= FP_ONE as int,
    ensures
        0 <= fp_prod(a, b) <= a,
{
    vstd::arithmetic::div_mod::lemma_div_pos_is_pos(a * b, FP_ONE as int);
    assert(a * b <= a * FP_ONE as int) by (nonlinear_arith)
        requires
            0 <= a,
            0 <= b <= FP_ONE as int,
    ;
    vstd::arithmetic::div_mod::lemma_div_is_ordered(a * b, a * FP_ONE as int, FP_ONE as int);
    vstd::arithmetic::div_mod::lemma_div_by_multiple(a, FP_ONE as int);
}

/// The truncated remainder lies strictly inside `(-b, b)` and keeps the
/// dividend's sign.
pub proof fn lemma_fp_trem_range(a: int, b: int)
    requires
        0 < b,
    ensures
        -b < fp_trem(a, b) < b,
        0 <= a ==> 0 <= fp_trem(a, b),
        a < 0 ==> fp_trem(a, b) <= 0,
{
    if a >= 0 {
        vstd::arithmetic::div_mod::lemma_fundamental_div_mod(a, b);
        vstd::arithmetic::div_mod::lemma_mod_bound(a, b);
        assert(fp_trem(a, b) == a - b * (a / b));
        assert(a % b == a - b * (a / b)) by (nonlinear_arith)
            requires
                a == b * (a / b) + a % b,
        ;
    } else {
        vstd::arithmetic::div_mod::lemma_fundamental_div_mod(-a, b);
        vstd::arithmetic::div_mod::lemma_mod_bound(-a, b);
        assert(a - b * (-((-a) / b)) == a + b * ((-a) / b)) by (nonlinear_arith);
        assert(fp_trem(a, b) == a + b * ((-a) / b));
        assert(a + b * ((-a) / b) == -((-a) % b)) by (nonlinear_arith)
            requires
                -a == b * ((-a) / b) + (-a) % b,
        ;
    }
}

/// A truncating quotient of nonnegative by positive is nonnegative.
pub proof fn lemma_fp_tdiv_nonneg(a: int, b: int)
    requires
        0 <= a,
        0 < b,
    ensures
        0 <= fp_tdiv(a, b),
{
    vstd::arithmetic::div_mod::lemma_div_pos_is_pos(a, b);
}

/// A product of nonnegative factors is nonnegative.
pub proof fn lemma_fp_prod_nonneg(a: int, b: int)
    requires
        0 <= a,
        0 <= b,
    ensures
        0 <= fp_prod(a, b),
{
    assert(0 <= a * b) by (nonlinear_arith)
        requires
            0 <= a,
            0 <= b,
    ;
    vstd::arithmetic::div_mod::lemma_div_pos_is_pos(a * b, FP_ONE as int);
}

/// Multiplying by the unit is the identity on the `i64` range.
pub proof fn lemma_fp_prod_one(a: int)
    requires
        i64::MIN as int <= a <= i64::MAX as int,
    ensures
        fp_prod(a, FP_ONE as int) == a,
        fp_prod(FP_ONE as int, a) == a,
{
    if a >= 0 {
        vstd::arithmetic::div_mod::lemma_div_by_multiple(a, FP_ONE as int);
        assert(a * FP_ONE as int == FP_ONE as int * a) by (nonlinear_arith);
    } else {
        vstd::arithmetic::div_mod::lemma_div_by_multiple(-a, FP_ONE as int);
        assert((-a) * FP_ONE as int == -(a * FP_ONE as int)) by (nonlinear_arith);
        assert(a * FP_ONE as int == FP_ONE as int * a) by (nonlinear_arith);
    }
}

/// Multiplying by zero gives zero.
pub proof fn lemma_fp_prod_zero(a: int)
    ensures
        fp_prod(a, 0) == 0,
        fp_prod(0, a) == 0,
{
    assert(a * 0 == 0) by (nonlinear_arith);
    assert(0 * a == 0) by (nonlinear_arith);
    vstd::arithmetic::div_mod::lemma_div_of0(FP_ONE as int);
}

/// A quotient of a nonnegative numerator by a no-smaller denominator lies
/// in the unit interval.
pub proof fn lemma_fp_quot_unit(a: int, b: int)
    requires
        0 <= a <= b,
        0 < b,
    ensures
        0 <= fp_quot(a, b) <= FP_ONE as int,
{
    vstd::arithmetic::div_mod::lemma_div_pos_is_pos(a * FP_ONE as int, b);
    assert(0 <= a * FP_ONE as int) by (nonlinear_arith)
        requires
            0 <= a,
    ;
    assert(a * FP_ONE as int <= b * FP_ONE as int) by (nonlinear_arith)
        requires
            a <= b,
            0 < FP_ONE as int,
    ;
    vstd::arithmetic::div_mod::lemma_div_is_ordered(a * FP_ONE as int, b * FP_ONE as int, b);
    assert(b * FP_ONE as int == FP_ONE as int * b) by (nonlinear_arith);
    vstd::arithmetic::div_mod::lemma_div_by_multiple(FP_ONE as int, b);
}

/// The integer square root of `y`: the unique `r` with
/// `r * r <= y < (r + 1) * (r + 1)`.
pub open spec fn int_sqrt(y: int) -> int {
    choose|r: int| 0 <= r && #[trigger] (r * r) <= y && (r + 1) * (r + 1) > y
}

/// The integer square root is unique, so any witness is `int_sqrt`.
pub proof fn lemma_int_sqrt_unique(y: int, r: int)
    requires
        0 <= r,
        r * r <= y,
        (r + 1) * (r + 1) > y,
    ensures
        int_sqrt(y) == r,
{
    let s = int_sqrt(y);
    assert(0 <= s && s * s <= y && (s + 1) * (s + 1) > y);
    assert(s == r) by (nonlinear_arith)
        requires
            0 <= r,
            r * r <= y,
            (r + 1) * (r + 1) > y,
            0 <= s,
            s * s <= y,
            (s + 1) * (s + 1) > y,
    ;
}

/// The square root of a fixed-point value: `sqrt(x / FP_ONE)` scaled
/// back by `FP_ONE` is the integer square root of `x * FP_ONE`,
/// computed by bisection.
pub fn fp_sqrt(x: i64) -> (r: i64)
    requires
        x >= 0,
    ensures
        r as int == int_sqrt(x as int * FP_ONE as int),
        r >= 0,
        r as int * r as int <= x as int * FP_ONE as int,
        (r as int + 1) * (r as int + 1) > x as int * FP_ONE as int,
{
    proof {
        assert(x as int * FP_ONE as int <= 0x7FFF_FFFF_FFFF_FFFF * 1_000_000int)
            by (nonlinear_arith)
            requires
                0 <= x as int <= 0x7FFF_FFFF_FFFF_FFFF,
                FP_ONE == 1_000_000,
        ;
        assert(x as int * FP_ONE as int >= 0) by (nonlinear_arith)
            requires
                x as int >= 0,
                FP_ONE == 1_000_000,
        ;
    }
    let y: u128 = x as u128 * FP_ONE as u128;
    let mut lo: u128 = 0;
    let mut hi: u128 = 4_000_000_000_000;
    proof {
        assert(hi as int * hi as int > y as int) by (nonlinear_arith)
            requires
                hi == 4_000_000_000_000u128,
                y as int <= 0x7FFF_FFFF_FFFF_FFFF * 1_000_000int,
        ;
    }
    while lo + 1 < hi
        invariant
            0 <= lo < hi <= 4_000_000_000_000,
            lo as int * lo as int <= y as int,
            hi as int * hi as int > y as int,
        decreases hi - lo,
    {
        let mid = lo + (hi - lo) / 2;
        proof {
            assert(mid as int * mid as int <= 16_000_000_000_000_000_000_000_000int)
                by (nonlinear_arith)
                requires
                    0 <= mid as int <= 4_000_000_000_000int,
            ;
        }
        if mid * mid <= y {
            lo = mid;
        } else {
            hi = mid;
        }
    }
    proof {
        assert((lo as int + 1) * (lo as int + 1) > y as int) by (nonlinear_arith)
            requires
                lo as int + 1 == hi as int,
                hi as int * hi as int > y as int,
        ;
        lemma_int_sqrt_unique(y as int, lo as int);
    }
    lo as i64
}

/// Clamp into the unit interval `[0, FP_ONE]`.
pub fn fp_clamp01(x: i64) -> (r: i64)
    ensures
        r as int == fp_unit_clamp(x as int),
{
    if x < 0 {
        0
    } else if x > FP_ONE {
        FP_ONE
    } else {
        x
    }
}

} // verus!
