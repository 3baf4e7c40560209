//! Signed 16.16 fixed-point scalars and a polynomial sine/cosine.
//!
//! A value `v` stands for the real number `v / FP_ONE`. Angles are in
//! fixed-point radians; `reduce_angle` folds any angle into one turn, and
//! `sin_fp` / `cos_fp` evaluate a clamped degree-5 Taylor polynomial on the
//! first quarter turn, extended by symmetry. The approximation is exact at
//! the points the projection laws care about: `sin_fp(0) == 0` and
//! `cos_fp(0) == FP_ONE`.

use vstd::prelude::*;

verus! {

/// The fixed-point unit: 2^16.
pub const FP_ONE: i64 = 65536;

/// One turn, 2 * pi, rounded to fixed point.
pub const TWO_PI_FP: i64 = 411775;

/// Half a turn, pi, rounded to fixed point.
pub const PI_FP: i64 = 205887;

/// A quarter turn, pi / 2, rounded to fixed point.
pub const HALF_PI_FP: i64 = 102944;

/// Angle already folded into `[0, TWO_PI_FP)`.
pub open spec fn angle_reduced(a: int) -> bool {
    0 <= a < TWO_PI_FP
}

/// Euclidean remainder of an angle by one turn.
pub open spec fn spec_reduce_angle(a: int) -> int {
    a % (TWO_PI_FP as int)
}

/// Folds an angle into `[0, TWO_PI_FP)`, preserving its class modulo one turn.
pub fn reduce_angle(a: i64) -> (r: i64)
    ensures
        r == spec_reduce_angle(a as int),
        angle_reduced(r as int),
{
    match a.checked_rem_euclid(TWO_PI_FP) {
        Some(r) => r,
        None => {
            proof {
                assert(false);
            }
            0
        },
    }
}

/// Clamped degree-5 Taylor sine on the first quarter turn, in fixed point.
pub open spec fn spec_sin_quarter(x: int) -> int
    recommends
        0 <= x <= HALF_PI_FP,
{
    let x2 = (x * x) / (FP_ONE as int);
    let x3 = (x2 * x) / (FP_ONE as int);
    let x5 = (x3 * x2) / (FP_ONE as int);
    let t = x - x3 / 6 + x5 / 120;
    if t < 0 {
        0
    } else if t > FP_ONE {
        FP_ONE as int
    } else {
        t
    }
}

/// Evaluates the quarter-turn sine polynomial.
pub fn sin_quarter(x: i64) -> (r: i64)
    requires
        0 <= x <= HALF_PI_FP,
    ensures
        r == spec_sin_quarter(x as int),
        0 <= r <= FP_ONE,
{
    proof {
        assert(0 <= x * x <= 102944 * 102944) by (nonlinear_arith)
            requires
                0 <= x <= 102944,
        ;
    }
    let x2: i64 = (x * x) / FP_ONE;
    proof {
        assert(0 <= x2 * x <= 161704 * 102944) by (nonlinear_arith)
            requires
                0 <= x2 <= 161704,
                0 <= x <= 102944,
        ;
    }
    let x3: i64 = (x2 * x) / FP_ONE;
    proof {
        assert(0 <= x3 * x2 <= 254004 * 161704) by (nonlinear_arith)
            requires
                0 <= x3 <= 254004,
                0 <= x2 <= 161704,
        ;
    }
    let x5: i64 = (x3 * x2) / FP_ONE;
    let t: i64 = x - x3 / 6 + x5 / 120;
    if t < 0 {
        0
    } else if t > FP_ONE {
        FP_ONE
    } else {
        t
    }
}

/// Fixed-point sine of any angle, by quadrant symmetry over the reduced angle.
pub open spec fn spec_sin_fp(a: int) -> int {
    let r = spec_reduce_angle(a);
    if r <= HALF_PI_FP {
        spec_sin_quarter(r)
    } else if r <= PI_FP {
        spec_sin_quarter(PI_FP - r)
    } else if r <= PI_FP + HALF_PI_FP {
        -spec_sin_quarter(r - PI_FP)
    } else {
        -spec_sin_quarter(TWO_PI_FP - r)
    }
}

/// Fixed-point cosine, as the sine shifted by a quarter turn.
pub open spec fn spec_cos_fp(a: int) -> int {
    spec_sin_fp(a + HALF_PI_FP)
}

/// The sine depends only on the angle's class modulo one turn.
pub proof fn lemma_sin_mod_class(a: int, b: int)
    requires
        spec_reduce_angle(a) == spec_reduce_angle(b),
    ensures
        spec_sin_fp(a) == spec_sin_fp(b),
{
}

/// Shifting either an angle or its reduced form by the same offset lands in
/// the same class modulo one turn.
proof fn lemma_reduce_shift(a: int, offset: int)
    ensures
        spec_reduce_angle(a + offset) == spec_reduce_angle(spec_reduce_angle(a) + offset),
{
    let t = TWO_PI_FP as int;
    vstd::arithmetic::div_mod::lemma_mod_bound(a, t);
    vstd::arithmetic::div_mod::lemma_mod_twice(a, t);
    vstd::arithmetic::div_mod::lemma_add_mod_noop(a, offset, t);
    vstd::arithmetic::div_mod::lemma_add_mod_noop(a % t, offset, t);
}

/// Fixed-point sine.
pub fn sin_fp(a: i64) -> (r: i64)
    ensures
        r == spec_sin_fp(a as int),
        -FP_ONE <= r <= FP_ONE,
{
    let red = reduce_angle(a);
    if red <= HALF_PI_FP {
        sin_quarter(red)
    } else if red <= PI_FP {
        sin_quarter(PI_FP - red)
    } else if red <= PI_FP + HALF_PI_FP {
        -sin_quarter(red - PI_FP)
    } else {
        -sin_quarter(TWO_PI_FP - red)
    }
}

/// Fixed-point cosine.
pub fn cos_fp(a: i64) -> (r: i64)
    ensures
        r == spec_cos_fp(a as int),
        -FP_ONE <= r <= FP_ONE,
{
    let red = reduce_angle(a);
    let r = sin_fp(red + HALF_PI_FP);
    proof {
        lemma_reduce_shift(a as int, HALF_PI_FP as int);
        lemma_sin_mod_class(red as int + HALF_PI_FP, a as int + HALF_PI_FP);
    }
    r
}

/// Product of a fixed-point factor in `[-1, 1]` with a nonnegative
/// fixed-point value, truncated toward zero.
pub open spec fn spec_mul_fp(a: int, b: int) -> int
    recommends
        b >= 0,
{
    if a >= 0 {
        (a * b) / (FP_ONE as int)
    } else {
        -(((-a) * b) / (FP_ONE as int))
    }
}

/// The truncated product is no larger in magnitude than the nonnegative
/// factor, and keeps the sign of the other factor.
pub proof fn lemma_mul_fp_bound(a: int, b: int)
    requires
        -FP_ONE <= a <= FP_ONE,
        0 <= b,
    ensures
        -b <= spec_mul_fp(a, b) <= b,
        a >= 0 ==> spec_mul_fp(a, b) >= 0,
        a <= 0 ==> spec_mul_fp(a, b) <= 0,
{
    let f = FP_ONE as int;
    if a >= 0 {
        vstd::arithmetic::mul::lemma_mul_nonnegative(a, b);
        vstd::arithmetic::mul::lemma_mul_inequality(a, f, b);
        vstd::arithmetic::div_mod::lemma_div_is_ordered(a * b, f * b, f);
        vstd::arithmetic::div_mod::lemma_div_multiples_vanish(b, f);
        vstd::arithmetic::div_mod::lemma_div_pos_is_pos(a * b, f);
    } else {
        vstd::arithmetic::mul::lemma_mul_nonnegative(-a, b);
        vstd::arithmetic::mul::lemma_mul_inequality(-a, f, b);
        vstd::arithmetic::div_mod::lemma_div_is_ordered((-a) * b, f * b, f);
        vstd::arithmetic::div_mod::lemma_div_multiples_vanish(b, f);
        vstd::arithmetic::div_mod::lemma_div_pos_is_pos((-a) * b, f);
    }
}

/// Evaluates `spec_mul_fp`.
pub fn mul_fp(a: i64, b: i64) -> (r: i64)
    requires
        -FP_ONE <= a <= FP_ONE,
        0 <= b <= 0x100_0000_0000,
    ensures
        r == spec_mul_fp(a as int, b as int),
        -b <= r <= b,
{
    proof {
        lemma_mul_fp_bound(a as int, b as int);
        assert(-(65536 * 0x100_0000_0000) <= a * b <= 65536 * 0x100_0000_0000) by (nonlinear_arith)
            requires
                -65536 <= a <= 65536,
                0 <= b <= 0x100_0000_0000,
        ;
    }
    if a >= 0 {
        (a * b) / FP_ONE
    } else {
        -(((-a) * b) / FP_ONE)
    }
}

/// Within a quarter turn of angle zero the cosine is nonnegative.
pub proof fn lemma_cos_quarter_nonneg(a: int)
    requires
        -(HALF_PI_FP - 1) <= a <= HALF_PI_FP - 1,
    ensures
        0 <= spec_cos_fp(a) <= FP_ONE,
{
    let s = a + HALF_PI_FP;
    vstd::arithmetic::div_mod::lemma_small_mod(s as nat, TWO_PI_FP as nat);
    assert(spec_reduce_angle(s) == s);
}

/// The sine of angle zero is exactly zero.
pub proof fn lemma_sin_zero()
    ensures
        spec_sin_fp(0) == 0,
{
    vstd::arithmetic::div_mod::lemma_small_mod(0nat, TWO_PI_FP as nat);
}

/// The cosine of angle zero is exactly one: the quarter-turn polynomial
/// overshoots the unit at its far end and is clamped back to it.
pub proof fn lemma_cos_zero()
    ensures
        spec_cos_fp(0) == FP_ONE,
{
    vstd::arithmetic::div_mod::lemma_small_mod(HALF_PI_FP as nat, TWO_PI_FP as nat);
    assert((102944 * 102944) / 65536 == 161704);
    assert((161704 * 102944) / 65536 == 254004);
    assert((254004 * 161704) / 65536 == 626731);
    assert(spec_sin_quarter(HALF_PI_FP as int) == FP_ONE);
}

} // verus!
