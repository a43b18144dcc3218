//! The logistic curve in fixed-point arithmetic.
//!
//! `1 / (1 + e^(-z))` is computed without floating point. For `t >= 0`, `e^(-t)` is
//! the `2^18`-th power of `e^(-x)` for the small `x = t / 2^18`, which is taken as
//! `(2 - x) / (2 + x)` and squared eighteen times. All of it is carried at eighteen
//! decimal digits before the result is cut to the six digits of a [`Fixed`]. Every
//! step keeps the order of its arguments, so the curve never falls.
use crate::fixed::Fixed;
use vstd::arithmetic::div_mod::{lemma_div_is_ordered, lemma_div_is_ordered_by_denominator};
use vstd::prelude::*;

verus! {

/// One whole at the eighteen digits that the curve is carried at.
pub const FINE_ONE: i128 = 1_000_000_000_000_000_000;

/// Number of times the small exponential is squared.
pub const SQUARINGS: u32 = 18;

/// Two to the power of [`SQUARINGS`].
pub const SMALL_PARTS: i128 = 262_144;

/// Arguments from here on give `e^(-t) == 0`.
pub const EXP_CUTOFF: i64 = 40_000_000;

/// The `2^18`-th part of `t` millionths, at eighteen digits.
pub open spec fn small_part(t: int) -> int {
    (t * 1_000_000_000_000) / (SMALL_PARTS as int)
}

/// `e^(-x)` for a small `x >= 0`, both at eighteen digits: `(2 - x) / (2 + x)`.
pub open spec fn small_exp_neg(x: int) -> int {
    (FINE_ONE * (2 * FINE_ONE - x)) / (2 * FINE_ONE + x)
}

/// `b` squared `n` times at eighteen digits, each time rounding down.
pub open spec fn squared(b: int, n: nat) -> int
    decreases n,
{
    if n == 0 {
        b
    } else {
        (squared(b, (n - 1) as nat) * squared(b, (n - 1) as nat)) / (FINE_ONE as int)
    }
}

/// `e^(-t)` at eighteen digits, for `t >= 0` in millionths.
pub open spec fn exp_neg(t: int) -> int {
    if t >= EXP_CUTOFF {
        0
    } else {
        squared(small_exp_neg(small_part(t)), SQUARINGS as nat)
    }
}

/// The logistic curve at `t >= 0`, in millionths.
pub open spec fn upper_half(t: int) -> int {
    1_000_000_000_000_000_000_000_000int / (FINE_ONE + exp_neg(t))
}

/// The logistic curve `1 / (1 + e^(-z))`: above one half for a positive `z`, and
/// `logistic(-z) == 1 - logistic(z)`.
pub open spec fn logistic(z: Fixed) -> Fixed {
    if z.raw >= 0 {
        Fixed { raw: upper_half(z.raw as int) as i64 }
    } else {
        Fixed { raw: (1_000_000 - upper_half(-(z.raw as int))) as i64 }
    }
}

proof fn lemma_small_part_in_range(t: int)
    requires
        0 <= t < EXP_CUTOFF,
    ensures
        0 <= small_part(t) <= FINE_ONE,
        t == 0 ==> small_part(t) == 0,
{
    lemma_div_is_ordered(0, t * 1_000_000_000_000, SMALL_PARTS as int);
    lemma_div_is_ordered(
        t * 1_000_000_000_000,
        40_000_000_000_000_000_000,
        SMALL_PARTS as int,
    );
    assert(0int / (SMALL_PARTS as int) == 0) by (nonlinear_arith);
    assert(40_000_000_000_000_000_000int / (SMALL_PARTS as int) <= FINE_ONE) by (nonlinear_arith);
}

proof fn lemma_small_part_ordered(t1: int, t2: int)
    requires
        0 <= t1 <= t2,
    ensures
        small_part(t1) <= small_part(t2),
{
    lemma_div_is_ordered(t1 * 1_000_000_000_000, t2 * 1_000_000_000_000, SMALL_PARTS as int);
}

proof fn lemma_small_exp_in_unit(x: int)
    requires
        0 <= x <= FINE_ONE,
    ensures
        0 <= small_exp_neg(x) <= FINE_ONE,
        x == 0 ==> small_exp_neg(x) == FINE_ONE,
{
    let num = FINE_ONE * (2 * FINE_ONE - x);
    let den = 2 * FINE_ONE + x;
    assert(0 <= num <= FINE_ONE * den) by (nonlinear_arith)
        requires
            0 <= x <= FINE_ONE,
            num == FINE_ONE * (2 * FINE_ONE - x),
            den == 2 * FINE_ONE + x,
    ;
    lemma_div_is_ordered(0, num, den);
    lemma_div_is_ordered(num, FINE_ONE * den, den);
    assert(0int / den == 0 && (FINE_ONE * den) / den == FINE_ONE) by (nonlinear_arith)
        requires
            den > 0,
    ;
}

proof fn lemma_small_exp_antitone(x1: int, x2: int)
    requires
        0 <= x1 <= x2 <= FINE_ONE,
    ensures
        small_exp_neg(x1) >= small_exp_neg(x2),
{
    let n1 = FINE_ONE * (2 * FINE_ONE - x1);
    let n2 = FINE_ONE * (2 * FINE_ONE - x2);
    assert(0 <= n2 <= n1) by (nonlinear_arith)
        requires
            0 <= x1 <= x2 <= FINE_ONE,
            n1 == FINE_ONE * (2 * FINE_ONE - x1),
            n2 == FINE_ONE * (2 * FINE_ONE - x2),
    ;
    lemma_div_is_ordered(n2, n1, 2 * FINE_ONE + x1);
    lemma_div_is_ordered_by_denominator(n2, 2 * FINE_ONE + x1, 2 * FINE_ONE + x2);
}

proof fn lemma_square_ordered(h1: int, h2: int)
    by (nonlinear_arith)
    requires
        0 <= h1 <= h2 <= 1_000_000_000_000_000_000,
    ensures
        0 <= h1 * h1 <= h2 * h2 <= 1_000_000_000_000_000_000 * 1_000_000_000_000_000_000,
{
}

proof fn lemma_squared_ordered(b1: int, b2: int, n: nat)
    requires
        0 <= b1 <= b2 <= FINE_ONE,
    ensures
        0 <= squared(b1, n) <= squared(b2, n) <= FINE_ONE,
        b2 == FINE_ONE ==> squared(b2, n) == FINE_ONE,
    decreases n,
{
    if n > 0 {
        lemma_squared_ordered(b1, b2, (n - 1) as nat);
        let h1 = squared(b1, (n - 1) as nat);
        let h2 = squared(b2, (n - 1) as nat);
        lemma_square_ordered(h1, h2);
        lemma_div_is_ordered(0, h1 * h1, FINE_ONE as int);
        lemma_div_is_ordered(h1 * h1, h2 * h2, FINE_ONE as int);
        lemma_div_is_ordered(h2 * h2, FINE_ONE * FINE_ONE, FINE_ONE as int);
        assert(0int / (FINE_ONE as int) == 0 && (FINE_ONE * FINE_ONE) / (FINE_ONE as int)
            == FINE_ONE) by (nonlinear_arith);
    }
}

/// `e^(-t)` lies between zero and one, and is one at zero.
pub proof fn lemma_exp_neg_in_unit(t: int)
    requires
        0 <= t,
    ensures
        0 <= exp_neg(t) <= FINE_ONE,
        t == 0 ==> exp_neg(t) == FINE_ONE,
{
    if t < EXP_CUTOFF {
        lemma_small_part_in_range(t);
        lemma_small_exp_in_unit(small_part(t));
        let b = small_exp_neg(small_part(t));
        lemma_squared_ordered(b, b, SQUARINGS as nat);
    }
}

/// `e^(-t)` never rises as `t` grows.
pub proof fn lemma_exp_neg_never_rises(t1: int, t2: int)
    requires
        0 <= t1 <= t2,
    ensures
        exp_neg(t1) >= exp_neg(t2),
{
    lemma_exp_neg_in_unit(t1);
    if t2 < EXP_CUTOFF {
        lemma_small_part_in_range(t1);
        lemma_small_part_in_range(t2);
        lemma_small_part_ordered(t1, t2);
        lemma_small_exp_in_unit(small_part(t1));
        lemma_small_exp_in_unit(small_part(t2));
        lemma_small_exp_antitone(small_part(t1), small_part(t2));
        lemma_squared_ordered(
            small_exp_neg(small_part(t2)),
            small_exp_neg(small_part(t1)),
            SQUARINGS as nat,
        );
    }
}

proof fn lemma_upper_half_bounds(e: int)
    by (nonlinear_arith)
    requires
        0 <= e <= 1_000_000_000_000_000_000,
    ensures
        500_000 <= 1_000_000_000_000_000_000_000_000int / (1_000_000_000_000_000_000 + e)
            <= 1_000_000,
        e == 1_000_000_000_000_000_000 ==> 1_000_000_000_000_000_000_000_000int / (
        1_000_000_000_000_000_000 + e) == 500_000,
        e == 0 ==> 1_000_000_000_000_000_000_000_000int / (1_000_000_000_000_000_000 + e)
            == 1_000_000,
{
    let d = 1_000_000_000_000_000_000 + e;
    let q = 1_000_000_000_000_000_000_000_000int / d;
    assert(q * d <= 1_000_000_000_000_000_000_000_000);
    assert((q + 1) * d > 1_000_000_000_000_000_000_000_000);
    assert(d >= 1_000_000_000_000_000_000);
    assert(d <= 2_000_000_000_000_000_000);
}

proof fn lemma_upper_half_never_falls(t1: int, t2: int)
    requires
        0 <= t1 <= t2,
    ensures
        500_000 <= upper_half(t1) <= upper_half(t2) <= 1_000_000,
{
    lemma_exp_neg_in_unit(t1);
    lemma_exp_neg_in_unit(t2);
    lemma_exp_neg_never_rises(t1, t2);
    lemma_upper_half_bounds(exp_neg(t1));
    lemma_upper_half_bounds(exp_neg(t2));
    lemma_div_is_ordered_by_denominator(
        1_000_000_000_000_000_000_000_000,
        FINE_ONE + exp_neg(t2),
        FINE_ONE + exp_neg(t1),
    );
}

/// The logistic curve stays between zero and one, on the side of one half that the
/// sign of its argument names, and is one half at zero.
pub proof fn lemma_logistic_range(z: Fixed)
    ensures
        0 <= logistic(z).raw <= 1_000_000,
        z.raw >= 0 ==> logistic(z).raw >= 500_000,
        z.raw < 0 ==> logistic(z).raw <= 500_000,
        z.raw == 0 ==> logistic(z).raw == 500_000,
{
    let t: int = if z.raw >= 0 {
        z.raw as int
    } else {
        -(z.raw as int)
    };
    lemma_exp_neg_in_unit(t);
    lemma_upper_half_bounds(exp_neg(t));
}

/// The curve is symmetric about one half: `logistic(-z) == 1 - logistic(z)`.
pub proof fn lemma_logistic_symmetric(z: Fixed)
    requires
        z.raw != i64::MIN,
    ensures
        logistic(z.sat_neg()).raw == 1_000_000 - logistic(z).raw,
{
    lemma_logistic_range(z);
    lemma_logistic_range(z.sat_neg());
    let t: int = if z.raw >= 0 {
        z.raw as int
    } else {
        -(z.raw as int)
    };
    lemma_exp_neg_in_unit(t);
    lemma_upper_half_bounds(exp_neg(t));
}

/// The curve never falls: a greater argument has no smaller value.
pub proof fn lemma_logistic_never_falls(a: Fixed, b: Fixed)
    requires
        a.raw <= b.raw,
    ensures
        logistic(a).raw <= logistic(b).raw,
{
    lemma_logistic_range(a);
    lemma_logistic_range(b);
    if a.raw >= 0 {
        lemma_upper_half_never_falls(a.raw as int, b.raw as int);
    } else if b.raw < 0 {
        lemma_upper_half_never_falls(-(b.raw as int), -(a.raw as int));
    }
}

/// `e^(-t)` at eighteen digits, for `t >= 0` in millionths.
pub fn exp_neg_fine(t: i64) -> (e: i128)
    requires
        t >= 0,
    ensures
        e == exp_neg(t as int),
        0 <= e <= FINE_ONE,
{
    proof {
        lemma_exp_neg_in_unit(t as int);
    }
    if t >= EXP_CUTOFF {
        return 0;
    }
    proof {
        lemma_small_part_in_range(t as int);
        lemma_small_exp_in_unit(small_part(t as int));
    }
    let x: i128 = ((t as i128) * 1_000_000_000_000) / SMALL_PARTS;
    assert(FINE_ONE * (2 * FINE_ONE - x) <= 2 * FINE_ONE * FINE_ONE) by (nonlinear_arith)
        requires
            0 <= x <= FINE_ONE,
    ;
    let mut b: i128 = (FINE_ONE * (2 * FINE_ONE - x)) / (2 * FINE_ONE + x);
    let ghost start = b;
    let mut i: u32 = 0;
    while i < SQUARINGS
        invariant
            i <= SQUARINGS,
            0 <= start <= FINE_ONE,
            b == squared(start as int, i as nat),
            0 <= b <= FINE_ONE,
        decreases SQUARINGS - i,
    {
        proof {
            lemma_square_ordered(b as int, b as int);
            lemma_squared_ordered(start as int, start as int, (i + 1) as nat);
        }
        b = (b * b) / FINE_ONE;
        i = i + 1;
    }
    b
}

/// The logistic curve `1 / (1 + e^(-z))` of `z`.
pub fn compute_logistic(z: Fixed) -> (r: Fixed)
    ensures
        r == logistic(z),
        0 <= r.raw <= 1_000_000,
{
    proof {
        lemma_logistic_range(z);
    }
    if z.raw >= 0 {
        let e = exp_neg_fine(z.raw);
        proof {
            lemma_upper_half_bounds(e as int);
        }
        let upper: i128 = 1_000_000_000_000_000_000_000_000 / (FINE_ONE + e);
        Fixed { raw: upper as i64 }
    } else if z.raw == i64::MIN {
        proof {
            assert(exp_neg(-(z.raw as int)) == 0);
            lemma_upper_half_bounds(0);
            assert(upper_half(-(z.raw as int)) == 1_000_000int);
        }
        Fixed { raw: 0 }
    } else {
        let e = exp_neg_fine(-z.raw);
        proof {
            lemma_upper_half_bounds(e as int);
        }
        let upper: i128 = 1_000_000_000_000_000_000_000_000 / (FINE_ONE + e);
        Fixed { raw: (1_000_000 - upper) as i64 }
    }
}

} // verus!
