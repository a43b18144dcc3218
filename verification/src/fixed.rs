//! Fixed-point decimals.
//!
//! Every amount, fraction, price and score of the engine is a [`Fixed`]: a signed
//! 64-bit count of millionths. All arithmetic saturates at the ends of the 64-bit
//! range and rounds toward zero, so that no operation can fail and a product or a
//! quotient never exceeds in magnitude the exact value it stands for.
use vstd::prelude::*;

verus! {

/// Number of raw units in one whole unit.
pub const SCALE: i64 = 1_000_000;

/// The integer nearest to `x` that a `Fixed` can hold.
pub open spec fn sat(x: int) -> i64 {
    if x > i64::MAX {
        i64::MAX
    } else if x < i64::MIN {
        i64::MIN
    } else {
        x as i64
    }
}

/// Quotient of `a` by `d` rounded toward zero (`d` is not zero).
pub open spec fn trunc_div(a: int, d: int) -> int {
    if d > 0 {
        if a >= 0 {
            a / d
        } else {
            -((-a) / d)
        }
    } else {
        if a >= 0 {
            -(a / (-d))
        } else {
            (-a) / (-d)
        }
    }
}

/// Quotient of a non-negative `a` by a positive `d`, rounded to the nearest integer,
/// a half rounding up.
pub open spec fn round_div(a: int, d: int) -> int {
    (2 * a + d) / (2 * d)
}

/// A signed decimal with six fractional digits, held as a count of millionths.
#[derive(Debug, Clone, Copy, PartialEq, Eq, Structural)]
pub struct Fixed {
    pub raw: i64,
}

impl Fixed {
    /// Zero.
    pub open spec fn spec_zero() -> Fixed {
        Fixed { raw: 0 }
    }

    /// One whole.
    pub open spec fn spec_one() -> Fixed {
        Fixed { raw: SCALE }
    }

    /// The value of `raw` millionths.
    pub open spec fn spec_from_micros(raw: i64) -> Fixed {
        Fixed { raw }
    }

    /// The whole number `units`, brought into range.
    pub open spec fn spec_from_int(units: i64) -> Fixed {
        Fixed { raw: sat(units * SCALE) }
    }

    /// The quotient of two whole numbers.
    pub open spec fn spec_from_ratio(num: i64, den: i64) -> Fixed {
        Self::spec_from_int(num).spec_sat_div(Self::spec_from_int(den))
    }

    /// Sum, brought into range.
    pub open spec fn spec_sat_add(self, other: Fixed) -> Fixed {
        Fixed { raw: sat(self.raw + other.raw) }
    }

    /// Difference, brought into range.
    pub open spec fn spec_sat_sub(self, other: Fixed) -> Fixed {
        Fixed { raw: sat(self.raw - other.raw) }
    }

    /// Negation; the least value negates to the greatest.
    pub open spec fn spec_sat_neg(self) -> Fixed {
        Fixed { raw: sat(-self.raw) }
    }

    /// Magnitude; that of the least value is the greatest value.
    pub open spec fn spec_sat_abs(self) -> Fixed {
        if self.raw >= 0 {
            self
        } else {
            self.spec_sat_neg()
        }
    }

    /// Product, rounded toward zero and brought into range.
    pub open spec fn spec_sat_mul(self, other: Fixed) -> Fixed {
        Fixed { raw: sat(trunc_div(self.raw * other.raw, SCALE as int)) }
    }

    /// Division never fails: a zero divisor gives zero for a zero dividend and the
    /// nearest end of the range otherwise.
    pub open spec fn spec_sat_div(self, other: Fixed) -> Fixed {
        if other.raw == 0 {
            if self.raw == 0 {
                Fixed { raw: 0 }
            } else if self.raw > 0 {
                Fixed { raw: i64::MAX }
            } else {
                Fixed { raw: i64::MIN }
            }
        } else {
            Fixed { raw: sat(trunc_div(self.raw * SCALE, other.raw as int)) }
        }
    }

    /// The smaller of two values.
    pub open spec fn spec_min(self, other: Fixed) -> Fixed {
        if self.raw <= other.raw {
            self
        } else {
            other
        }
    }

    /// The larger of two values.
    pub open spec fn spec_max(self, other: Fixed) -> Fixed {
        if self.raw >= other.raw {
            self
        } else {
            other
        }
    }

    /// `self` brought into `[lo, hi]`; the lower bound is applied first, as
    /// `max(lo).min(hi)` does.
    pub open spec fn spec_clamp(self, lo: Fixed, hi: Fixed) -> Fixed {
        self.spec_max(lo).spec_min(hi)
    }

    /// Zero.
    #[verifier::when_used_as_spec(spec_zero)]
    pub fn zero() -> (r: Fixed)
        ensures
            r == Self::spec_zero(),
    {
        Fixed { raw: 0 }
    }

    /// One whole.
    #[verifier::when_used_as_spec(spec_one)]
    pub fn one() -> (r: Fixed)
        ensures
            r == Self::spec_one(),
    {
        Fixed { raw: SCALE }
    }

    /// The value of `raw` millionths.
    #[verifier::when_used_as_spec(spec_from_micros)]
    pub fn from_micros(raw: i64) -> (r: Fixed)
        ensures
            r == Self::spec_from_micros(raw),
    {
        Fixed { raw }
    }

    /// The whole number `units`.
    #[verifier::when_used_as_spec(spec_from_int)]
    pub fn from_int(units: i64) -> (r: Fixed)
        ensures
            r == Self::spec_from_int(units),
    {
        let wide: i128 = (units as i128) * 1_000_000;
        Fixed { raw: clamp_to_i64(wide) }
    }

    /// The quotient `num / den` of two whole numbers.
    #[verifier::when_used_as_spec(spec_from_ratio)]
    pub fn from_ratio(num: i64, den: i64) -> (r: Fixed)
        ensures
            r == Self::spec_from_ratio(num, den),
    {
        Self::from_int(num).sat_div(Self::from_int(den))
    }

    /// Sum, brought into range.
    #[verifier::when_used_as_spec(spec_sat_add)]
    pub fn sat_add(self, other: Fixed) -> (r: Fixed)
        ensures
            r == self.spec_sat_add(other),
    {
        let wide: i128 = (self.raw as i128) + (other.raw as i128);
        Fixed { raw: clamp_to_i64(wide) }
    }

    /// Difference, brought into range.
    #[verifier::when_used_as_spec(spec_sat_sub)]
    pub fn sat_sub(self, other: Fixed) -> (r: Fixed)
        ensures
            r == self.spec_sat_sub(other),
    {
        let wide: i128 = (self.raw as i128) - (other.raw as i128);
        Fixed { raw: clamp_to_i64(wide) }
    }

    /// Negation; the least value negates to the greatest.
    #[verifier::when_used_as_spec(spec_sat_neg)]
    pub fn sat_neg(self) -> (r: Fixed)
        ensures
            r == self.spec_sat_neg(),
    {
        let wide: i128 = -(self.raw as i128);
        Fixed { raw: clamp_to_i64(wide) }
    }

    /// Magnitude; that of the least value is the greatest value.
    #[verifier::when_used_as_spec(spec_sat_abs)]
    pub fn sat_abs(self) -> (r: Fixed)
        ensures
            r == self.spec_sat_abs(),
    {
        if self.raw >= 0 {
            self
        } else {
            self.sat_neg()
        }
    }

    /// Product, rounded toward zero and brought into range.
    #[verifier::when_used_as_spec(spec_sat_mul)]
    pub fn sat_mul(self, other: Fixed) -> (r: Fixed)
        ensures
            r == self.spec_sat_mul(other),
    {
        let a: i128 = self.raw as i128;
        let b: i128 = other.raw as i128;
        proof {
            lemma_product_fits(a as int, b as int);
        }
        let wide: i128 = (a * b) / 1_000_000;
        Fixed { raw: clamp_to_i64(wide) }
    }

    /// Quotient, rounded toward zero and brought into range; see [`Self::spec_sat_div`] for a
    /// zero divisor.
    #[verifier::when_used_as_spec(spec_sat_div)]
    pub fn sat_div(self, other: Fixed) -> (r: Fixed)
        ensures
            r == self.spec_sat_div(other),
    {
        if other.raw == 0 {
            if self.raw == 0 {
                Fixed { raw: 0 }
            } else if self.raw > 0 {
                Fixed { raw: i64::MAX }
            } else {
                Fixed { raw: i64::MIN }
            }
        } else {
            let num: i128 = (self.raw as i128) * 1_000_000;
            let wide: i128 = if other.raw > 0 {
                num / (other.raw as i128)
            } else {
                (-num) / (-(other.raw as i128))
            };
            Fixed { raw: clamp_to_i64(wide) }
        }
    }

    /// The smaller of two values.
    #[verifier::when_used_as_spec(spec_min)]
    pub fn min(self, other: Fixed) -> (r: Fixed)
        ensures
            r == self.spec_min(other),
    {
        if self.raw <= other.raw {
            self
        } else {
            other
        }
    }

    /// The larger of two values.
    #[verifier::when_used_as_spec(spec_max)]
    pub fn max(self, other: Fixed) -> (r: Fixed)
        ensures
            r == self.spec_max(other),
    {
        if self.raw >= other.raw {
            self
        } else {
            other
        }
    }

    /// `self` brought into `[lo, hi]`.
    #[verifier::when_used_as_spec(spec_clamp)]
    pub fn clamp(self, lo: Fixed, hi: Fixed) -> (r: Fixed)
        ensures
            r == self.spec_clamp(lo, hi),
    {
        self.max(lo).min(hi)
    }
}

/// The `i64` nearest to `wide`.
pub fn clamp_to_i64(wide: i128) -> (r: i64)
    ensures
        r == sat(wide as int),
{
    if wide > i64::MAX as i128 {
        i64::MAX
    } else if wide < i64::MIN as i128 {
        i64::MIN
    } else {
        wide as i64
    }
}

/// The product of two 64-bit integers fits in 128 bits.
pub proof fn lemma_product_fits(a: int, b: int)
    by (nonlinear_arith)
    requires
        i64::MIN <= a <= i64::MAX,
        i64::MIN <= b <= i64::MAX,
    ensures
        -0x4000_0000_0000_0000_0000_0000_0000_0000 <= a * b
            <= 0x4000_0000_0000_0000_0000_0000_0000_0000,
{
}

/// Rounding toward zero keeps the order of what is divided.
pub proof fn lemma_trunc_div_ordered(a: int, b: int, d: int)
    requires
        a <= b,
        0 < d,
    ensures
        trunc_div(a, d) <= trunc_div(b, d),
{
    if a >= 0 {
        vstd::arithmetic::div_mod::lemma_div_is_ordered(a, b, d);
    } else if b < 0 {
        vstd::arithmetic::div_mod::lemma_div_is_ordered(-b, -a, d);
    } else {
        vstd::arithmetic::div_mod::lemma_div_is_ordered(0, -a, d);
        vstd::arithmetic::div_mod::lemma_div_is_ordered(0, b, d);
        assert(0int / d == 0) by (nonlinear_arith)
            requires
                d > 0,
        ;
    }
}

/// A product with a factor that is not negative keeps the order of the other factor.
pub proof fn lemma_sat_mul_ordered(k: Fixed, x: Fixed, y: Fixed)
    requires
        k.raw >= 0,
        x.raw <= y.raw,
    ensures
        k.sat_mul(x).raw <= k.sat_mul(y).raw,
{
    assert(k.raw * x.raw <= k.raw * y.raw) by (nonlinear_arith)
        requires
            k.raw >= 0,
            x.raw <= y.raw,
    ;
    lemma_trunc_div_ordered(k.raw * x.raw, k.raw * y.raw, SCALE as int);
}

} // verus!
