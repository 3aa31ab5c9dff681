//! Fixed-point decimal arithmetic for all economic quantities.
//!
//! Every amount, rate and price in the engine is a `GoldGrams`: a signed
//! 128-bit integer counting units of 10^-12. Addition and subtraction are
//! exact; multiplication and division of non-negative operands truncate
//! toward zero. Binary floating point is never used for accounting, so the
//! conservation law can be stated and proved as an exact equality.

use vstd::prelude::*;

verus! {

/// Number of raw units in 1.0 (twelve fractional digits).
pub const SCALE: i128 = 1_000_000_000_000;

/// Largest raw magnitude accepted by `mul` for the product of the two
/// raw operands. Leaves headroom below `i128::MAX` (about 1.7 * 10^38).
pub const MUL_PRODUCT_LIMIT: i128 = 100_000_000_000_000_000_000_000_000_000_000_000_000;

/// Bound on any single packet value, fee or inventory fed through the
/// multiplying operations (10^12 whole units).
pub const VALUE_LIMIT: i128 = 1_000_000_000_000_000_000_000_000;

/// Largest raw numerator accepted by `div` (numerator * SCALE must fit).
pub const DIV_NUMERATOR_LIMIT: i128 = 100_000_000_000_000_000_000_000_000;

/// A fixed-point decimal with twelve fractional digits.
///
/// The name comes from the unit of account of the mesh (gold grams); the
/// same representation carries dimensionless rates and prices, which mix
/// with amounts in every fee formula.
#[derive(Clone, Copy, Debug, PartialEq, Eq, Structural, Hash)]
pub struct GoldGrams {
    raw: i128,
}

impl View for GoldGrams {
    type V = int;

    closed spec fn view(&self) -> int {
        self.raw as int
    }
}

impl GoldGrams {
    /// Zero value.
    pub fn zero() -> (r: GoldGrams)
        ensures
            r@ == 0,
    {
        GoldGrams { raw: 0 }
    }

    /// The value 1.0.
    pub fn one() -> (r: GoldGrams)
        ensures
            r@ == SCALE,
    {
        GoldGrams { raw: SCALE }
    }

    /// Build from a whole number of units.
    pub fn from_int(n: i64) -> (r: GoldGrams)
        ensures
            r@ == n * SCALE,
    {
        GoldGrams { raw: (n as i128) * SCALE }
    }

    /// Build directly from raw units of 10^-12.
    pub fn from_scaled(raw: i128) -> (r: GoldGrams)
        ensures
            r@ == raw,
    {
        GoldGrams { raw }
    }

    /// The raw unit count.
    pub fn to_scaled(self) -> (r: i128)
        ensures
            r == self@,
    {
        self.raw
    }

    /// Whether the value is exactly zero.
    pub fn is_zero(self) -> (r: bool)
        ensures
            r == (self@ == 0),
    {
        self.raw == 0
    }

    /// Exact addition.
    pub fn add(self, rhs: GoldGrams) -> (r: GoldGrams)
        requires
            i128::MIN <= self@ + rhs@ <= i128::MAX,
        ensures
            r@ == self@ + rhs@,
    {
        GoldGrams { raw: self.raw + rhs.raw }
    }

    /// Exact subtraction.
    pub fn sub(self, rhs: GoldGrams) -> (r: GoldGrams)
        requires
            i128::MIN <= self@ - rhs@ <= i128::MAX,
        ensures
            r@ == self@ - rhs@,
    {
        GoldGrams { raw: self.raw - rhs.raw }
    }

    /// Multiplication of non-negative operands, truncating toward zero:
    /// the result is `(a * b) / SCALE` in integer arithmetic. This is a
    /// deliberate deviation from round-half-to-even: truncation always
    /// loses value, never creates it, so every rounding crumb lands on
    /// the burned or fee side of the books and the conservation law
    /// still closes exactly. The loss per operation is below one raw
    /// unit (10^-12).
    pub fn mul(self, rhs: GoldGrams) -> (r: GoldGrams)
        requires
            0 <= self@,
            0 <= rhs@,
            self@ * rhs@ <= MUL_PRODUCT_LIMIT,
        ensures
            r@ == (self@ * rhs@) / (SCALE as int),
            0 <= r@,
            rhs@ <= SCALE ==> r@ <= self@,
            self@ <= SCALE ==> r@ <= rhs@,
    {
        proof {
            lemma_mul_div_bounds(self@, rhs@);
        }
        GoldGrams { raw: (self.raw * rhs.raw) / SCALE }
    }

    /// Division of a non-negative value by a positive value, truncating
    /// toward zero: the result is `(a * SCALE) / b` in integer arithmetic.
    pub fn div(self, rhs: GoldGrams) -> (r: GoldGrams)
        requires
            0 <= self@ <= DIV_NUMERATOR_LIMIT,
            0 < rhs@,
        ensures
            r@ == (self@ * (SCALE as int)) / rhs@,
            0 <= r@,
            rhs@ >= SCALE ==> r@ <= self@,
    {
        proof {
            lemma_div_bounds(self@, rhs@);
        }
        GoldGrams { raw: (self.raw * SCALE) / rhs.raw }
    }

    /// Exact multiplication by a plain integer factor.
    pub fn mul_int(self, k: u64) -> (r: GoldGrams)
        requires
            i128::MIN <= self@ * k <= i128::MAX,
        ensures
            r@ == self@ * k,
    {
        proof {
            assert(self@ * (k as int) == (self.raw as int) * (k as int));
        }
        GoldGrams { raw: self.raw * (k as i128) }
    }

    /// Floor division by a positive plain integer.
    pub fn div_int(self, k: u64) -> (r: GoldGrams)
        requires
            0 <= self@,
            0 < k,
        ensures
            r@ == self@ / (k as int),
            0 <= r@ <= self@,
    {
        proof {
            assert(0 <= self@ / (k as int) <= self@) by (nonlinear_arith)
                requires
                    0 <= self@,
                    0 < k,
            ;
        }
        GoldGrams { raw: self.raw / (k as i128) }
    }

    /// Multiplication where the left operand may be negative; truncates
    /// toward zero. The right operand must be non-negative.
    pub fn mul_signed(self, rhs: GoldGrams) -> (r: GoldGrams)
        requires
            0 <= rhs@,
            -MUL_PRODUCT_LIMIT <= self@ <= MUL_PRODUCT_LIMIT,
            -MUL_PRODUCT_LIMIT <= self@ * rhs@ <= MUL_PRODUCT_LIMIT,
        ensures
            r@ == scaled_mul(self@, rhs@),
    {
        if self.raw >= 0 {
            proof {
                assert(self@ * rhs@ >= 0) by (nonlinear_arith)
                    requires
                        0 <= self@,
                        0 <= rhs@,
                ;
            }
            self.mul(rhs)
        } else {
            let neg = GoldGrams { raw: -self.raw };
            proof {
                assert(neg@ * rhs@ == -(self@ * rhs@)) by (nonlinear_arith)
                    requires
                        neg@ == -self@,
                ;
                assert(neg@ * rhs@ >= 0) by (nonlinear_arith)
                    requires
                        0 <= neg@,
                        0 <= rhs@,
                ;
            }
            let m = neg.mul(rhs);
            GoldGrams { raw: -m.raw }
        }
    }

    /// Division where the numerator may be negative; truncates toward
    /// zero. The divisor must be positive.
    pub fn div_signed(self, rhs: GoldGrams) -> (r: GoldGrams)
        requires
            -DIV_NUMERATOR_LIMIT <= self@ <= DIV_NUMERATOR_LIMIT,
            0 < rhs@,
        ensures
            r@ == scaled_div(self@, rhs@),
    {
        if self.raw >= 0 {
            self.div(rhs)
        } else {
            let neg = GoldGrams { raw: -self.raw };
            let d = neg.div(rhs);
            GoldGrams { raw: -d.raw }
        }
    }

    /// Smaller of two values.
    pub fn min(self, rhs: GoldGrams) -> (r: GoldGrams)
        ensures
            r@ == if self@ <= rhs@ { self@ } else { rhs@ },
    {
        if self.raw <= rhs.raw {
            self
        } else {
            rhs
        }
    }

    /// Larger of two values.
    pub fn max(self, rhs: GoldGrams) -> (r: GoldGrams)
        ensures
            r@ == if self@ >= rhs@ { self@ } else { rhs@ },
    {
        if self.raw >= rhs.raw {
            self
        } else {
            rhs
        }
    }

    /// Absolute value.
    pub fn abs(self) -> (r: GoldGrams)
        requires
            self@ != i128::MIN,
        ensures
            r@ == if self@ >= 0 { self@ } else { -self@ },
    {
        if self.raw >= 0 {
            self
        } else {
            GoldGrams { raw: -self.raw }
        }
    }

    /// Clamp into the inclusive range `[lo, hi]`.
    pub fn clamp(self, lo: GoldGrams, hi: GoldGrams) -> (r: GoldGrams)
        requires
            lo@ <= hi@,
        ensures
            r@ == if self@ < lo@ { lo@ } else if self@ > hi@ { hi@ } else { self@ },
    {
        if self.raw < lo.raw {
            lo
        } else if self.raw > hi.raw {
            hi
        } else {
            self
        }
    }

    /// Whether `self <= rhs`.
    pub fn le(self, rhs: GoldGrams) -> (r: bool)
        ensures
            r == (self@ <= rhs@),
    {
        self.raw <= rhs.raw
    }

    /// Whether `self < rhs`.
    pub fn lt(self, rhs: GoldGrams) -> (r: bool)
        ensures
            r == (self@ < rhs@),
    {
        self.raw < rhs.raw
    }

    /// Whether `self >= rhs`.
    pub fn ge(self, rhs: GoldGrams) -> (r: bool)
        ensures
            r == (self@ >= rhs@),
    {
        self.raw >= rhs.raw
    }

    /// Whether `self > rhs`.
    pub fn gt(self, rhs: GoldGrams) -> (r: bool)
        ensures
            r == (self@ > rhs@),
    {
        self.raw > rhs.raw
    }
}

/// The smaller of two mathematical integers.
pub open spec fn min_spec(a: int, b: int) -> int {
    if a <= b {
        a
    } else {
        b
    }
}

/// Accumulator and term of the saturating reciprocal-exponential series
/// after `k` iterations: the exact value `exp_neg` computes.
pub open spec fn exp_series(x: int, k: nat) -> (int, int)
    decreases k,
{
    if k == 0 {
        (SCALE as int, SCALE as int)
    } else {
        let prev = exp_series(x, (k - 1) as nat);
        let t = min_spec((prev.1 * x) / (SCALE as int) / (k as int), 10_000_000_000_000_000_000);
        (min_spec(prev.0 + t, 100_000_000_000_000_000_000), t)
    }
}

/// The fixed-point value of `e^(-x)`: one over the series' accumulator.
pub open spec fn exp_neg_spec(x: int) -> int {
    ((SCALE as int) * (SCALE as int)) / exp_series(x, 60).0
}

/// The fixed-point value of `e^(-x)` for any non-negative exponent:
/// zero beyond 30, else the square of the half-exponent's factor.
pub open spec fn exp_neg_general_spec(x: int) -> int {
    if x >= 30 * SCALE {
        0
    } else {
        (exp_neg_spec(x / 2) * exp_neg_spec(x / 2)) / (SCALE as int)
    }
}

/// Fixed-point `e^(-x)` for `0 <= x <= 15`: the reciprocal of the
/// exponential series. The partial sums saturate at a bound far above
/// `e^15`, so the saturation never binds on admissible inputs.
pub fn exp_neg(x: GoldGrams) -> (r: GoldGrams)
    requires
        0 <= x@ <= 15 * SCALE,
    ensures
        0 <= r@ <= SCALE,
        x@ == 0 ==> r@ == SCALE,
        r@ == exp_neg_spec(x@),
{
    let mut acc = GoldGrams::one();
    let mut term = GoldGrams::one();
    let mut k: u64 = 1;
    while k <= 60
        invariant
            0 <= x@ <= 15 * SCALE,
            1 <= k <= 61,
            SCALE <= acc@ <= 100_000_000_000_000_000_000,
            0 <= term@ <= 10_000_000_000_000_000_000,
            x@ == 0 ==> acc@ == SCALE,
            (acc@, term@) == exp_series(x@, (k - 1) as nat),
        decreases 61 - k,
    {
        proof {
            lemma_mul_le(term@, x@, 10_000_000_000_000_000_000, 15 * SCALE);
        }
        let ghost t0 = term@;
        term = term.mul(x).div_int(k).min(GoldGrams::from_scaled(10_000_000_000_000_000_000));
        proof {
            if x@ == 0 {
                assert(t0 * x@ == 0) by (nonlinear_arith)
                    requires
                        x@ == 0,
                ;
                assert(term@ == 0);
            }
        }
        acc = acc.add(term).min(GoldGrams::from_scaled(100_000_000_000_000_000_000));
        proof {
            assert(exp_series(x@, k as nat) == (acc@, term@));
        }
        k = k + 1;
    }
    proof {
        assert((SCALE as int) * (SCALE as int) / (SCALE as int) == SCALE) by (nonlinear_arith);
    }
    GoldGrams::one().div(acc)
}

/// The exponential decay factor `e^(-x)` for any non-negative exponent:
/// beyond 30 the factor is below one raw unit and is taken as zero;
/// otherwise it is the square of the half-exponent's factor.
pub fn exp_neg_general(x: GoldGrams) -> (r: GoldGrams)
    requires
        0 <= x@,
    ensures
        0 <= r@ <= SCALE,
        x@ == 0 ==> r@ == SCALE,
        r@ == exp_neg_general_spec(x@),
{
    if x.ge(GoldGrams::from_scaled(30 * SCALE)) {
        return GoldGrams::zero();
    }
    let half = x.div_int(2);
    let e_half = exp_neg(half);
    proof {
        lemma_mul_le(e_half@, e_half@, SCALE as int, SCALE as int);
        if x@ == 0 {
            assert((SCALE as int) * (SCALE as int) / (SCALE as int) == SCALE)
                by (nonlinear_arith);
        }
    }
    e_half.mul(e_half)
}

/// Scaled product truncated toward zero, for a non-negative right operand.
pub open spec fn scaled_mul(a: int, b: int) -> int {
    if a >= 0 {
        (a * b) / (SCALE as int)
    } else {
        -(((-a) * b) / (SCALE as int))
    }
}

/// Scaled quotient truncated toward zero, for a positive divisor.
pub open spec fn scaled_div(a: int, b: int) -> int {
    if a >= 0 {
        (a * (SCALE as int)) / b
    } else {
        -(((-a) * (SCALE as int)) / b)
    }
}

/// Magnitude bound for a scaled product from bounds on both operands.
pub proof fn lemma_scaled_mul_range(a: int, b: int, abound: int, bbound: int)
    requires
        -abound <= a <= abound,
        0 <= b <= bbound * SCALE,
        0 <= abound,
        0 <= bbound,
    ensures
        -abound * bbound <= scaled_mul(a, b) <= abound * bbound,
{
    assert(0 <= abound * bbound) by (nonlinear_arith)
        requires
            0 <= abound,
            0 <= bbound,
    ;
    assert((-abound) * bbound == -(abound * bbound)) by (nonlinear_arith);
    let m = if a >= 0 {
        a
    } else {
        -a
    };
    assert(0 <= m * b && m * b <= (abound * bbound) * SCALE) by (nonlinear_arith)
        requires
            0 <= m <= abound,
            0 <= b <= bbound * SCALE,
    ;
    assert((m * b) / (SCALE as int) <= ((abound * bbound) * (SCALE as int)) / (SCALE as int))
        by (nonlinear_arith)
        requires
            m * b <= (abound * bbound) * SCALE,
    ;
    assert(((abound * bbound) * (SCALE as int)) / (SCALE as int) == abound * bbound)
        by (nonlinear_arith);
    assert(0 <= (m * b) / (SCALE as int)) by (nonlinear_arith)
        requires
            0 <= m * b,
    ;
}

/// Truncating product bound: for non-negative a, b the scaled product
/// stays non-negative and is bounded by each factor when the other is
/// at most 1.0.
proof fn lemma_mul_div_bounds(a: int, b: int)
    requires
        0 <= a,
        0 <= b,
    ensures
        0 <= (a * b) / (SCALE as int),
        b <= SCALE ==> (a * b) / (SCALE as int) <= a,
        a <= SCALE ==> (a * b) / (SCALE as int) <= b,
{
    assert(0 <= a * b) by (nonlinear_arith)
        requires
            0 <= a,
            0 <= b,
    ;
    assert(0 <= (a * b) / (SCALE as int)) by (nonlinear_arith)
        requires
            0 <= a * b,
    ;
    if b <= SCALE {
        assert(a * b <= a * SCALE) by (nonlinear_arith)
            requires
                0 <= a,
                b <= SCALE,
        ;
        assert((a * b) / (SCALE as int) <= (a * (SCALE as int)) / (SCALE as int))
            by (nonlinear_arith)
            requires
                a * b <= a * SCALE,
        ;
        assert((a * (SCALE as int)) / (SCALE as int) == a) by (nonlinear_arith);
    }
    if a <= SCALE {
        assert(a * b <= SCALE * b) by (nonlinear_arith)
            requires
                0 <= b,
                a <= SCALE,
        ;
        assert((a * b) / (SCALE as int) <= ((SCALE as int) * b) / (SCALE as int))
            by (nonlinear_arith)
            requires
                a * b <= SCALE * b,
        ;
        assert(((SCALE as int) * b) / (SCALE as int) == b) by (nonlinear_arith);
    }
}

/// Truncating quotient bound: for 0 <= a and 0 < b the scaled quotient is
/// non-negative, and at most a when b >= 1.0.
proof fn lemma_div_bounds(a: int, b: int)
    requires
        0 <= a,
        0 < b,
    ensures
        0 <= (a * (SCALE as int)) / b,
        b >= SCALE ==> (a * (SCALE as int)) / b <= a,
{
    assert(0 <= a * SCALE) by (nonlinear_arith)
        requires
            0 <= a,
    ;
    assert(0 <= (a * (SCALE as int)) / b) by (nonlinear_arith)
        requires
            0 <= a * SCALE,
            0 < b,
    ;
    if b >= SCALE {
        assert((a * (SCALE as int)) / b <= (a * (SCALE as int)) / (SCALE as int))
            by (nonlinear_arith)
            requires
                0 <= a * SCALE,
                b >= SCALE,
                0 < SCALE,
        ;
        assert((a * (SCALE as int)) / (SCALE as int) == a) by (nonlinear_arith);
    }
}

/// Product monotonicity helper used by callers to discharge `mul` bounds.
pub proof fn lemma_mul_le(a: int, b: int, c: int, d: int)
    requires
        0 <= a <= c,
        0 <= b <= d,
    ensures
        a * b <= c * d,
{
    assert(a * b <= c * d) by (nonlinear_arith)
        requires
            0 <= a <= c,
            0 <= b <= d,
    ;
}

/// Division monotonicity in the numerator, for a shared positive divisor.
pub proof fn lemma_div_le(a: int, b: int, d: int)
    requires
        a <= b,
        0 < d,
    ensures
        a / d <= b / d,
{
    assert(a / d <= b / d) by (nonlinear_arith)
        requires
            a <= b,
            0 < d,
    ;
}

} // verus!
