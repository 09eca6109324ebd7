//! Saturating decimal fixed-point numbers with six fractional digits.
//!
//! A [`Fixed`] stands for the rational number `raw / SCALE`. Its view is the
//! integer `raw`; every operation is specified on raw units by one of the
//! spec functions of this module. Results that leave the representable range
//! `-LIMIT ..= LIMIT` saturate at the nearer end, and quotients are rounded
//! toward zero, so that negating an operand negates the result.

use vstd::prelude::*;

verus! {

/// Number of raw units in the value one.
pub const SCALE: i64 = 1_000_000;

/// Largest magnitude, in raw units, that a [`Fixed`] holds.
pub const LIMIT: i64 = 1_000_000_000_000_000_000;

/// Whether `v` raw units fit in a [`Fixed`].
pub open spec fn representable(v: int) -> bool {
    -LIMIT <= v <= LIMIT
}

/// The representable number of raw units nearest to `v`.
pub open spec fn saturate(v: int) -> int {
    if v > LIMIT {
        LIMIT as int
    } else if v < -LIMIT {
        -LIMIT
    } else {
        v
    }
}

/// The absolute value of `v`.
pub open spec fn magnitude(v: int) -> int {
    if v < 0 {
        -v
    } else {
        v
    }
}

/// `n / d` rounded toward zero.
pub open spec fn quotient(n: int, d: int) -> int
    recommends
        d != 0,
{
    if (n < 0) == (d < 0) {
        magnitude(n) / magnitude(d)
    } else {
        -(magnitude(n) / magnitude(d))
    }
}

/// Raw units of the saturated sum.
pub open spec fn sum(a: int, b: int) -> int {
    saturate(a + b)
}

/// Raw units of the saturated difference.
pub open spec fn difference(a: int, b: int) -> int {
    saturate(a - b)
}

/// Raw units of the saturated negation.
pub open spec fn negation(a: int) -> int {
    saturate(-a)
}

/// Raw units of the product, rounded toward zero and saturated.
pub open spec fn product(a: int, b: int) -> int {
    saturate(quotient(a * b, SCALE as int))
}

/// Raw units of the quotient `a / b`, rounded toward zero and saturated.
pub open spec fn ratio(a: int, b: int) -> int
    recommends
        b != 0,
{
    saturate(quotient(a * SCALE, b))
}

/// Whether `r` is the integer square root of `n`: the largest integer whose
/// square does not exceed `n`.
pub open spec fn is_int_sqrt(n: int, r: int) -> bool {
    0 <= r && r * r <= n < (r + 1) * (r + 1)
}

/// The integer square root of `n`, for `n >= 0`.
pub open spec fn int_sqrt(n: int) -> int
    recommends
        n >= 0,
{
    choose|r: int| is_int_sqrt(n, r)
}

/// Raw units of the square root of a number of `a >= 0` raw units, rounded
/// down.
pub open spec fn root(a: int) -> int
    recommends
        a >= 0,
{
    int_sqrt(a * SCALE)
}

/// At most one integer is the integer square root of `n`.
pub proof fn lemma_int_sqrt_unique(n: int, r: int)
    requires
        is_int_sqrt(n, r),
    ensures
        int_sqrt(n) == r,
{
    let c = int_sqrt(n);
    assert(is_int_sqrt(n, c));
    assert(c == r) by (nonlinear_arith)
        requires
            0 <= r,
            0 <= c,
            r * r <= n < (r + 1) * (r + 1),
            c * c <= n < (c + 1) * (c + 1),
    ;
}

/// Negating a factor negates the product.
pub proof fn lemma_product_negation(a: int, b: int)
    ensures
        product(-a, b) == -product(a, b),
        product(a, -b) == -product(a, b),
{
    assert((-a) * b == -(a * b) && a * (-b) == -(a * b)) by (nonlinear_arith);
}

/// A factor in `[0, 1)` brings a number nearer to zero, strictly so unless the
/// number is zero, and never across zero.
pub proof fn lemma_product_shrinks(factor: int, v: int)
    requires
        0 <= factor < SCALE,
    ensures
        magnitude(product(factor, v)) <= magnitude(v),
        v != 0 ==> magnitude(product(factor, v)) < magnitude(v),
        v >= 0 ==> product(factor, v) >= 0,
        v <= 0 ==> product(factor, v) <= 0,
{
    let m = magnitude(v);
    let exact = factor * v;
    assert(magnitude(exact) == factor * m && (exact < 0 ==> v < 0) && (exact > 0 ==> v > 0))
        by (nonlinear_arith)
        requires
            0 <= factor,
            exact == factor * v,
            m == magnitude(v),
    ;
    assert(factor * m <= (SCALE - 1) * m) by (nonlinear_arith)
        requires
            0 <= factor <= SCALE - 1,
            0 <= m,
    ;
}

/// A fixed-point number: `raw / SCALE`, with `|raw| <= LIMIT`.
#[derive(Clone, Copy, Debug, PartialEq, Eq)]
pub struct Fixed {
    raw: i64,
}

impl View for Fixed {
    type V = int;

    closed spec fn view(&self) -> int {
        self.raw as int
    }
}

/// The integer square root of `n`, by bisection.
pub fn isqrt(n: u128) -> (r: u128)
    ensures
        r == int_sqrt(n as int),
        is_int_sqrt(n as int, r as int),
        r < 0x1_0000_0000_0000_0000,
{
    let mut lo: u128 = 0;
    let mut hi: u128 = 0x1_0000_0000_0000_0000;
    assert(n < hi * hi) by (nonlinear_arith)
        requires
            hi == 0x1_0000_0000_0000_0000,
            n <= u128::MAX,
    ;
    while hi - lo > 1
        invariant
            lo < hi <= 0x1_0000_0000_0000_0000,
            lo * lo <= n < hi * hi,
        decreases hi - lo,
    {
        let mid: u128 = lo + (hi - lo) / 2;
        assert(mid * mid < 0x1_0000_0000_0000_0000 * 0x1_0000_0000_0000_0000)
            by (nonlinear_arith)
            requires
                mid < 0x1_0000_0000_0000_0000,
        ;
        if mid * mid <= n {
            lo = mid;
        } else {
            hi = mid;
        }
    }
    proof {
        assert(hi == lo + 1);
        lemma_int_sqrt_unique(n as int, lo as int);
    }
    lo
}

/// The absolute value of `v`.
fn magnitude_of(v: i64) -> (m: u128)
    ensures
        m == magnitude(v as int),
{
    if v < 0 {
        (-(v as i128)) as u128
    } else {
        v as u128
    }
}

impl Fixed {
    #[verifier::type_invariant]
    closed spec fn in_range(self) -> bool {
        -LIMIT <= self.raw <= LIMIT
    }

    /// The number of `raw` units, saturated to the representable range.
    pub fn from_raw(raw: i64) -> (r: Fixed)
        ensures
            r@ == saturate(raw as int),
    {
        Fixed::saturating(raw as i128)
    }

    /// The whole number `units`, saturated to the representable range.
    pub fn from_int(units: i64) -> (r: Fixed)
        ensures
            r@ == saturate(units * SCALE),
    {
        let u: i128 = units as i128;
        assert(-0x8000_0000_0000_0000 * SCALE <= u * SCALE <= 0x8000_0000_0000_0000 * SCALE)
            by (nonlinear_arith)
            requires
                -0x8000_0000_0000_0000 <= u <= 0x8000_0000_0000_0000,
        ;
        Fixed::saturating(u * SCALE as i128)
    }

    /// The number of `v` raw units, saturated to the representable range.
    pub fn saturating(v: i128) -> (r: Fixed)
        ensures
            r@ == saturate(v as int),
    {
        if v > LIMIT as i128 {
            Fixed { raw: LIMIT }
        } else if v < -(LIMIT as i128) {
            Fixed { raw: -LIMIT }
        } else {
            Fixed { raw: v as i64 }
        }
    }

    /// The raw units of this number, which are within the representable range.
    pub fn raw(self) -> (r: i64)
        ensures
            r == self@,
            representable(self@),
    {
        proof {
            use_type_invariant(&self);
        }
        self.raw
    }

    /// Saturating addition.
    pub fn add(self, other: Fixed) -> (r: Fixed)
        ensures
            r@ == sum(self@, other@),
    {
        Fixed::saturating(self.raw as i128 + other.raw as i128)
    }

    /// Saturating subtraction.
    pub fn sub(self, other: Fixed) -> (r: Fixed)
        ensures
            r@ == difference(self@, other@),
    {
        Fixed::saturating(self.raw as i128 - other.raw as i128)
    }

    /// Negation.
    pub fn neg(self) -> (r: Fixed)
        ensures
            r@ == negation(self@),
            r@ == -self@,
    {
        proof {
            use_type_invariant(&self);
        }
        Fixed::saturating(-(self.raw as i128))
    }

    /// Multiplication, rounded toward zero and saturated.
    pub fn mul(self, other: Fixed) -> (r: Fixed)
        ensures
            r@ == product(self@, other@),
    {
        let a: i128 = self.raw() as i128;
        let b: i128 = other.raw() as i128;
        assert(-LIMIT * LIMIT <= a * b <= LIMIT * LIMIT) by (nonlinear_arith)
            requires
                -LIMIT <= a <= LIMIT,
                -LIMIT <= b <= LIMIT,
        ;
        let p: i128 = a * b;
        Fixed::saturating(p / (SCALE as i128))
    }

    /// Division, rounded toward zero and saturated.
    pub fn div(self, other: Fixed) -> (r: Fixed)
        requires
            other@ != 0,
        ensures
            r@ == ratio(self@, other@),
    {
        let a: i64 = self.raw();
        let b: i64 = other.raw();
        let scaled: u128 = magnitude_of(a) * SCALE as u128;
        assert(scaled == magnitude(a * SCALE)) by (nonlinear_arith)
            requires
                scaled == magnitude(a as int) * SCALE,
        ;
        assert((a * SCALE < 0) == (a < 0)) by (nonlinear_arith);
        let q: u128 = scaled / magnitude_of(b);
        assert(q <= scaled) by (nonlinear_arith)
            requires
                q == scaled / (magnitude(b as int) as u128),
                magnitude(b as int) >= 1,
        ;
        if (a < 0) == (b < 0) {
            Fixed::saturating(q as i128)
        } else {
            Fixed::saturating(-(q as i128))
        }
    }

    /// Square root, rounded down.
    pub fn sqrt(self) -> (r: Fixed)
        requires
            self@ >= 0,
        ensures
            r@ == root(self@),
    {
        let a: u128 = self.raw() as u128;
        assert(a * SCALE <= LIMIT * SCALE) by (nonlinear_arith)
            requires
                a <= LIMIT,
        ;
        let n: u128 = a * SCALE as u128;
        let r: u128 = isqrt(n);
        assert(r <= 1_000_000_000_000) by (nonlinear_arith)
            requires
                r * r <= n,
                n <= 1_000_000_000_000_000_000_000_000,
                r >= 0,
        ;
        Fixed::saturating(r as i128)
    }
}

} // verus!
