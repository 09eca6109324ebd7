//! Natural numbers of any size, for quotients whose numerator and
//! denominator are products too large for a machine word.

use crate::fixed::{magnitude, quotient, saturate, LIMIT};
use vstd::prelude::*;

verus! {

/// The base of the limbs: two to the power of 64.
pub const BASE: u128 = 0x1_0000_0000_0000_0000;

/// The weight of limb `i`: `BASE` to the power of `i`.
pub open spec fn weight(i: nat) -> nat
    decreases i,
{
    if i == 0 {
        1
    } else {
        BASE as nat * weight((i - 1) as nat)
    }
}

/// The number that the limbs stand for, least significant limb first.
pub open spec fn value(limbs: Seq<u64>) -> nat
    decreases limbs.len(),
{
    if limbs.len() == 0 {
        0
    } else {
        value(limbs.drop_last()) + limbs.last() as nat * weight((limbs.len() - 1) as nat)
    }
}

/// The quotient `n / d`, held to at most `LIMIT`.
pub open spec fn capped_quotient(n: nat, d: nat) -> nat
    recommends
        d > 0,
{
    if n / d > LIMIT {
        LIMIT as nat
    } else {
        n / d
    }
}

/// One more limb adds its digit times its weight.
pub proof fn lemma_value_push(limbs: Seq<u64>, limb: u64)
    ensures
        value(limbs.push(limb)) == value(limbs) + limb as nat * weight(limbs.len()),
{
    assert(limbs.push(limb).drop_last() =~= limbs);
}

/// A number of `n` limbs is less than the weight of limb `n`.
pub proof fn lemma_value_bound(limbs: Seq<u64>)
    ensures
        value(limbs) < weight(limbs.len()),
    decreases limbs.len(),
{
    if limbs.len() > 0 {
        lemma_value_bound(limbs.drop_last());
        let low = value(limbs.drop_last());
        let w = weight((limbs.len() - 1) as nat);
        let top = limbs.last() as nat;
        assert(low + top * w < BASE as nat * w) by (nonlinear_arith)
            requires
                low < w,
                top <= BASE - 1,
        ;
    }
}

/// A natural number of any size.
pub struct Wide {
    limbs: Vec<u64>,
}

impl View for Wide {
    type V = nat;

    closed spec fn view(&self) -> nat {
        value(self.limbs@)
    }
}

impl Wide {
    /// The number `v`.
    pub fn from_u128(v: u128) -> (r: Wide)
        ensures
            r@ == v,
    {
        let low: u64 = (v % BASE) as u64;
        let high: u64 = (v / BASE) as u64;
        let mut limbs: Vec<u64> = Vec::new();
        limbs.push(low);
        limbs.push(high);
        proof {
            let empty = Seq::<u64>::empty();
            lemma_value_push(empty, low);
            lemma_value_push(empty.push(low), high);
            assert(limbs@ =~= empty.push(low).push(high));
            assert(weight(0) == 1);
            assert(weight(1) == BASE as nat * weight(0));
            assert(value(empty) == 0);
            assert(low as nat * weight(0) == low as nat) by (nonlinear_arith)
                requires
                    weight(0) == 1,
            ;
            assert(high as nat * weight(1) == high as nat * BASE as nat) by (nonlinear_arith)
                requires
                    weight(1) == BASE as nat,
            ;
        }
        Wide { limbs }
    }

    /// The product with `factor`.
    pub fn times(&self, factor: u64) -> (r: Wide)
        ensures
            r@ == self@ * factor,
    {
        let n = self.limbs.len();
        let mut limbs: Vec<u64> = Vec::new();
        let mut carry: u64 = 0;
        let mut i: usize = 0;
        proof {
            assert(self.limbs@.take(0) =~= Seq::<u64>::empty());
            assert(limbs@ =~= Seq::<u64>::empty());
            assert(value(Seq::<u64>::empty()) == 0);
            assert(carry as nat * weight(0) == 0) by (nonlinear_arith)
                requires
                    carry == 0,
            ;
            assert(0nat * factor as nat == 0) by (nonlinear_arith);
        }
        while i < n
            invariant
                i <= n,
                n == self.limbs@.len(),
                limbs@.len() == i,
                value(limbs@) + carry as nat * weight(i as nat) == value(self.limbs@.take(i as int))
                    * factor,
            decreases n - i,
        {
            let limb: u64 = self.limbs[i];
            assert(limb as u128 * factor as u128 + carry as u128 <= u128::MAX) by (nonlinear_arith)
                requires
                    limb <= u64::MAX,
                    factor <= u64::MAX,
                    carry <= u64::MAX,
            ;
            let t: u128 = limb as u128 * factor as u128 + carry as u128;
            let low: u64 = (t % BASE) as u64;
            let high: u64 = (t / BASE) as u64;
            proof {
                let w = weight(i as nat);
                let done = value(limbs@);
                let before = value(self.limbs@.take(i as int));
                lemma_value_push(limbs@, low);
                lemma_value_push(self.limbs@.take(i as int), limb);
                assert(self.limbs@.take(i + 1) =~= self.limbs@.take(i as int).push(limb));
                assert(weight((i + 1) as nat) == BASE as nat * w);
                assert(done + low as nat * w + high as nat * (BASE as nat * w) == (before + limb
                    as nat * w) * factor) by (nonlinear_arith)
                    requires
                        done + carry as nat * w == before * factor,
                        limb as nat * factor as nat + carry as nat == low as nat + high as nat
                            * BASE as nat,
                ;
            }
            limbs.push(low);
            carry = high;
            i += 1;
        }
        proof {
            lemma_value_push(limbs@, carry);
            assert(self.limbs@.take(n as int) =~= self.limbs@);
        }
        limbs.push(carry);
        Wide { limbs }
    }

    /// The same number on at least `length` limbs.
    fn extended(&self, length: usize) -> (r: Wide)
        ensures
            r@ == self@,
            r.limbs@.len() >= length,
            r.limbs@.len() >= self.limbs@.len(),
            r.limbs@.len() == length || r.limbs@.len() == self.limbs@.len(),
    {
        let mut limbs: Vec<u64> = self.limbs.clone();
        assert(limbs@ =~= self.limbs@);
        while limbs.len() < length
            invariant
                value(limbs@) == value(self.limbs@),
                limbs@.len() >= self.limbs@.len(),
                limbs@.len() <= length || limbs@.len() == self.limbs@.len(),
            decreases length - limbs.len(),
        {
            proof {
                lemma_value_push(limbs@, 0);
            }
            limbs.push(0);
        }
        Wide { limbs }
    }

    /// Whether this number is at most `other`.
    pub fn le(&self, other: &Wide) -> (b: bool)
        ensures
            b == (self@ <= other@),
    {
        let a = self.extended(other.limbs.len());
        let b = other.extended(self.limbs.len());
        let n = a.limbs.len();
        assert(b.limbs@.len() == n);
        let mut i: usize = n;
        assert(a.limbs@.take(n as int) =~= a.limbs@);
        assert(b.limbs@.take(n as int) =~= b.limbs@);
        while i > 0
            invariant
                i <= n,
                n == a.limbs@.len(),
                n == b.limbs@.len(),
                a@ == self@,
                b@ == other@,
                value(a.limbs@) - value(b.limbs@) == value(a.limbs@.take(i as int)) - value(
                    b.limbs@.take(i as int),
                ),
            decreases i,
        {
            let x: u64 = a.limbs[i - 1];
            let y: u64 = b.limbs[i - 1];
            proof {
                let low_a = a.limbs@.take(i - 1);
                let low_b = b.limbs@.take(i - 1);
                let w = weight((i - 1) as nat);
                assert(a.limbs@.take(i as int) =~= low_a.push(x));
                assert(b.limbs@.take(i as int) =~= low_b.push(y));
                lemma_value_push(low_a, x);
                lemma_value_push(low_b, y);
                lemma_value_bound(low_a);
                lemma_value_bound(low_b);
                if x < y {
                    assert(x as nat * w + w <= y as nat * w) by (nonlinear_arith)
                        requires
                            x < y,
                    ;
                }
                if x > y {
                    assert(y as nat * w + w <= x as nat * w) by (nonlinear_arith)
                        requires
                            y < x,
                    ;
                }
            }
            if x < y {
                return true;
            }
            if x > y {
                return false;
            }
            i -= 1;
        }
        assert(a.limbs@.take(0) =~= b.limbs@.take(0));
        true
    }

    /// The product with `BASE`.
    fn shifted(&self) -> (r: Wide)
        ensures
            r@ == self@ * BASE,
    {
        let n = self.limbs.len();
        let mut limbs: Vec<u64> = Vec::new();
        limbs.push(0);
        let mut i: usize = 0;
        proof {
            assert(self.limbs@.take(0) =~= Seq::<u64>::empty());
            lemma_value_push(Seq::<u64>::empty(), 0);
            assert(limbs@ =~= Seq::<u64>::empty().push(0u64));
            assert(value(Seq::<u64>::empty()) == 0);
            assert(0nat * BASE as nat == 0) by (nonlinear_arith);
        }
        while i < n
            invariant
                i <= n,
                n == self.limbs@.len(),
                limbs@.len() == i + 1,
                value(limbs@) == value(self.limbs@.take(i as int)) * BASE,
            decreases n - i,
        {
            let limb: u64 = self.limbs[i];
            proof {
                let w = weight(i as nat);
                let before = value(self.limbs@.take(i as int));
                lemma_value_push(limbs@, limb);
                lemma_value_push(self.limbs@.take(i as int), limb);
                assert(self.limbs@.take(i + 1) =~= self.limbs@.take(i as int).push(limb));
                assert(weight((i + 1) as nat) == BASE as nat * w);
                assert(before * BASE + limb as nat * (BASE as nat * w) == (before + limb as nat * w)
                    * BASE) by (nonlinear_arith);
            }
            limbs.push(limb);
            i += 1;
        }
        assert(self.limbs@.take(n as int) =~= self.limbs@);
        Wide { limbs }
    }

    /// The sum with `other`.
    pub fn plus(&self, other: &Wide) -> (r: Wide)
        ensures
            r@ == self@ + other@,
    {
        let a = self.extended(other.limbs.len());
        let b = other.extended(self.limbs.len());
        let n = a.limbs.len();
        assert(b.limbs@.len() == n);
        let mut limbs: Vec<u64> = Vec::new();
        let mut carry: u64 = 0;
        let mut i: usize = 0;
        proof {
            assert(a.limbs@.take(0) =~= Seq::<u64>::empty());
            assert(b.limbs@.take(0) =~= Seq::<u64>::empty());
            assert(limbs@ =~= Seq::<u64>::empty());
            assert(value(Seq::<u64>::empty()) == 0);
            assert(carry as nat * weight(0) == 0) by (nonlinear_arith)
                requires
                    carry == 0,
            ;
        }
        while i < n
            invariant
                i <= n,
                n == a.limbs@.len(),
                n == b.limbs@.len(),
                limbs@.len() == i,
                carry <= 1,
                value(limbs@) + carry as nat * weight(i as nat) == value(a.limbs@.take(i as int))
                    + value(b.limbs@.take(i as int)),
            decreases n - i,
        {
            let x: u64 = a.limbs[i];
            let y: u64 = b.limbs[i];
            let t: u128 = x as u128 + y as u128 + carry as u128;
            let low: u64 = (t % BASE) as u64;
            let high: u64 = (t / BASE) as u64;
            proof {
                let w = weight(i as nat);
                let done = value(limbs@);
                let low_a = value(a.limbs@.take(i as int));
                let low_b = value(b.limbs@.take(i as int));
                lemma_value_push(limbs@, low);
                lemma_value_push(a.limbs@.take(i as int), x);
                lemma_value_push(b.limbs@.take(i as int), y);
                assert(a.limbs@.take(i + 1) =~= a.limbs@.take(i as int).push(x));
                assert(b.limbs@.take(i + 1) =~= b.limbs@.take(i as int).push(y));
                assert(weight((i + 1) as nat) == BASE as nat * w);
                assert(done + low as nat * w + high as nat * (BASE as nat * w) == low_a + x as nat
                    * w + low_b + y as nat * w) by (nonlinear_arith)
                    requires
                        done + carry as nat * w == low_a + low_b,
                        x as nat + y as nat + carry as nat == low as nat + high as nat
                            * BASE as nat,
                ;
            }
            limbs.push(low);
            carry = high;
            i += 1;
        }
        proof {
            lemma_value_push(limbs@, carry);
            assert(a.limbs@.take(n as int) =~= a.limbs@);
            assert(b.limbs@.take(n as int) =~= b.limbs@);
        }
        limbs.push(carry);
        Wide { limbs }
    }

    /// The difference from `other`, which is not the larger.
    pub fn minus(&self, other: &Wide) -> (r: Wide)
        requires
            other@ <= self@,
        ensures
            r@ == self@ - other@,
    {
        let a = self.extended(other.limbs.len());
        let b = other.extended(self.limbs.len());
        let n = a.limbs.len();
        assert(b.limbs@.len() == n);
        let mut limbs: Vec<u64> = Vec::new();
        let mut borrow: u64 = 0;
        let mut i: usize = 0;
        proof {
            assert(a.limbs@.take(0) =~= Seq::<u64>::empty());
            assert(b.limbs@.take(0) =~= Seq::<u64>::empty());
            assert(limbs@ =~= Seq::<u64>::empty());
            assert(value(Seq::<u64>::empty()) == 0);
            assert(borrow as nat * weight(0) == 0) by (nonlinear_arith)
                requires
                    borrow == 0,
            ;
        }
        while i < n
            invariant
                i <= n,
                n == a.limbs@.len(),
                n == b.limbs@.len(),
                limbs@.len() == i,
                borrow <= 1,
                value(limbs@) - borrow as nat * weight(i as nat) == value(
                    a.limbs@.take(i as int),
                ) - value(b.limbs@.take(i as int)),
            decreases n - i,
        {
            let x: u64 = a.limbs[i];
            let y: u64 = b.limbs[i];
            let t: u128 = BASE + x as u128 - y as u128 - borrow as u128;
            let low: u64 = (t % BASE) as u64;
            let next: u64 = 1 - (t / BASE) as u64;
            proof {
                let w = weight(i as nat);
                let done = value(limbs@);
                let low_a = value(a.limbs@.take(i as int));
                let low_b = value(b.limbs@.take(i as int));
                lemma_value_push(limbs@, low);
                lemma_value_push(a.limbs@.take(i as int), x);
                lemma_value_push(b.limbs@.take(i as int), y);
                assert(a.limbs@.take(i + 1) =~= a.limbs@.take(i as int).push(x));
                assert(b.limbs@.take(i + 1) =~= b.limbs@.take(i as int).push(y));
                assert(weight((i + 1) as nat) == BASE as nat * w);
                assert(done + low as nat * w - next as nat * (BASE as nat * w) == low_a + x as nat
                    * w - (low_b + y as nat * w)) by (nonlinear_arith)
                    requires
                        done - borrow as nat * w == low_a - low_b,
                        x as int - y as int - borrow as int == low as int - next as int
                            * BASE as int,
                ;
            }
            limbs.push(low);
            borrow = next;
            i += 1;
        }
        proof {
            assert(a.limbs@.take(n as int) =~= a.limbs@);
            assert(b.limbs@.take(n as int) =~= b.limbs@);
            lemma_value_bound(limbs@);
            assert(borrow as nat * weight(n as nat) == if borrow == 0 {
                0
            } else {
                weight(n as nat)
            }) by (nonlinear_arith)
                requires
                    borrow <= 1,
            ;
        }
        Wide { limbs }
    }

    /// The quotient of this number by `divisor`, held to at most `LIMIT`.
    pub fn capped_quotient(&self, divisor: &Wide) -> (q: u64)
        requires
            divisor@ > 0,
        ensures
            q == capped_quotient(self@, divisor@),
    {
        let ghost n = self@;
        let ghost d = divisor@;
        if divisor.times(LIMIT as u64).le(self) {
            assert(n / d >= LIMIT) by (nonlinear_arith)
                requires
                    d * LIMIT <= n,
                    d > 0,
            ;
            return LIMIT as u64;
        }
        let mut lo: u64 = 0;
        let mut hi: u64 = LIMIT as u64;
        assert(d * 0 == 0) by (nonlinear_arith);
        while hi - lo > 1
            invariant
                lo < hi <= LIMIT,
                n == self@,
                d == divisor@,
                d > 0,
                d * lo <= n < d * hi,
            decreases hi - lo,
        {
            let mid: u64 = lo + (hi - lo) / 2;
            if divisor.times(mid).le(self) {
                lo = mid;
            } else {
                hi = mid;
            }
        }
        proof {
            let r = n - d * lo;
            assert(d * hi == d * lo + d) by (nonlinear_arith)
                requires
                    hi == lo + 1,
            ;
            assert(n == lo * d + r) by (nonlinear_arith)
                requires
                    r == n - d * lo,
            ;
            vstd::arithmetic::div_mod::lemma_fundamental_div_mod_converse_div(
                n as int,
                d as int,
                lo as int,
                r as int,
            );
        }
        lo
    }
}

/// An integer of any size.
pub struct Signed {
    negative: bool,
    size: Wide,
}

impl View for Signed {
    type V = int;

    closed spec fn view(&self) -> int {
        if self.negative {
            -(self.size@ as int)
        } else {
            self.size@ as int
        }
    }
}

/// The absolute value of `v`.
fn size_of(v: i128) -> (m: u128)
    ensures
        m == magnitude(v as int),
{
    if v < 0 {
        (-(v + 1)) as u128 + 1
    } else {
        v as u128
    }
}

impl Signed {
    /// The number `v`.
    pub fn from_i128(v: i128) -> (r: Signed)
        ensures
            r@ == v,
    {
        Signed { negative: v < 0, size: Wide::from_u128(size_of(v)) }
    }

    /// The product with `factor`.
    pub fn times(&self, factor: i64) -> (r: Signed)
        ensures
            r@ == self@ * factor,
    {
        let size = self.size.times(size_of(factor as i128) as u64);
        proof {
            let m = self.size@ as int;
            let f = factor as int;
            assert(m * magnitude(f) == if f < 0 {
                -(m * f)
            } else {
                m * f
            }) by (nonlinear_arith);
            assert((-m) * f == -(m * f)) by (nonlinear_arith);
        }
        Signed { negative: self.negative != (factor < 0), size }
    }

    /// The product with `factor`, a factor of two limbs.
    pub fn times_wide(&self, factor: i128) -> (r: Signed)
        ensures
            r@ == self@ * factor,
    {
        let size: u128 = size_of(factor);
        let low: u64 = (size % BASE) as u64;
        let high: u64 = (size / BASE) as u64;
        let shifted = self.size.times(high).shifted();
        let product_size = shifted.plus(&self.size.times(low));
        proof {
            let m = self.size@ as int;
            let f = factor as int;
            assert(m * high * BASE + m * low == m * magnitude(f)) by (nonlinear_arith)
                requires
                    magnitude(f) == low + high * BASE,
            ;
            assert(m * magnitude(f) == if f < 0 {
                -(m * f)
            } else {
                m * f
            }) by (nonlinear_arith);
            assert((-m) * f == -(m * f)) by (nonlinear_arith);
        }
        Signed { negative: self.negative != (factor < 0), size: product_size }
    }

    /// The sum with `other`.
    pub fn plus(&self, other: &Signed) -> (r: Signed)
        ensures
            r@ == self@ + other@,
    {
        if self.negative == other.negative {
            Signed { negative: self.negative, size: self.size.plus(&other.size) }
        } else if other.size.le(&self.size) {
            Signed { negative: self.negative, size: self.size.minus(&other.size) }
        } else {
            Signed { negative: other.negative, size: other.size.minus(&self.size) }
        }
    }

    /// The quotient by `divisor`, rounded toward zero and saturated, in raw
    /// units.
    pub fn saturated_quotient(&self, divisor: &Signed) -> (q: i64)
        requires
            divisor@ != 0,
        ensures
            q == saturate(quotient(self@, divisor@)),
    {
        let size: u64 = self.size.capped_quotient(&divisor.size);
        proof {
            assert(magnitude(self@) == self.size@);
            assert(magnitude(divisor@) == divisor.size@);
            if self.size@ == 0 {
                assert(0int / magnitude(divisor@) == 0) by (nonlinear_arith)
                    requires
                        magnitude(divisor@) > 0,
                ;
            }
            assert(self.size@ / divisor.size@ >= 0) by (nonlinear_arith)
                requires
                    self.size@ >= 0,
                    divisor.size@ > 0,
            ;
        }
        if self.negative != divisor.negative {
            -(size as i64)
        } else {
            size as i64
        }
    }
}

} // verus!
