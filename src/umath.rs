//! Unsigned fixed-point numbers with nine decimals: `i + f / 10^9`.
use crate::math::{floor_sqrt, is_floor_sqrt, lemma_floor_sqrt_unique, square};
use vstd::prelude::*;

verus! {

/// Scale of the fractional part.
pub const PRECISION: u64 = 1000000000;

/// Scale of the square root's argument.
pub const DOUBLE_PRECISION: u64 = 1000000000000000000;

/// An integer part `i` and a fractional part `f`, in units of `10^-9`.
#[derive(Clone, Copy, Debug, PartialEq, Eq, Structural)]
pub struct UMath {
    pub i: u64,
    pub f: u64,
}

impl UMath {
    /// The number in units of `10^-9`.
    pub open spec fn value(&self) -> int {
        self.i * PRECISION + self.f
    }

    pub open spec fn well_formed(&self) -> bool {
        self.f <= PRECISION
    }

    /// The well-formed number whose value is `v`, with `f < PRECISION`, if
    /// its integer part fits.
    pub open spec fn of_value(v: int) -> Option<UMath> {
        if 0 <= v && v / PRECISION as int <= u64::MAX {
            Some(UMath { i: (v / PRECISION as int) as u64, f: (v % PRECISION as int) as u64 })
        } else {
            None
        }
    }

    /// A number from its parts; the fractional part may not exceed one.
    pub fn new(i: u64, f: u64) -> (r: Option<UMath>)
        ensures
            r == (if f > PRECISION {
                None
            } else {
                Some(UMath { i, f })
            }),
    {
        if f > PRECISION {
            return None;
        }
        Some(UMath { i, f })
    }

    /// The number of value `v`, carrying whole units out of the fraction.
    fn from_value(v: u128) -> (r: Option<UMath>)
        ensures
            r == Self::of_value(v as int),
    {
        let i = v / (PRECISION as u128);
        let f = (v % (PRECISION as u128)) as u64;
        if i > u64::MAX as u128 {
            return None;
        }
        Some(UMath { i: i as u64, f })
    }

    fn to_value(&self) -> (r: u128)
        ensures
            r == self.value(),
    {
        assert(self.i * 1000000000 + self.f <= u128::MAX) by (nonlinear_arith)
            requires
                self.i <= u64::MAX,
                self.f <= u64::MAX,
        ;
        (self.i as u128) * (PRECISION as u128) + (self.f as u128)
    }

    /// The exact sum.
    pub fn add(&self, n: &UMath) -> (r: Option<UMath>)
        ensures
            r == Self::of_value(self.value() + n.value()),
    {
        let a = self.to_value();
        let b = n.to_value();
        proof {
            assert(a + b <= u128::MAX) by (nonlinear_arith)
                requires
                    a <= u64::MAX * 1000000000 + u64::MAX,
                    b <= u64::MAX * 1000000000 + u64::MAX,
            ;
        }
        Self::from_value(a + b)
    }

    /// The difference, when `self` has the larger integer part or both
    /// numbers are equal; `None` otherwise, including when the integer parts
    /// are equal and the fractions differ.
    pub fn sub(&self, n: &UMath) -> (r: Option<UMath>)
        requires
            self.well_formed(),
            n.well_formed(),
        ensures
            r is Some <==> self.i > n.i || self == n,
            r matches Some(x) ==> x.well_formed() && x.value() == self.value() - n.value(),
            r matches Some(x) ==> (self.f < PRECISION ==> x.f < PRECISION),
    {
        if self.i < n.i {
            return None;
        }
        if self.i == n.i && self.f > n.f {
            return None;
        }
        if self.f < n.f {
            if self.i - n.i < 1 {
                return None;
            }
            let i = self.i - n.i - 1;
            let f = self.f + PRECISION - n.f;
            assert(i * PRECISION + f == self.value() - n.value()) by (nonlinear_arith)
                requires
                    i == self.i - n.i - 1,
                    f == self.f + PRECISION - n.f,
            ;
            return Self::new(i, f);
        }
        let i = self.i - n.i;
        let f = self.f - n.f;
        assert(i * PRECISION + f == self.value() - n.value()) by (nonlinear_arith)
            requires
                i == self.i - n.i,
                f == self.f - n.f,
        ;
        Self::new(i, f)
    }

    /// The product, rounded down to nine decimals.
    pub fn mul(&self, n: &UMath) -> (r: Option<UMath>)
        ensures
            r == Self::of_value(self.value() * n.value() / PRECISION as int),
    {
        let a = self.to_value();
        let b = n.to_value();
        let p = PRECISION as u128;
        // a * b / p without the 256-bit product: a = q p + m.
        let q = a / p;
        let m = a % p;
        let ghost x: int = a * b / (p as int);
        assert(m * b <= u128::MAX) by (nonlinear_arith)
            requires
                m < 1000000000,
                b <= u64::MAX * 1000000000 + u64::MAX,
        ;
        let t = m * b / p;
        proof {
            vstd::arithmetic::div_mod::lemma_fundamental_div_mod(a as int, p as int);
            vstd::arithmetic::div_mod::lemma_fundamental_div_mod((m * b) as int, p as int);
            let s = (m * b) as int % (p as int);
            assert(a * b == (q * b + t) * p + s) by (nonlinear_arith)
                requires
                    a == p * q + m,
                    m * b == p * t + s,
            ;
            vstd::arithmetic::div_mod::lemma_fundamental_div_mod_converse(
                a * b,
                p as int,
                q * b + t,
                s,
            );
            assert(Self::of_value(x) is None <== x > u128::MAX) by {
                if x > u128::MAX {
                    vstd::arithmetic::div_mod::lemma_div_is_ordered(u128::MAX as int, x, p as int);
                    assert(u128::MAX as int / 1000000000 > u64::MAX) by (nonlinear_arith);
                }
            }
        }
        let hi = match q.checked_mul(b) {
            Some(v) => v,
            None => return None,
        };
        let v = match hi.checked_add(t) {
            Some(v) => v,
            None => return None,
        };
        Self::from_value(v)
    }

    /// The square.
    pub fn sqr(&self) -> (r: Option<UMath>)
        ensures
            r == Self::of_value(self.value() * self.value() / PRECISION as int),
    {
        self.mul(&self)
    }

    /// The quotient, rounded down to nine decimals; `None` on a zero divisor.
    pub fn div(&self, n: &UMath) -> (r: Option<UMath>)
        ensures
            r == (if n.value() == 0 {
                None
            } else {
                Self::of_value(self.value() * PRECISION / n.value())
            }),
    {
        let a = self.to_value();
        let b = n.to_value();
        if b == 0 {
            return None;
        }
        let p = PRECISION as u128;
        let q = a / b;
        let rem = a % b;
        proof {
            vstd::arithmetic::div_mod::lemma_fundamental_div_mod(a as int, b as int);
            assert(rem * p <= u128::MAX) by (nonlinear_arith)
                requires
                    rem < b,
                    b <= u64::MAX * 1000000000 + u64::MAX,
                    p == 1000000000,
            ;
        }
        let frac = rem * p / b;
        proof {
            vstd::arithmetic::div_mod::lemma_fundamental_div_mod((rem * p) as int, b as int);
            let s = (rem * p) as int % (b as int);
            assert(frac < p) by (nonlinear_arith)
                requires
                    rem * p == b * frac + s,
                    0 <= s,
                    rem < b,
                    b > 0,
                    p > 0,
                    frac >= 0,
            {
                assert(b * frac < b * p);
            }
            assert(a * p == (q * p + frac) * b + s) by (nonlinear_arith)
                requires
                    a == b * q + rem,
                    rem * p == b * frac + s,
            ;
            vstd::arithmetic::div_mod::lemma_fundamental_div_mod_converse(
                a * p,
                b as int,
                q * p + frac,
                s,
            );
            vstd::arithmetic::div_mod::lemma_fundamental_div_mod_converse(
                q * p + frac,
                p as int,
                q as int,
                frac as int,
            );
        }
        if q > u64::MAX as u128 {
            return None;
        }
        Some(UMath { i: q as u64, f: frac as u64 })
    }

    /// The square root of `i * 10^18 + f`, split into integer and
    /// fractional parts: exact as a root of the value only when `f == 0`,
    /// since the fraction enters unscaled.
    pub fn sqrt(&self) -> (r: Option<UMath>)
        ensures
            r == Self::of_value(floor_sqrt(self.i * DOUBLE_PRECISION + self.f)),
    {
        assert(self.i * 1000000000000000000 + self.f <= u128::MAX) by (nonlinear_arith)
            requires
                self.i <= u64::MAX,
                self.f <= u64::MAX,
        ;
        let big_self = (self.i as u128) * (DOUBLE_PRECISION as u128) + (self.f as u128);
        assert(big_self == self.i * DOUBLE_PRECISION + self.f);
        let root = match Self::_sqrt(&big_self) {
            Some(v) => v,
            None => return None,
        };
        Self::from_value(root)
    }

    /// Integer square root by bisection.
    fn _sqrt(value: &u128) -> (r: Option<u128>)
        ensures
            r == Some(floor_sqrt(*value as int) as u128),
            0 <= floor_sqrt(*value as int) <= u128::MAX,
    {
        let n = *value;
        let mut start: u128 = 0;
        let mut end: u128 = n;
        let mut sqrt_n: u128 = 0;
        proof {
            assert forall|k: int| 0 <= k && #[trigger] square(k) <= n implies k <= end by {
                if k > n {
                    assert(k * k > n) by (nonlinear_arith)
                        requires
                            k > n,
                            n >= 0,
                    ;
                }
            }
        }
        while start <= end
            invariant
                n == *value,
                start == 0 ==> sqrt_n == 0,
                start > 0 ==> sqrt_n == start - 1,
                sqrt_n * sqrt_n <= n,
                end <= n,
                start <= n + 1,
                forall|k: int| 0 <= k && #[trigger] square(k) <= n ==> k <= end,
            decreases end + 1 - start,
        {
            let mid = start + (end - start) / 2;
            let sq = mid.checked_mul(mid);
            match sq {
                None => {
                    proof {
                        assert forall|k: int| 0 <= k && #[trigger] square(k) <= n implies k <= mid
                            - 1 by {
                            if k >= mid {
                                crate::math::lemma_square_le(mid as int, k);
                            }
                        }
                    }
                    if mid == 0 {
                        return None;
                    }
                    end = mid - 1;
                },
                Some(m2) => {
                    if m2 == n {
                        proof {
                            assert(mid * mid < (mid + 1) * (mid + 1)) by (nonlinear_arith)
                                requires
                                    mid >= 0,
                            ;
                            assert(is_floor_sqrt(n as int, mid as int));
                            lemma_floor_sqrt_unique(n as int, mid as int);
                        }
                        return Some(mid);
                    }
                    if m2 < n {
                        assert(mid < u128::MAX) by (nonlinear_arith)
                            requires
                                mid * mid <= u128::MAX,
                        ;
                        start = mid + 1;
                        sqrt_n = mid;
                    } else {
                        proof {
                            assert forall|k: int| 0 <= k && #[trigger] square(k) <= n implies k
                                <= mid - 1 by {
                                if k >= mid {
                                    crate::math::lemma_square_le(mid as int, k);
                                }
                            }
                        }
                        if mid == 0 {
                            return None;
                        }
                        end = mid - 1;
                    }
                },
            }
        }
        proof {
            if square(sqrt_n + 1) <= n {
                assert(sqrt_n + 1 <= end);
            }
            assert(is_floor_sqrt(n as int, sqrt_n as int));
            lemma_floor_sqrt_unique(n as int, sqrt_n as int);
        }
        Some(sqrt_n)
    }
}

} // verus!
