//! Integer square and cube roots on `u128`.
use vstd::arithmetic::power2::{lemma2_to64, lemma2_to64_rest, lemma_pow2_adds, lemma_pow2_unfold, pow2};
use vstd::prelude::*;

verus! {

/// `r` is the greatest integer whose square does not exceed `n`.
pub open spec fn is_floor_sqrt(n: int, r: int) -> bool {
    0 <= r && r * r <= n && n < (r + 1) * (r + 1)
}

/// `r` is the greatest integer whose cube does not exceed `n`.
pub open spec fn is_floor_cbrt(n: int, r: int) -> bool {
    0 <= r && r * r * r <= n && n < (r + 1) * (r + 1) * (r + 1)
}

/// The integer square root of `n`.
pub open spec fn floor_sqrt(n: int) -> int {
    choose|r: int| is_floor_sqrt(n, r)
}

/// The integer cube root of `n`.
pub open spec fn floor_cbrt(n: int) -> int {
    choose|r: int| is_floor_cbrt(n, r)
}

pub open spec fn square(k: int) -> int {
    k * k
}

pub open spec fn cube(k: int) -> int {
    k * k * k
}

/// Squares grow with their base.
pub proof fn lemma_square_le(a: int, b: int)
    requires
        0 <= a <= b,
    ensures
        a * a <= b * b,
{
    assert(a * a <= b * b) by (nonlinear_arith)
        requires
            0 <= a <= b,
    ;
}

/// Cubes grow with their base.
pub proof fn lemma_cube_le(a: int, b: int)
    requires
        0 <= a <= b,
    ensures
        a * a * a <= b * b * b,
{
    assert(a * a * a <= b * b * b) by (nonlinear_arith)
        requires
            0 <= a <= b,
    ;
}

/// The floor square root is unique.
pub proof fn lemma_floor_sqrt_unique(n: int, r: int)
    requires
        is_floor_sqrt(n, r),
    ensures
        floor_sqrt(n) == r,
{
    let s = floor_sqrt(n);
    assert(is_floor_sqrt(n, s));
    if s < r {
        lemma_square_le(s + 1, r);
    } else if r < s {
        lemma_square_le(r + 1, s);
    }
}

/// The floor cube root is unique.
pub proof fn lemma_floor_cbrt_unique(n: int, r: int)
    requires
        is_floor_cbrt(n, r),
    ensures
        floor_cbrt(n) == r,
{
    let s = floor_cbrt(n);
    assert(is_floor_cbrt(n, s));
    if s < r {
        lemma_cube_le(s + 1, r);
    } else if r < s {
        lemma_cube_le(r + 1, s);
    }
}

/// One Newton step for the square root never falls below a root candidate `k`.
proof fn lemma_sqrt_step_bound(n: int, x: int, k: int)
    requires
        x >= 1,
        k >= 0,
        k * k <= n,
    ensures
        (x + n / x) / 2 >= k,
{
    let q = n / x;
    let m = n % x;
    assert(n == x * q + m && 0 <= m < x) by {
        vstd::arithmetic::div_mod::lemma_fundamental_div_mod(n, x);
    }
    assert(x * x + k * k >= 2 * x * k) by (nonlinear_arith);
    assert(x * (x + q) + m >= 2 * x * k) by (nonlinear_arith)
        requires
            x * x + k * k >= 2 * x * k,
            k * k <= n,
            n == x * q + m,
    ;
    assert(x + q >= 2 * k) by (nonlinear_arith)
        requires
            x * (x + q) + m >= 2 * x * k,
            0 <= m < x,
            x >= 1,
    ;
}

/// One Newton step for the cube root never falls below a root candidate `k`.
proof fn lemma_cbrt_step_bound(n: int, x: int, k: int)
    requires
        x >= 1,
        k >= 0,
        k * k * k <= n,
    ensures
        (n / (x * x) + 2 * x) / 3 >= k,
{
    let d = x * x;
    assert(d >= 1) by (nonlinear_arith)
        requires
            x >= 1,
            d == x * x,
    ;
    let q = n / d;
    let m = n % d;
    assert(n == d * q + m && 0 <= m < d) by {
        vstd::arithmetic::div_mod::lemma_fundamental_div_mod(n, d);
    }
    assert(2 * x * x * x + k * k * k >= 3 * k * x * x) by (nonlinear_arith)
        requires
            x >= 1,
            k >= 0,
    {
        assert(2 * x * x * x + k * k * k - 3 * k * x * x == (x - k) * (x - k) * (2 * x + k))
            by (nonlinear_arith);
        assert((x - k) * (x - k) * (2 * x + k) >= 0) by (nonlinear_arith)
            requires
                x >= 1,
                k >= 0,
        ;
    }
    assert(d * (2 * x + q) + m >= 3 * k * d) by (nonlinear_arith)
        requires
            2 * x * x * x + k * k * k >= 3 * k * x * x,
            k * k * k <= n,
            n == d * q + m,
            d == x * x,
    ;
    assert(2 * x + q >= 3 * k) by (nonlinear_arith)
        requires
            d * (2 * x + q) + m >= 3 * k * d,
            0 <= m < d,
            d >= 1,
    ;
}

/// Square and cube roots, rounded down.
pub trait Roots: Sized {
    fn sqrt(self) -> Self;

    fn cbrt(self) -> Self;
}

impl Roots for u128 {
    /// Babylonian iteration seeded from the bit length of `self`.
    fn sqrt(self) -> (r: u128)
        ensures
            is_floor_sqrt(self as int, r as int),
            r as int == floor_sqrt(self as int),
    {
        let n = self;
        if n < 2 {
            assert(is_floor_sqrt(n as int, n as int)) by (nonlinear_arith)
                requires
                    n < 2,
            ;
            proof {
                lemma_floor_sqrt_unique(n as int, n as int);
            }
            return n;
        }
        proof {
            lemma2_to64();
            lemma_pow2_adds(64, 64);
        }
        // Bit length of n.
        let mut len: u32 = 0;
        let mut m: u128 = n;
        while m > 0
            invariant
                n >= 2,
                len <= 128,
                pow2(128) == 0x1_0000_0000_0000_0000_0000_0000_0000_0000,
                m * pow2(len as nat) <= n,
                n < (m + 1) * pow2(len as nat),
            decreases m,
        {
            let ghost old_m = m;
            proof {
                lemma_pow2_unfold((len + 1) as nat);
                assert(pow2(len as nat) <= n) by (nonlinear_arith)
                    requires
                        m >= 1,
                        m * pow2(len as nat) <= n,
                ;
                if len >= 128 {
                    vstd::arithmetic::power2::lemma_pow2_strictly_increases(128, len as nat);
                    assert(false);
                }
            }
            m = m / 2;
            len = len + 1;
            proof {
                assert(m * pow2(len as nat) <= n && n < (m + 1) * pow2(len as nat))
                    by (nonlinear_arith)
                    requires
                        old_m * pow2((len - 1) as nat) <= n,
                        n < (old_m + 1) * pow2((len - 1) as nat),
                        pow2(len as nat) == 2 * pow2((len - 1) as nat),
                        m == old_m / 2,
                ;
            }
        }
        // n < 2^len, so the root is below 2^bits.
        let bits: u32 = (len + 1) / 2;
        proof {
            lemma2_to64();
            assert(m == 0);
            assert(n < pow2(len as nat)) by (nonlinear_arith)
                requires
                    n < (m + 1) * pow2(len as nat),
                    m == 0,
            ;
            if len < 2 {
                assert(false);
            }
        }
        let mut start: u128 = 1;
        let mut i: u32 = 0;
        while i < bits - 1
            invariant
                1 <= bits <= 64,
                i <= bits - 1,
                start as nat == pow2(i as nat),
                pow2(64) == 0x1_0000_0000_0000_0000,
                n >= 2,
                n < pow2(len as nat),
                bits == (len + 1) / 2,
            decreases bits - i,
        {
            proof {
                lemma_pow2_unfold((i + 1) as nat);
                vstd::arithmetic::power2::lemma_pow2_strictly_increases((i + 1) as nat, 64);
            }
            start = start * 2;
            i = i + 1;
        }
        proof {
            lemma2_to64();
            lemma2_to64_rest();
            if i < 63 {
                vstd::arithmetic::power2::lemma_pow2_strictly_increases(i as nat, 63);
            }
        }
        let mut end: u128 = start * 4;
        proof {
            lemma_pow2_unfold(bits as nat);
            lemma_pow2_unfold((bits + 1) as nat);
            // pow2(len) <= pow2(2 * bits)
            lemma_pow2_adds(bits as nat, bits as nat);
            if len < 2 * bits {
                vstd::arithmetic::power2::lemma_pow2_strictly_increases(len as nat, (2 * bits) as nat);
            }
            assert forall|k: int| 0 <= k && #[trigger] square(k) <= n implies k <= (start + end) / 2 by {
                let p = pow2(bits as nat) as int;
                assert(p == 2 * start);
                assert(n < p * p);
                if k > p {
                    lemma_square_le(p, k);
                }
            }
        }
        while start < end
            invariant
                n == self,
                n >= 2,
                1 <= end <= 0x4_0000_0000_0000_0000,
                start < end || start == n / end,
                forall|k: int| 0 <= k && #[trigger] square(k) <= n ==> k <= end,
                forall|k: int| 0 <= k && #[trigger] square(k) <= n ==> k <= (start + end) / 2,
            decreases end,
        {
            end = (start + end) / 2;
            assert(square(1) <= n);
            start = n / end;
            proof {
                assert(end >= 1);
                assert forall|k: int| 0 <= k && #[trigger] square(k) <= n implies k <= (start + end)
                    / 2 by {
                    lemma_sqrt_step_bound(n as int, end as int, k);
                }
                vstd::arithmetic::div_mod::lemma_div_is_ordered_by_denominator(n as int, 1, end as int);
            }
        }
        proof {
            assert(end * end <= n) by (nonlinear_arith)
                requires
                    end >= 1,
                    start >= end,
                    start == n / end,
            {
                vstd::arithmetic::div_mod::lemma_fundamental_div_mod(n as int, end as int);
            }
            if square(end + 1) <= n {
                assert(end + 1 <= (start + end) / 2);
            }
            lemma_floor_sqrt_unique(n as int, end as int);
        }
        end
    }

    /// Newton iteration seeded from the square root; it stops as soon as a
    /// step no longer lowers the estimate, which is then the root (the
    /// iterates may otherwise alternate between the root and the next
    /// integer, as they do for 120).
    fn cbrt(self) -> (r: u128)
        ensures
            is_floor_cbrt(self as int, r as int),
            r as int == floor_cbrt(self as int),
    {
        let n = self;
        if n < 27 {
            let r: u128 = if n < 1 {
                0
            } else if n < 8 {
                1
            } else {
                2
            };
            assert(is_floor_cbrt(n as int, r as int));
            proof {
                lemma_floor_cbrt_unique(n as int, r as int);
            }
            return r;
        }
        let mut end = n.sqrt();
        proof {
            assert forall|k: int| 0 <= k && #[trigger] cube(k) <= n implies k <= end by {
                if k > end {
                    assert(k * k <= k * k * k) by (nonlinear_arith)
                        requires
                            k >= 1,
                    ;
                    lemma_square_le(end + 1, k);
                }
            }
            assert(cube(3) <= n);
            assert(end < 0x1_0000_0000_0000_0000) by {
                if end >= 0x1_0000_0000_0000_0000 {
                    lemma_square_le(0x1_0000_0000_0000_0000, end as int);
                }
            }
        }
        loop
            invariant
                n == self,
                n >= 27,
                3 <= end < 0x1_0000_0000_0000_0000,
                forall|k: int| 0 <= k && #[trigger] cube(k) <= n ==> k <= end,
            decreases end,
        {
            proof {
                lemma_square_le(end as int, 0x1_0000_0000_0000_0000 - 1);
                assert(end * end >= 9) by (nonlinear_arith)
                    requires
                        end >= 3,
                ;
                vstd::arithmetic::div_mod::lemma_div_is_ordered_by_denominator(
                    n as int,
                    9,
                    (end * end) as int,
                );
            }
            let next = (n / (end * end) + 2 * end) / 3;
            proof {
                assert forall|k: int| 0 <= k && #[trigger] cube(k) <= n implies k <= next by {
                    lemma_cbrt_step_bound(n as int, end as int, k);
                }
            }
            if next < end {
                assert(cube(3) <= n);
                end = next;
            } else {
                proof {
                    let d = (end * end) as int;
                    let q = n as int / d;
                    vstd::arithmetic::div_mod::lemma_fundamental_div_mod(n as int, d);
                    assert(next == (q + 2 * end) / 3);
                    if end * end * end > n {
                        assert(d * end > n);
                        assert(q < end) by (nonlinear_arith)
                            requires
                                d * end > n,
                                n == d * q + n as int % d,
                                n as int % d >= 0,
                                d >= 1,
                        ;
                        assert(false);
                    }
                    assert(end * end * end <= n);
                    if cube(end + 1) <= n {
                        assert(end + 1 <= end);
                    }
                    assert(is_floor_cbrt(n as int, end as int));
                    lemma_floor_cbrt_unique(n as int, end as int);
                }
                return end;
            }
        }
    }
}

} // verus!
