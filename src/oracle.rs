//! The pricing engine: the constant-product curve, its fee split, and the
//! rake that turns an arbitrary three-asset deposit into LP shares.
use crate::math::{floor_cbrt, floor_sqrt, Roots};
use vstd::prelude::*;

verus! {

/// Scale of the fixed-point values inside the rake.
pub const TRIPLE_PRECISION: u128 = 1000000000000000000;

/// Swap fee kept in the pool, over `DECIMALS` (0.25%).
pub const FEE: u64 = 2500000;

/// Share of a swap taken as earning for the vault, over `DECIMALS` (0.05%).
pub const EARNING: u64 = 500000;

/// Denominator of the fee fractions.
pub const DECIMALS: u64 = 1000000000;

pub open spec fn fits_u64(x: int) -> bool {
    0 <= x <= u64::MAX
}

pub open spec fn fits_u128(x: int) -> bool {
    0 <= x <= u128::MAX
}

/// The ask reserve that keeps `new_bid * new_ask` at `bid * ask`, rounded down.
pub open spec fn curve_spec(new_bid: u64, bid: u64, ask: u64) -> Option<u64> {
    if new_bid == 0 || bid == 0 || ask == 0 {
        None
    } else {
        let q = (bid * ask) / (new_bid as int);
        if q == 0 || !fits_u64(q) {
            None
        } else {
            Some(q as u64)
        }
    }
}

/// The fee kept in the pool out of a gross output.
pub open spec fn fee_of(gross: int) -> int {
    gross * FEE / DECIMALS as int
}

/// The earning taken out of a gross output; none on an exempt swap.
pub open spec fn earning_of(gross: int, exempt: bool) -> int {
    if exempt {
        0
    } else {
        gross * EARNING / DECIMALS as int
    }
}

/// What the trader receives out of a gross output.
pub open spec fn paid_of(gross: int, exempt: bool) -> int {
    gross - fee_of(gross) - earning_of(gross, exempt)
}

/// The curve with fees: `(new_ask, paid, earning)`.
pub open spec fn curve_in_fee_spec(new_bid: u64, bid: u64, ask: u64, exempt: bool) -> Option<
    (u64, u64, u64),
> {
    match curve_spec(new_bid, bid, ask) {
        None => None,
        Some(raw) => {
            if raw > ask {
                None
            } else {
                let gross = ask - raw;
                Some(
                    (
                        (raw + fee_of(gross)) as u64,
                        paid_of(gross, exempt) as u64,
                        earning_of(gross, exempt) as u64,
                    ),
                )
            }
        },
    }
}

/// The split `(sx, sy, sz)` of a single-asset deposit `delta` into asset X.
pub open spec fn rake_split(delta: u64, rx: u64, ry: u64, rz: u64) -> Option<(u64, u64, u64)> {
    if rx == 0 || ry == 0 || rz == 0 {
        None
    } else if delta == 0 {
        Some((0, 0, 0))
    } else {
        let p = TRIPLE_PRECISION as int;
        let u = floor_cbrt((delta + rx) * p);
        let v = floor_cbrt(rx * p);
        let z = u * u * v / p - rx;
        let w = (z + rx) * rx;
        let x = floor_sqrt(w) - rx;
        let y = z - x;
        if z < 0 || !fits_u128(w) || x < 0 || y < 0 || z > delta || !fits_u128(rz * y) {
            None
        } else {
            Some(((delta - z) as u64, (ry * x / (rx + x)) as u64, (rz * y / (rx + z)) as u64))
        }
    }
}

/// LP minted for `s` of S when the S reserve is `reserve` and the supply `supply`.
pub open spec fn lp_share(s: int, supply: int, reserve: int) -> Option<u64> {
    if !fits_u64(supply) || s >= reserve {
        None
    } else {
        let l = s * supply / (reserve - s);
        if fits_u64(l) {
            Some(l as u64)
        } else {
            None
        }
    }
}

/// The rake: `(lpt, rs', ra', rb')` for a deposit of `(ds, da, db)`.
pub open spec fn rake_spec(
    ds: u64,
    da: u64,
    db: u64,
    rs: u64,
    ra: u64,
    rb: u64,
    rlpt: u64,
) -> Option<(u64, u64, u64, u64)> {
    let rs1 = rs + ds;
    let ra1 = ra + da;
    let rb1 = rb + db;
    if !fits_u64(rs1) || !fits_u64(ra1) || !fits_u64(rb1) {
        None
    } else {
        match (
            rake_split(ds, rs, ra, rb),
            rake_split(da, ra, rb, rs1 as u64),
            rake_split(db, rb, rs1 as u64, ra1 as u64),
        ) {
            (Some(p1), Some(p2), Some(p3)) => match lp_share(p1.0 as int, rlpt as int, rs1) {
                None => None,
                Some(l1) => match lp_share(p2.2 as int, rlpt + l1, rs1) {
                    None => None,
                    Some(l2) => match lp_share(p3.1 as int, rlpt + l1 + l2, rs1) {
                        None => None,
                        Some(l3) => if fits_u64(rlpt + l1 + l2 + l3) {
                            Some(((l1 + l2 + l3) as u64, rs1 as u64, ra1 as u64, rb1 as u64))
                        } else {
                            None
                        },
                    },
                },
            },
            _ => None,
        }
    }
}

/// The output of a swap before fees: what the bare curve releases.
pub open spec fn gross_of(new_bid: u64, bid: u64, ask: u64) -> int {
    ask - curve_spec(new_bid, bid, ask).unwrap()
}

/// A fee-free swap of `amount > 0` keeps the product of the reserves, rounded
/// down: `new_bid * new_ask <= bid * ask < new_bid * (new_ask + 1)`.
pub proof fn lemma_product_conservation(bid: u64, ask: u64, amount: u64)
    requires
        amount > 0,
        bid + amount <= u64::MAX,
        curve_spec((bid + amount) as u64, bid, ask) is Some,
    ensures
        ({
            let new_bid = bid + amount;
            let new_ask = curve_spec((bid + amount) as u64, bid, ask).unwrap();
            new_bid * new_ask <= bid * ask < new_bid * (new_ask + 1)
        }),
{
    let n = bid + amount;
    let p = bid * ask;
    let q = p / n;
    vstd::arithmetic::div_mod::lemma_fundamental_div_mod(p, n);
    assert(n * q <= p < n * (q + 1)) by (nonlinear_arith)
        requires
            p == n * (p / n) + p % n,
            0 <= p % n < n,
            q == p / n,
    ;
}

/// Outside an exempt swap the trader receives less than the gross output,
/// once that output is large enough for the fee to be at least one unit
/// (`gross >= 400`); it never receives more.
pub proof fn lemma_fee_monotone(new_bid: u64, bid: u64, ask: u64)
    requires
        curve_in_fee_spec(new_bid, bid, ask, false) is Some,
    ensures
        curve_in_fee_spec(new_bid, bid, ask, false).unwrap().1 <= gross_of(new_bid, bid, ask),
        gross_of(new_bid, bid, ask) >= 400 ==> curve_in_fee_spec(new_bid, bid, ask, false).unwrap().1
            < gross_of(new_bid, bid, ask),
{
    let g = gross_of(new_bid, bid, ask);
    assert(0 <= fee_of(g) <= g / 400) by (nonlinear_arith)
        requires
            g >= 0,
    ;
    assert(0 <= earning_of(g, false) <= g / 2000) by (nonlinear_arith)
        requires
            g >= 0,
    ;
    if g >= 400 {
        assert(fee_of(g) >= 1) by (nonlinear_arith)
            requires
                g >= 400,
        ;
    }
}

/// Outside an exempt swap, a gross output of at least
/// `DECIMALS / EARNING` (2000) yields a positive earning.
pub proof fn lemma_earning_positive(new_bid: u64, bid: u64, ask: u64)
    requires
        curve_in_fee_spec(new_bid, bid, ask, false) is Some,
        gross_of(new_bid, bid, ask) >= DECIMALS / EARNING,
    ensures
        curve_in_fee_spec(new_bid, bid, ask, false).unwrap().2 > 0,
{
    let g = gross_of(new_bid, bid, ask);
    assert(earning_of(g, false) >= 1) by (nonlinear_arith)
        requires
            g >= 2000,
    ;
}

/// The rake never shrinks the LP supply, and its reserves are the old ones
/// plus the deposit.
pub proof fn lemma_rake_sums(
    ds: u64,
    da: u64,
    db: u64,
    rs: u64,
    ra: u64,
    rb: u64,
    rlpt: u64,
)
    requires
        rake_spec(ds, da, db, rs, ra, rb, rlpt) is Some,
    ensures
        ({
            let (lpt, rs1, ra1, rb1) = rake_spec(ds, da, db, rs, ra, rb, rlpt).unwrap();
            &&& rlpt + lpt <= u64::MAX
            &&& rs1 == rs + ds
            &&& ra1 == ra + da
            &&& rb1 == rb + db
        }),
{
}

pub struct Oracle {}

impl Oracle {
    /// The constant-product curve.
    pub fn curve(new_bid_reserve: u64, bid_reserve: u64, ask_reserve: u64) -> (r: Option<u64>)
        ensures
            r == curve_spec(new_bid_reserve, bid_reserve, ask_reserve),
            r matches Some(new_ask) ==> new_bid_reserve * new_ask <= bid_reserve * ask_reserve
                < new_bid_reserve * (new_ask + 1),
    {
        if new_bid_reserve == 0 || bid_reserve == 0 || ask_reserve == 0 {
            return None;
        }
        proof {
            assert(bid_reserve * ask_reserve <= u64::MAX * u64::MAX) by (nonlinear_arith)
                requires
                    bid_reserve <= u64::MAX,
                    ask_reserve <= u64::MAX,
            ;
        }
        let product = (bid_reserve as u128) * (ask_reserve as u128);
        let q = product / (new_bid_reserve as u128);
        if q == 0 || q > u64::MAX as u128 {
            return None;
        }
        proof {
            let n = new_bid_reserve as int;
            let p = product as int;
            vstd::arithmetic::div_mod::lemma_fundamental_div_mod(p, n);
            assert(n * q <= p < n * (q + 1)) by (nonlinear_arith)
                requires
                    p == n * (p / n) + p % n,
                    0 <= p % n < n,
                    q == p / n,
            ;
        }
        Some(q as u64)
    }

    /// The curve with the swap fee and the earning taken out of the output.
    pub fn curve_in_fee(
        new_bid_reserve: u64,
        bid_reserve: u64,
        ask_reserve: u64,
        is_exempted: bool,
    ) -> (r: Option<(u64, u64, u64)>)
        ensures
            r == curve_in_fee_spec(new_bid_reserve, bid_reserve, ask_reserve, is_exempted),
    {
        let raw = match Self::curve(new_bid_reserve, bid_reserve, ask_reserve) {
            Some(v) => v,
            None => return None,
        };
        if raw > ask_reserve {
            return None;
        }
        let gross = ask_reserve - raw;
        assert(gross * 2500000 <= u128::MAX && gross * 500000 <= u128::MAX) by (nonlinear_arith)
            requires
                gross <= u64::MAX,
        ;
        let fee = ((gross as u128) * (FEE as u128) / (DECIMALS as u128)) as u64;
        let mut earning: u64 = 0;
        if !is_exempted {
            earning = ((gross as u128) * (EARNING as u128) / (DECIMALS as u128)) as u64;
        }
        proof {
            assert(fee_of(gross as int) <= gross / 400) by (nonlinear_arith)
                requires gross >= 0;
            assert(earning_of(gross as int, is_exempted) <= gross / 2000) by (nonlinear_arith)
                requires gross >= 0;
        }
        let paid = gross - fee - earning;
        let new_ask = raw + fee;
        Some((new_ask, paid, earning))
    }
}

impl Oracle {
    /// Splits a deposit of `delta` into asset X into the part that stays in X
    /// and the parts notionally converted into Y and Z.
    pub fn _rake(delta: u64, reserve_s: u64, reserve_a: u64, reserve_b: u64) -> (r: Option<
        (u64, u64, u64),
    >)
        ensures
            r == rake_split(delta, reserve_s, reserve_a, reserve_b),
    {
        if reserve_s == 0 || reserve_a == 0 || reserve_b == 0 {
            return None;
        }
        if delta == 0 {
            return Some((0, 0, 0));
        }
        let rx = reserve_s as u128;
        let big: u128 = 0x4000_0000_0000_0000_0000_0000_0000_0000;
        assert((delta + rx) * 1000000000000000000 < big && rx * 1000000000000000000 < big)
            by (nonlinear_arith)
            requires
                delta <= u64::MAX,
                rx <= u64::MAX,
                big == 0x4000_0000_0000_0000_0000_0000_0000_0000,
        ;
        let u = ((delta as u128 + rx) * TRIPLE_PRECISION).cbrt();
        let v = (rx * TRIPLE_PRECISION).cbrt();
        let c: u128 = 0x400_0000_0000;
        proof {
            assert(c * c * c == big) by (nonlinear_arith)
                requires
                    c == 0x400_0000_0000,
                    big == 0x4000_0000_0000_0000_0000_0000_0000_0000,
            ;
            assert(u < c) by {
                if u >= c {
                    crate::math::lemma_cube_le(c as int, u as int);
                }
            }
            assert(v < c) by {
                if v >= c {
                    crate::math::lemma_cube_le(c as int, v as int);
                }
            }
            assert(u * u < c * c && u * u * v < big) by (nonlinear_arith)
                requires
                    u < c,
                    v < c,
                    c * c * c == big,
            ;
        }
        let zz = u * u * v / TRIPLE_PRECISION;
        if zz < rx {
            return None;
        }
        let z = zz - rx;
        assert(zz < 0x10_0000_0000_0000_0000);
        let w = match zz.checked_mul(rx) {
            Some(w) => w,
            None => return None,
        };
        let root = w.sqrt();
        if root < rx {
            return None;
        }
        proof {
            if root >= 0x1_0000_0000_0000_0000 {
                crate::math::lemma_square_le(0x1_0000_0000_0000_0000, root as int);
            }
        }
        let x = root - rx;
        if z < x {
            return None;
        }
        let y = z - x;
        if z > delta as u128 {
            return None;
        }
        let s = (delta as u128 - z) as u64;
        let ra = reserve_a as u128;
        assert(ra * x <= u128::MAX) by (nonlinear_arith)
            requires
                ra <= u64::MAX,
                x < 0x1_0000_0000_0000_0000,
        ;
        let an = ra * x;
        let a = an / (rx + x);
        proof {
            let (ai, ani, di) = (a as int, an as int, (rx + x) as int);
            vstd::arithmetic::div_mod::lemma_fundamental_div_mod(ani, di);
            assert(ai < ra) by (nonlinear_arith)
                requires
                    ai == ani / di,
                    ani == ra * x,
                    di == rx + x,
                    ani == di * (ani / di) + ani % di,
                    ani % di >= 0,
                    rx >= 1,
                    ra >= 1,
            ;
        }
        let bn = match (reserve_b as u128).checked_mul(y) {
            Some(bn) => bn,
            None => return None,
        };
        let b = bn / (rx + z);
        proof {
            let (bi, bni, di) = (b as int, bn as int, (rx + z) as int);
            vstd::arithmetic::div_mod::lemma_fundamental_div_mod(bni, di);
            assert(bi < reserve_b) by (nonlinear_arith)
                requires
                    bi == bni / di,
                    bni == reserve_b * y,
                    di == rx + z,
                    y <= z,
                    bni == di * (bni / di) + bni % di,
                    bni % di >= 0,
                    rx >= 1,
                    reserve_b >= 1,
            ;
        }
        Some((s, a as u64, b as u64))
    }

    /// LP minted for `s` of S at S reserve `reserve` and LP supply `supply`.
    fn lp_minted(s: u64, supply: u64, reserve: u64) -> (r: Option<u64>)
        ensures
            r == lp_share(s as int, supply as int, reserve as int),
    {
        if s >= reserve {
            return None;
        }
        assert(s * supply <= u128::MAX) by (nonlinear_arith)
            requires
                s <= u64::MAX,
                supply <= u64::MAX,
        ;
        let l = (s as u128) * (supply as u128) / ((reserve - s) as u128);
        if l > u64::MAX as u128 {
            return None;
        }
        Some(l as u64)
    }

    /// Turns a deposit of `(delta_s, delta_a, delta_b)` into LP shares:
    /// `(lpt, reserve_s', reserve_a', reserve_b')`.
    pub fn rake(
        delta_s: u64,
        delta_a: u64,
        delta_b: u64,
        reserve_s: u64,
        reserve_a: u64,
        reserve_b: u64,
        reserve_lpt: u64,
    ) -> (r: Option<(u64, u64, u64, u64)>)
        ensures
            r == rake_spec(delta_s, delta_a, delta_b, reserve_s, reserve_a, reserve_b, reserve_lpt),
            r matches Some(t) ==> reserve_lpt + t.0 <= u64::MAX,
            r matches Some(t) ==> t.1 == reserve_s + delta_s && t.2 == reserve_a + delta_a && t.3
                == reserve_b + delta_b,
    {
        let p1 = Self::_rake(delta_s, reserve_s, reserve_a, reserve_b);
        let rs = match reserve_s.checked_add(delta_s) {
            Some(v) => v,
            None => return None,
        };
        let ra = match reserve_a.checked_add(delta_a) {
            Some(v) => v,
            None => return None,
        };
        let rb = match reserve_b.checked_add(delta_b) {
            Some(v) => v,
            None => return None,
        };
        let p2 = Self::_rake(delta_a, reserve_a, reserve_b, rs);
        let p3 = Self::_rake(delta_b, reserve_b, rs, ra);
        let (s1, s2, s3) = match (p1, p2, p3) {
            (Some(t1), Some(t2), Some(t3)) => (t1.0, t2.2, t3.1),
            _ => return None,
        };
        let lpt1 = match Self::lp_minted(s1, reserve_lpt, rs) {
            Some(v) => v,
            None => return None,
        };
        let rlpt = match reserve_lpt.checked_add(lpt1) {
            Some(v) => v,
            None => return None,
        };
        let lpt2 = match Self::lp_minted(s2, rlpt, rs) {
            Some(v) => v,
            None => return None,
        };
        let rlpt = match rlpt.checked_add(lpt2) {
            Some(v) => v,
            None => return None,
        };
        let lpt3 = match Self::lp_minted(s3, rlpt, rs) {
            Some(v) => v,
            None => return None,
        };
        if rlpt.checked_add(lpt3).is_none() {
            return None;
        }
        let lpt = lpt1 + lpt2 + lpt3;
        Some((lpt, rs, ra, rb))
    }
}

} // verus!
