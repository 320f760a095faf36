use vstd::prelude::*;

verus! {

/// The fixed-point value of one whole unit.
pub const FIXED_ONE: i64 = 1000000;

/// Floor division by a positive divisor, as `/` is on `int` in specifications.
pub fn div_floor(a: i128, d: u128) -> (r: i128)
    requires
        0 < d,
        a > i128::MIN,
    ensures
        r == (a as int) / (d as int),
{
    if a >= 0 {
        let q = (a as u128) / d;
        assert(q as int == (a as int) / (d as int));
        q as i128
    } else {
        let n = (-a) as u128;
        let q0 = n / d;
        let r0 = n % d;
        proof {
            vstd::arithmetic::div_mod::lemma_fundamental_div_mod(n as int, d as int);
            assert(q0 <= n) by (nonlinear_arith)
                requires n == d * q0 + r0, 0 <= r0, 1 <= d, 0 <= q0;
            assert(r0 > 0 ==> q0 < n) by (nonlinear_arith)
                requires n == d * q0 + r0, 0 <= r0 < d, 1 <= d, 0 <= q0;
        }
        let q = if r0 == 0 { q0 } else { q0 + 1 };
        proof {
            lemma_neg_div(a as int, d as int, q0 as int, r0 as int);
        }
        -(q as i128)
    }
}

/// Whether `r` is the square root of `v`, rounded down.
pub open spec fn is_floor_sqrt(v: int, r: int) -> bool {
    0 <= r && r * r <= v < (r + 1) * (r + 1)
}

/// The square root of `v`, rounded down.
pub fn isqrt(v: u128) -> (r: u64)
    ensures
        is_floor_sqrt(v as int, r as int),
{
    let mut lo: u128 = 0;
    let mut hi: u128 = 0x1_0000_0000_0000_0000;
    assert(hi * hi > v) by (nonlinear_arith)
        requires hi == 0x1_0000_0000_0000_0000u128, v <= u128::MAX;
    while hi - lo > 1
        invariant
            lo < hi <= 0x1_0000_0000_0000_0000u128,
            lo * lo <= v,
            v < hi * hi,
        decreases hi - lo,
    {
        let mid = lo + (hi - lo) / 2;
        assert(mid * mid <= u128::MAX) by (nonlinear_arith)
            requires mid < 0x1_0000_0000_0000_0000u128;
        if mid * mid <= v {
            lo = mid;
        } else {
            hi = mid;
        }
    }
    assert(hi == lo + 1);
    lo as u64
}

proof fn lemma_neg_div(a: int, d: int, q0: int, r0: int)
    requires
        a < 0,
        0 < d,
        -a == d * q0 + r0,
        0 <= r0 < d,
    ensures
        r0 == 0 ==> a / d == -q0,
        r0 != 0 ==> a / d == -q0 - 1,
{
    if r0 == 0 {
        assert(a == d * (-q0) + 0) by (nonlinear_arith)
            requires -a == d * q0 + r0, r0 == 0;
        vstd::arithmetic::div_mod::lemma_fundamental_div_mod_converse(a, d, -q0, 0);
    } else {
        assert(a == d * (-q0 - 1) + (d - r0)) by (nonlinear_arith)
            requires -a == d * q0 + r0;
        vstd::arithmetic::div_mod::lemma_fundamental_div_mod_converse(a, d, -q0 - 1, d - r0);
    }
}

} // verus!
