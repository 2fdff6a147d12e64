//! Exact integer arithmetic helpers: floor division, division rounded away
//! from zero, and an integer square root.  Every helper carries an exact
//! contract; the geometric code states its results in terms of these.

use vstd::prelude::*;

verus! {

/// Absolute bound accepted by the division helpers; keeps every intermediate
/// sum comfortably inside `i128`.
pub open spec fn div_arg_ok(a: int, b: int) -> bool {
    &&& -0x4000_0000_0000_0000_0000_0000_0000_0000 < a < 0x4000_0000_0000_0000_0000_0000_0000_0000
    &&& 0 < b < 0x4000_0000_0000_0000_0000_0000_0000_0000
}

/// Floor division (toward negative infinity) of `a` by a positive `b`.
/// For positive `b` this is exactly the Euclidean `/` of spec arithmetic.
pub open spec fn fdiv(a: int, b: int) -> int {
    a / b
}

/// Division of `a` by a positive `b`, rounded away from zero.
pub open spec fn div_away_spec(a: int, b: int) -> int {
    if a >= 0 {
        (a + b - 1) / b
    } else {
        -((-a + b - 1) / b)
    }
}

/// Floor division on machine integers, exact per `fdiv`.
pub fn floor_div(a: i128, b: i128) -> (r: i128)
    requires
        div_arg_ok(a as int, b as int),
    ensures
        r == fdiv(a as int, b as int),
        b * r <= a < b * (r + 1),
{
    let r: i128 = if a >= 0 {
        let q: u128 = (a as u128) / (b as u128);
        q as i128
    } else {
        let n: u128 = (-a) as u128;
        let q: u128 = (n + (b as u128) - 1) / (b as u128);
        proof {
            let nn = n as int;
            let bb = b as int;
            let q0 = (nn + bb - 1) / bb;
            vstd::arithmetic::div_mod::lemma_fundamental_div_mod(nn + bb - 1, bb);
            vstd::arithmetic::div_mod::lemma_mod_bound(nn + bb - 1, bb);
            // a == (-q0) * bb + (bb * q0 - nn) with remainder in [0, bb)
            assert((-q0) * bb == -(bb * q0)) by (nonlinear_arith);
            vstd::arithmetic::div_mod::lemma_fundamental_div_mod_converse(
                a as int, bb, -q0, bb * q0 - nn);
        }
        -(q as i128)
    };
    proof {
        let aa = a as int;
        let bb = b as int;
        vstd::arithmetic::div_mod::lemma_fundamental_div_mod(aa, bb);
        vstd::arithmetic::div_mod::lemma_mod_bound(aa, bb);
        assert(bb * (aa / bb + 1) == bb * (aa / bb) + bb) by (nonlinear_arith);
    }
    r
}

/// Round-away-from-zero division on machine integers, exact per
/// `div_away_spec`.
pub fn div_away(a: i128, b: i128) -> (r: i128)
    requires
        div_arg_ok(a as int, b as int),
    ensures
        r == div_away_spec(a as int, b as int),
{
    if a >= 0 {
        let q: u128 = ((a as u128) + (b as u128) - 1) / (b as u128);
        q as i128
    } else {
        let n: u128 = (-a) as u128;
        let q: u128 = (n + (b as u128) - 1) / (b as u128);
        -(q as i128)
    }
}

/// The result of rounding away from zero covers the exact quotient:
/// `|r| * b >= |a|`, and it never overshoots by a full step.
pub proof fn lemma_div_away_covers(a: int, b: int)
    requires
        div_arg_ok(a, b),
    ensures
        a >= 0 ==> div_away_spec(a, b) * b >= a && div_away_spec(a, b) >= 0,
        a < 0 ==> div_away_spec(a, b) * b <= a && div_away_spec(a, b) < 0,
{
    if a >= 0 {
        let q = (a + b - 1) / b;
        vstd::arithmetic::div_mod::lemma_fundamental_div_mod(a + b - 1, b);
        vstd::arithmetic::div_mod::lemma_mod_bound(a + b - 1, b);
        assert(q * b >= a);
        if a > 0 {
            vstd::arithmetic::div_mod::lemma_div_pos_is_pos(a + b - 1, b);
        }
        assert(q >= 0) by {
            vstd::arithmetic::div_mod::lemma_div_pos_is_pos(a + b - 1, b);
        }
    } else {
        let n = -a;
        let q = (n + b - 1) / b;
        vstd::arithmetic::div_mod::lemma_fundamental_div_mod(n + b - 1, b);
        vstd::arithmetic::div_mod::lemma_mod_bound(n + b - 1, b);
        assert(q * b >= n);
        assert(q >= 1) by {
            vstd::arithmetic::div_mod::lemma_div_pos_is_pos(n + b - 1, b);
            if q == 0 {
                assert(q * b == 0) by (nonlinear_arith) requires q == 0;
            }
            assert(q * b >= n > 0);
            if q <= 0 {
                assert(q * b <= 0) by (nonlinear_arith) requires q <= 0 && b > 0;
            }
        }
        assert(div_away_spec(a, b) * b == -(q * b)) by (nonlinear_arith)
            requires div_away_spec(a, b) == -q;
    }
}

/// Integer square root: the greatest `r` with `r * r <= n`.
pub fn isqrt(n: u128) -> (r: u128)
    ensures
        r * r <= n,
        n < (r + 1) * (r + 1),
        r < 0x1_0000_0000_0000_0000,
{
    let mut lo: u128 = 0;
    let mut hi: u128 = 0xffff_ffff_ffff_ffff;
    proof {
        assert((hi + 1) * (hi + 1) > n) by (nonlinear_arith)
            requires hi == 0xffff_ffff_ffff_ffffu128 && n <= 0xffff_ffff_ffff_ffff_ffff_ffff_ffff_ffffu128;
    }
    while lo < hi
        invariant
            lo <= hi,
            hi <= 0xffff_ffff_ffff_ffff,
            lo * lo <= n,
            n < (hi + 1) * (hi + 1),
        decreases hi - lo,
    {
        let mid: u128 = lo + (hi - lo + 1) / 2;
        assert(lo < mid <= hi);
        proof {
            assert(mid * mid < 0xffff_ffff_ffff_ffff_ffff_ffff_ffff_ffffu128) by (nonlinear_arith)
                requires mid <= 0xffff_ffff_ffff_ffffu128;
        }
        let sq: u128 = mid * mid;
        if sq <= n {
            lo = mid;
        } else {
            hi = mid - 1;
        }
    }
    lo
}

/// Specification-level integer square root, by counting up.
pub open spec fn sqrt_floor(n: int) -> int
    decreases n,
{
    if n <= 0 {
        0
    } else {
        let r = sqrt_floor(n - 1);
        if (r + 1) * (r + 1) <= n {
            r + 1
        } else {
            r
        }
    }
}

/// `sqrt_floor` brackets its argument between consecutive squares.
pub proof fn lemma_sqrt_floor_bounds(n: int)
    requires
        n >= 0,
    ensures
        sqrt_floor(n) >= 0,
        sqrt_floor(n) * sqrt_floor(n) <= n,
        n < (sqrt_floor(n) + 1) * (sqrt_floor(n) + 1),
    decreases n,
{
    if n > 0 {
        lemma_sqrt_floor_bounds(n - 1);
        let r = sqrt_floor(n - 1);
        if (r + 1) * (r + 1) <= n {
            // the step climbs one: n - 1 < (r + 1)^2 <= n pins n == (r + 1)^2
            assert((r + 1) * (r + 1) < (r + 2) * (r + 2)) by (nonlinear_arith)
                requires
                    r >= 0;
        }
    }
}

/// Any value bracketed between consecutive squares is the `sqrt_floor`;
/// connects the executable `isqrt` to the specification.
pub proof fn lemma_sqrt_floor_unique(n: int, r: int)
    requires
        n >= 0,
        r >= 0,
        r * r <= n,
        n < (r + 1) * (r + 1),
    ensures
        r == sqrt_floor(n),
{
    lemma_sqrt_floor_bounds(n);
    let s = sqrt_floor(n);
    assert(r == s) by (nonlinear_arith)
        requires
            r >= 0,
            s >= 0,
            r * r <= n,
            n < (r + 1) * (r + 1),
            s * s <= n,
            n < (s + 1) * (s + 1);
}

/// Monotonicity of floor division by a positive divisor, stated over the
/// bracketing multiples that the callers have at hand.
pub proof fn lemma_fdiv_bounds(lo: int, hi: int, a: int, b: int)
    requires
        b > 0,
        lo * b <= a,
        a <= hi * b,
    ensures
        lo <= fdiv(a, b) <= hi,
{
    vstd::arithmetic::div_mod::lemma_fundamental_div_mod(a, b);
    vstd::arithmetic::div_mod::lemma_mod_bound(a, b);
    let q = a / b;
    assert(lo <= q) by (nonlinear_arith)
        requires b > 0 && lo * b <= a && a == b * q + a % b && 0 <= a % b < b;
    assert(q <= hi) by (nonlinear_arith)
        requires b > 0 && a <= hi * b && a == b * q + a % b && 0 <= a % b < b;
}

} // verus!
