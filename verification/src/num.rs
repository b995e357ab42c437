use vstd::arithmetic::div_mod::lemma_div_is_ordered;
use vstd::arithmetic::div_mod::lemma_div_multiples_vanish;
use vstd::arithmetic::div_mod::lemma_div_nonincreasing;
use vstd::arithmetic::div_mod::lemma_div_pos_is_pos;
use vstd::arithmetic::mul::lemma_mul_inequality;
use vstd::arithmetic::mul::lemma_mul_nonnegative;
use vstd::prelude::*;

verus! {

/// One whole unit in the fixed-point encoding: every quantity in the
/// simulation (coordinates, speeds, stress levels, seconds) is stored as an
/// `i64` holding thousandths of a unit.
pub const SCALE: i64 = 1000;

/// Truncating division (round toward zero), the rounding used throughout the
/// fixed-point arithmetic of this crate. Only defined for positive divisors.
pub open spec fn div_t(a: int, b: int) -> int
    recommends
        b > 0,
{
    if a >= 0 {
        a / b
    } else {
        -((-a) / b)
    }
}

/// Floor of the square root of a natural number.
pub open spec fn sqrt_floor(n: nat) -> nat
    decreases n,
{
    if n == 0 {
        0
    } else {
        let r = sqrt_floor((n - 1) as nat);
        if (r + 1) * (r + 1) <= n {
            (r + 1) as nat
        } else {
            r
        }
    }
}

/// `sqrt_floor(n)` really brackets `n` between two consecutive squares.
pub proof fn lemma_sqrt_floor_bounds(n: nat)
    ensures
        sqrt_floor(n) * sqrt_floor(n) <= n,
        n < (sqrt_floor(n) + 1) * (sqrt_floor(n) + 1),
    decreases n,
{
    if n == 0 {
        assert(sqrt_floor(0) == 0);
        assert(n < (sqrt_floor(n) + 1) * (sqrt_floor(n) + 1)) by (nonlinear_arith)
            requires
                n == 0,
                sqrt_floor(n) == 0,
        ;
    } else {
        let p = sqrt_floor((n - 1) as nat);
        lemma_sqrt_floor_bounds((n - 1) as nat);
        assert(p * p <= n - 1);
        assert(n - 1 < (p + 1) * (p + 1));
        if (p + 1) * (p + 1) <= n {
            assert(sqrt_floor(n) == p + 1);
            assert(n < (p + 2) * (p + 2)) by (nonlinear_arith)
                requires
                    n <= (p + 1) * (p + 1),
                    p >= 0,
            ;
            assert(sqrt_floor(n) * sqrt_floor(n) <= n);
            assert(n < (sqrt_floor(n) + 1) * (sqrt_floor(n) + 1));
        } else {
            assert(sqrt_floor(n) == p);
            assert(sqrt_floor(n) * sqrt_floor(n) <= n);
            assert(n < (sqrt_floor(n) + 1) * (sqrt_floor(n) + 1));
        }
    }
}

/// The bracketing property identifies `sqrt_floor(n)` uniquely.
pub proof fn lemma_sqrt_floor_unique(n: nat, r: nat)
    requires
        r * r <= n,
        n < (r + 1) * (r + 1),
    ensures
        r == sqrt_floor(n),
{
    let s = sqrt_floor(n);
    lemma_sqrt_floor_bounds(n);
    if r < s {
        assert((r + 1) * (r + 1) <= s * s) by (nonlinear_arith)
            requires
                r + 1 <= s,
        ;
    }
    if s < r {
        assert((s + 1) * (s + 1) <= r * r) by (nonlinear_arith)
            requires
                s + 1 <= r,
        ;
    }
}

/// Truncating division of an `i64` by a positive divisor.
pub fn div_i64(a: i64, b: i64) -> (r: i64)
    requires
        b > 0,
        a > i64::MIN,
    ensures
        r == div_t(a as int, b as int),
{
    if a >= 0 {
        let q: u64 = (a as u64) / (b as u64);
        q as i64
    } else {
        let m: u64 = ((-a) as u64) / (b as u64);
        proof {
            assert((-a) as u64 / (b as u64) <= (-a) as u64) by (nonlinear_arith)
                requires
                    b > 0,
                    a < 0,
                    a > i64::MIN,
            ;
        }
        -(m as i64)
    }
}

/// `a * b / d` with truncating division, computed without intermediate
/// overflow. The bounds on `a` and `b` keep the true quotient inside `i64`.
pub fn mul_div(a: i64, b: i64, d: i64) -> (r: i64)
    requires
        d > 0,
        -3_000_000_000 <= a <= 3_000_000_000,
        -3_000_000_000 <= b <= 3_000_000_000,
    ensures
        r == div_t(a as int * b as int, d as int),
{
    let negative: bool = (a < 0) != (b < 0);
    let ma: u128 = if a < 0 {
        (-a) as u128
    } else {
        a as u128
    };
    let mb: u128 = if b < 0 {
        (-b) as u128
    } else {
        b as u128
    };
    proof {
        assert(ma * mb <= 9_000_000_000_000_000_000) by (nonlinear_arith)
            requires
                ma <= 3_000_000_000,
                mb <= 3_000_000_000,
        ;
    }
    let p: u128 = ma * mb;
    proof {
        assert(p as int / (d as int) <= p) by (nonlinear_arith)
            requires
                d > 0,
                p >= 0,
        ;
        let ia = a as int;
        let ib = b as int;
        if a >= 0 && b >= 0 {
            assert(ma * mb == ia * ib && ia * ib >= 0) by (nonlinear_arith)
                requires
                    ma == ia,
                    mb == ib,
                    ia >= 0,
                    ib >= 0,
            ;
        } else if a < 0 && b < 0 {
            assert(ma * mb == ia * ib && ia * ib >= 0) by (nonlinear_arith)
                requires
                    ma == -ia,
                    mb == -ib,
                    ia < 0,
                    ib < 0,
            ;
        } else if a < 0 {
            assert(ma * mb == -(ia * ib) && ia * ib <= 0) by (nonlinear_arith)
                requires
                    ma == -ia,
                    mb == ib,
                    ia < 0,
                    ib >= 0,
            ;
        } else {
            assert(ma * mb == -(ia * ib) && ia * ib <= 0) by (nonlinear_arith)
                requires
                    ma == ia,
                    mb == -ib,
                    ia >= 0,
                    ib < 0,
            ;
        }
    }
    let q: u128 = p / (d as u128);
    let qs: i64 = q as i64;
    proof {
        let prod = a as int * b as int;
        if prod >= 0 {
            assert(p == prod);
            assert(qs == div_t(prod, d as int));
            assert(negative ==> prod == 0 && qs == 0);
        } else {
            assert(p == -prod);
            assert(negative);
            assert(qs == (-prod) / (d as int));
        }
    }
    if negative {
        if qs == 0 {
            0
        } else {
            -qs
        }
    } else {
        qs
    }
}

/// Floor of the square root of a `u64`, by bisection.
pub fn isqrt_u64(n: u64) -> (r: u64)
    ensures
        r == sqrt_floor(n as nat),
        r * r <= n < (r + 1) * (r + 1),
        r < 4_294_967_296,
{
    let mut lo: u64 = 0;
    let mut hi: u64 = 4_294_967_296;
    proof {
        assert((4_294_967_296 as int) * (4_294_967_296 as int) > u64::MAX as int) by (nonlinear_arith);
    }
    while hi - lo > 1
        invariant
            lo < hi <= 4_294_967_296,
            lo * lo <= n as int,
            (n as int) < hi * hi,
        decreases hi - lo,
    {
        let mid: u64 = lo + (hi - lo) / 2;
        proof {
            assert((mid as int) * (mid as int) <= u128::MAX) by (nonlinear_arith)
                requires
                    0 <= mid <= 4_294_967_296,
            ;
        }
        if (mid as u128) * (mid as u128) <= n as u128 {
            lo = mid;
        } else {
            hi = mid;
        }
    }
    proof {
        assert(hi == lo + 1);
        lemma_sqrt_floor_unique(n as nat, lo as nat);
    }
    lo
}

/// An interpolation parameter clamped to the fixed-point unit interval.
pub open spec fn clamp01_fp(t: int) -> int {
    if t < 0 {
        0
    } else if t > SCALE {
        SCALE as int
    } else {
        t
    }
}

/// Fixed-point linear interpolation from `a` toward `b` by fraction `t`
/// (thousandths, clamped to the unit interval).
pub open spec fn lerp_fp(a: int, b: int, t: int) -> int {
    a + div_t((b - a) * clamp01_fp(t), SCALE as int)
}

/// Dividing by a positive divisor never grows a magnitude or flips a sign.
pub proof fn lemma_div_t_bounds(a: int, b: int)
    requires
        b > 0,
    ensures
        a >= 0 ==> 0 <= div_t(a, b) <= a,
        a < 0 ==> a <= div_t(a, b) <= 0,
{
    if a >= 0 {
        lemma_div_pos_is_pos(a, b);
        lemma_div_nonincreasing(a, b);
    } else {
        lemma_div_pos_is_pos(-a, b);
        lemma_div_nonincreasing(-a, b);
    }
}

/// `d * t / SCALE` with `t` in the unit interval lies between `0` and `d`.
pub proof fn lemma_scale_frac_bounds(d: int, t: int)
    requires
        0 <= t <= SCALE,
    ensures
        d >= 0 ==> 0 <= div_t(d * t, SCALE as int) <= d,
        d < 0 ==> d <= div_t(d * t, SCALE as int) <= 0,
{
    let s = SCALE as int;
    if d >= 0 {
        lemma_mul_nonnegative(d, t);
        lemma_mul_inequality(t, s, d);
        assert(d * t <= d * s) by (nonlinear_arith)
            requires
                t <= s,
                d >= 0,
        ;
        lemma_div_is_ordered(d * t, d * s, s);
        lemma_div_multiples_vanish(d, s);
        lemma_div_pos_is_pos(d * t, s);
    } else {
        let m = -d;
        lemma_mul_nonnegative(m, t);
        assert(m * t <= m * s) by (nonlinear_arith)
            requires
                t <= s,
                m >= 0,
        ;
        lemma_div_is_ordered(m * t, m * s, s);
        lemma_div_multiples_vanish(m, s);
        lemma_div_pos_is_pos(m * t, s);
        assert(d * t == -(m * t)) by (nonlinear_arith)
            requires
                m == -d,
        ;
    }
}

/// The interpolant stays in the closed interval spanned by its endpoints.
pub proof fn lemma_lerp_fp_hull(a: int, b: int, t: int)
    ensures
        a <= b ==> a <= lerp_fp(a, b, t) <= b,
        b <= a ==> b <= lerp_fp(a, b, t) <= a,
{
    lemma_scale_frac_bounds(b - a, clamp01_fp(t));
}

} // verus!
