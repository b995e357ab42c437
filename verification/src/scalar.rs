use crate::num::clamp01_fp;
use crate::num::div_t;
use crate::num::isqrt_u64;
use crate::num::lemma_lerp_fp_hull;
use crate::num::lerp_fp;
use crate::num::mul_div;
use crate::num::sqrt_floor;
use crate::num::SCALE;
use crate::rng::rand_i64;
use vstd::prelude::*;

verus! {

/// Magnitude within which the simulation keeps every scalar; products of two
/// such values divided by `SCALE` always fit in an `i64`.
pub const FP_LIMIT: i64 = 1_000_000_000;

/// A fixed-point scalar: `value` counts thousandths of a unit.
#[derive(Debug, Clone, Copy, PartialEq, Eq, Structural)]
pub struct Scalar {
    pub value: i64,
}

impl Scalar {
    pub fn new(value: i64) -> (r: Self)
        ensures
            r.value == value,
    {
        Scalar { value }
    }

    /// A sample drawn uniformly from the half-open range `lo..hi`.
    pub fn new_random(lo: i64, hi: i64) -> (r: Self)
        requires
            lo < hi,
        ensures
            lo <= r.value < hi,
    {
        Scalar { value: rand_i64(lo, hi) }
    }

    pub fn zero() -> (r: Self)
        ensures
            r.value == 0,
    {
        Scalar { value: 0 }
    }

    pub fn abs(self) -> (r: Self)
        requires
            self.value > i64::MIN,
        ensures
            r.value == if self.value >= 0 {
                self.value as int
            } else {
                -self.value as int
            },
    {
        if self.value >= 0 {
            self
        } else {
            Scalar { value: -self.value }
        }
    }

    pub fn min(self, other: Self) -> (r: Self)
        ensures
            r.value == if self.value <= other.value {
                self.value
            } else {
                other.value
            },
    {
        if self.value <= other.value {
            self
        } else {
            other
        }
    }

    pub fn max(self, other: Self) -> (r: Self)
        ensures
            r.value == if self.value >= other.value {
                self.value
            } else {
                other.value
            },
    {
        if self.value >= other.value {
            self
        } else {
            other
        }
    }

    pub fn clamp(&mut self, min: Self, max: Self)
        requires
            min.value <= max.value,
        ensures
            final(self).value == if old(self).value < min.value {
                min.value
            } else if old(self).value > max.value {
                max.value
            } else {
                old(self).value
            },
    {
        if self.value < min.value {
            self.value = min.value;
        } else if self.value > max.value {
            self.value = max.value;
        }
    }

    /// Interpolate from `self` toward `to` by the fraction `t` (thousandths,
    /// clamped to the unit interval). The result never leaves the interval
    /// spanned by the two endpoints.
    pub fn lerp(self, to: Self, t: i64) -> (r: Self)
        requires
            -FP_LIMIT <= self.value <= FP_LIMIT,
            -FP_LIMIT <= to.value <= FP_LIMIT,
        ensures
            r.value == lerp_fp(self.value as int, to.value as int, t as int),
            self.value <= to.value ==> self.value <= r.value <= to.value,
            to.value <= self.value ==> to.value <= r.value <= self.value,
    {
        let tc: i64 = if t < 0 {
            0
        } else if t > SCALE {
            SCALE
        } else {
            t
        };
        proof {
            assert(tc == clamp01_fp(t as int));
            lemma_lerp_fp_hull(self.value as int, to.value as int, t as int);
        }
        let step: i64 = mul_div(to.value - self.value, tc, SCALE);
        Scalar { value: self.value + step }
    }

    /// The fixed-point square: `value * value / SCALE`, truncated.
    pub fn squared(self) -> (r: Self)
        requires
            -FP_LIMIT <= self.value <= FP_LIMIT,
        ensures
            r.value == div_t(self.value * self.value, SCALE as int),
            r.value >= 0,
    {
        let v: i64 = mul_div(self.value, self.value, SCALE);
        proof {
            assert(self.value * self.value >= 0) by (nonlinear_arith);
            crate::num::lemma_div_t_bounds(self.value * self.value, SCALE as int);
        }
        Scalar { value: v }
    }

    /// The fixed-point square root: the largest `r` with
    /// `r * r <= value * SCALE`, so that squaring and taking the root are
    /// exact inverses on whole squares.
    pub fn sqrt(self) -> (r: Self)
        requires
            0 <= self.value <= FP_LIMIT,
        ensures
            r.value == sqrt_floor((self.value * SCALE) as nat),
            r.value >= 0,
    {
        let n: u64 = (self.value * SCALE) as u64;
        let r: u64 = isqrt_u64(n);
        proof {
            assert(r * r <= n);
        }
        Scalar { value: r as i64 }
    }

    pub fn add(self, rhs: Self) -> (r: Self)
        requires
            i64::MIN <= self.value + rhs.value <= i64::MAX,
        ensures
            r.value == self.value + rhs.value,
    {
        Scalar { value: self.value + rhs.value }
    }

    pub fn sub(self, rhs: Self) -> (r: Self)
        requires
            i64::MIN <= self.value - rhs.value <= i64::MAX,
        ensures
            r.value == self.value - rhs.value,
    {
        Scalar { value: self.value - rhs.value }
    }

    /// Fixed-point product: `self * rhs / SCALE`, truncated.
    pub fn mul(self, rhs: Self) -> (r: Self)
        requires
            -FP_LIMIT <= self.value <= FP_LIMIT,
            -FP_LIMIT <= rhs.value <= FP_LIMIT,
        ensures
            r.value == div_t(self.value * rhs.value, SCALE as int),
    {
        Scalar { value: mul_div(self.value, rhs.value, SCALE) }
    }

    /// Fixed-point quotient by a positive scalar: `self * SCALE / rhs`,
    /// truncated.
    pub fn div(self, rhs: Self) -> (r: Self)
        requires
            rhs.value > 0,
            -FP_LIMIT <= self.value <= FP_LIMIT,
        ensures
            r.value == div_t(self.value * SCALE, rhs.value as int),
    {
        Scalar { value: mul_div(self.value, SCALE, rhs.value) }
    }

    pub fn neg(self) -> (r: Self)
        requires
            self.value > i64::MIN,
        ensures
            r.value == -self.value,
    {
        Scalar { value: -self.value }
    }
}

impl Default for Scalar {
    fn default() -> (r: Self)
        ensures
            r.value == 0,
    {
        Scalar { value: 0 }
    }
}

impl From<i64> for Scalar {
    fn from(value: i64) -> (r: Self) {
        Scalar { value }
    }
}

impl vstd::std_specs::convert::FromSpecImpl<i64> for Scalar {
    open spec fn obeys_from_spec() -> bool {
        true
    }

    open spec fn from_spec(value: i64) -> Scalar {
        Scalar { value }
    }
}

impl From<Scalar> for i64 {
    fn from(scalar: Scalar) -> (r: i64) {
        scalar.value
    }
}

impl vstd::std_specs::convert::FromSpecImpl<Scalar> for i64 {
    open spec fn obeys_from_spec() -> bool {
        true
    }

    open spec fn from_spec(scalar: Scalar) -> i64 {
        scalar.value
    }
}

} // verus!
