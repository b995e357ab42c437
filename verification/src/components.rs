use crate::num::lerp_fp;
use crate::num::SCALE;
use crate::scalar::Scalar;
use crate::scalar::FP_LIMIT;
use crate::vec2::length_of;
use crate::vec2::norm_coord;
use crate::vec2::Vec2;
use crate::vec2::VEC_LIMIT;
use vstd::prelude::*;

verus! {

/// Whether the agent found at least one neighbor in its latest spatial
/// query.
#[derive(Debug, Clone, Copy, PartialEq, Eq, Structural)]
pub struct Social {
    pub is_in_group: bool,
}

impl Social {
    pub fn set_grouped(&mut self)
        ensures
            final(self).is_in_group,
    {
        self.is_in_group = true;
    }

    pub fn set_alone(&mut self)
        ensures
            !final(self).is_in_group,
    {
        self.is_in_group = false;
    }
}

impl Default for Social {
    fn default() -> (r: Self)
        ensures
            !r.is_in_group,
    {
        Social { is_in_group: false }
    }
}

/// How many neighbors the agent's latest spatial query returned.
#[derive(Debug, Clone, Copy, PartialEq, Eq, Structural)]
pub struct Density {
    pub value: usize,
}

impl Density {
    pub fn set(&mut self, value: usize)
        ensures
            final(self).value == value,
    {
        self.value = value;
    }

    pub fn is_zero(&self) -> (r: bool)
        ensures
            r == (self.value == 0),
    {
        self.value == 0
    }
}

impl Default for Density {
    fn default() -> (r: Self)
        ensures
            r.value == 0,
    {
        Density { value: 0 }
    }
}

/// The agent's world position.
#[derive(Debug, Clone, Copy, PartialEq, Eq, Structural)]
pub struct Position(pub Vec2);

/// The agent's current heading.
#[derive(Debug, Clone, Copy, PartialEq, Eq, Structural)]
pub struct Velocity(pub Vec2);

impl Velocity {
    /// A random heading: a random point of the unit circle, so the result is
    /// of unit length up to the fixed-point grain and never zero.
    pub fn new() -> (r: Self)
        ensures
            crate::vec2::unit_band(r.0),
            !(r.0.x == 0 && r.0.y == 0),
    {
        Velocity(Vec2::random_dir())
    }

    /// Normalize the heading in place, returning the new value.
    pub fn normalize(&mut self) -> (r: Self)
        requires
            -VEC_LIMIT <= old(self).0.x <= VEC_LIMIT,
            -VEC_LIMIT <= old(self).0.y <= VEC_LIMIT,
        ensures
            final(self).0.x == norm_coord(old(self).0.x as int, length_of(old(self).0)),
            final(self).0.y == norm_coord(old(self).0.y as int, length_of(old(self).0)),
            -SCALE <= final(self).0.x <= SCALE,
            -SCALE <= final(self).0.y <= SCALE,
            r == *final(self),
    {
        self.0.normalize();
        Velocity(self.0)
    }

    /// Interpolate toward `to` by `factor` and renormalize, returning the
    /// new value.
    pub fn lerp(&mut self, to: &Self, factor: i64) -> (r: Self)
        requires
            -FP_LIMIT <= old(self).0.x <= FP_LIMIT,
            -FP_LIMIT <= old(self).0.y <= FP_LIMIT,
            -FP_LIMIT <= to.0.x <= FP_LIMIT,
            -FP_LIMIT <= to.0.y <= FP_LIMIT,
        ensures
            ({
                let mid = (Vec2 {
                    x: lerp_fp(old(self).0.x as int, to.0.x as int, factor as int) as i64,
                    y: lerp_fp(old(self).0.y as int, to.0.y as int, factor as int) as i64,
                });
                final(self).0.x == norm_coord(mid.x as int, length_of(mid)) && final(self).0.y
                    == norm_coord(mid.y as int, length_of(mid))
            }),
            -SCALE <= final(self).0.x <= SCALE,
            -SCALE <= final(self).0.y <= SCALE,
            r == *final(self),
    {
        let mid: Vec2 = self.0.lerp(to.0, factor);
        let n: Vec2 = mid.normalized();
        self.0 = n;
        Velocity(n)
    }
}

/// The heading the agent steers toward.
#[derive(Debug, Clone, Copy, PartialEq, Eq, Structural)]
pub struct TargetVelocity(pub Vec2);

/// The agent's current scalar speed.
#[derive(Debug, Clone, Copy, PartialEq, Eq, Structural)]
pub struct Speed(pub Scalar);

impl Speed {
    pub fn new_zero() -> (r: Self)
        ensures
            r.0.value == 0,
    {
        Speed(Scalar::zero())
    }

    /// A speed drawn uniformly from the half-open range `low..high`.
    pub fn new_random(low: i64, high: i64) -> (r: Self)
        requires
            low < high,
        ensures
            low <= r.0.value < high,
    {
        Speed(Scalar::new_random(low, high))
    }

    /// Interpolate toward `to` by `factor`, returning the new value.
    pub fn lerp(&mut self, to: &Self, factor: i64) -> (r: Self)
        requires
            -FP_LIMIT <= old(self).0.value <= FP_LIMIT,
            -FP_LIMIT <= to.0.value <= FP_LIMIT,
        ensures
            final(self).0.value == lerp_fp(old(self).0.value as int, to.0.value as int, factor as int),
            r == *final(self),
    {
        self.0 = self.0.lerp(to.0, factor);
        Speed(self.0)
    }
}

/// The speed the agent steers toward.
#[derive(Debug, Clone, Copy, PartialEq, Eq, Structural)]
pub struct TargetSpeed(pub Scalar);

/// How quickly the agent converges toward its targets, in the unit interval.
#[derive(Debug, Clone, Copy, PartialEq, Eq, Structural)]
pub struct Stress(pub Scalar);

impl Stress {
    pub fn new(factor: i64) -> (r: Self)
        ensures
            r.0.value == factor,
    {
        Stress(Scalar::new(factor))
    }

    pub fn factor(&self) -> (r: i64)
        ensures
            r == self.0.value,
    {
        self.0.value
    }
}

impl Default for Stress {
    fn default() -> (r: Self)
        ensures
            r.0.value == SCALE / 10,
    {
        Stress(Scalar::new(100))
    }
}

} // verus!
