use crate::num::SCALE;
use crate::scalar::FP_LIMIT;
use vstd::prelude::*;

verus! {

/// Probabilities are stored in parts per million; this is certainty.
pub const PROB_ONE: u32 = 1_000_000;

/// The largest population the simulator accepts.
pub const MAX_ENTITY_COUNT: usize = 1_000_000;

/// The widest and tallest arena the fixed-point motion arithmetic carries:
/// one tick's displacement added to such a coordinate still stays within
/// `FP_LIMIT`.
pub const MAX_DIM: i64 = 900_000_000;

/// The simulation settings read once per tick: arena size, target
/// population, the per-tick idle-change probabilities, and the three
/// schooling radii. Lengths are fixed-point units, probabilities parts per
/// million.
#[derive(Debug, Clone, Copy, PartialEq, Eq, Structural)]
pub struct Config {
    pub running: bool,
    pub paused: bool,
    pub width: i64,
    pub height: i64,
    pub entity_count: usize,
    pub direction_change_prob: u32,
    pub speed_change_prob: u32,
    pub stress_change_prob: u32,
    pub attraction_fov: i64,
    pub alignment_fov: i64,
    pub attraction_radius: i64,
    pub alignment_radius: i64,
    pub avoidance_radius: i64,
}

impl Config {
    /// The machine limits a configuration must respect: an arena strictly
    /// wider and taller than one unit (the boundary wrap re-enters agents one
    /// unit inside), a positive attraction radius (it doubles as the cell
    /// size of the spatial index), probabilities at most one, and sizes the
    /// fixed-point arithmetic can carry. The nesting of the radii is not
    /// enforced here: the core follows whatever radii it is given.
    pub open spec fn wf(self) -> bool {
        &&& SCALE < self.width <= MAX_DIM
        &&& SCALE < self.height <= MAX_DIM
        &&& self.entity_count <= MAX_ENTITY_COUNT
        &&& self.direction_change_prob <= PROB_ONE
        &&& self.speed_change_prob <= PROB_ONE
        &&& self.stress_change_prob <= PROB_ONE
        &&& 0 <= self.attraction_fov <= FP_LIMIT
        &&& 0 <= self.alignment_fov <= FP_LIMIT
        &&& 1 <= self.attraction_radius <= FP_LIMIT
        &&& 0 <= self.alignment_radius <= FP_LIMIT
        &&& 0 <= self.avoidance_radius <= FP_LIMIT
    }

    /// The settings a fresh simulator starts from: a 1920 by 1080 arena, 500
    /// agents, mild idle-change probabilities, and nested radii of 10, 30
    /// and 50 units.
    pub open spec fn spec_default() -> Config {
        Config {
            running: true,
            paused: false,
            width: 1_920_000,
            height: 1_080_000,
            entity_count: 500,
            direction_change_prob: 100_000,
            speed_change_prob: 50_000,
            stress_change_prob: 1_000,
            attraction_fov: 100_000,
            alignment_fov: 250_000,
            attraction_radius: 50_000,
            alignment_radius: 30_000,
            avoidance_radius: 10_000,
        }
    }

    /// The runtime check for `wf`, for callers that receive a configuration
    /// from outside.
    pub fn validate(&self) -> (r: bool)
        ensures
            r == self.wf(),
    {
        SCALE < self.width && self.width <= MAX_DIM && SCALE < self.height && self.height
            <= MAX_DIM && self.entity_count <= MAX_ENTITY_COUNT && self.direction_change_prob
            <= PROB_ONE && self.speed_change_prob <= PROB_ONE && self.stress_change_prob <= PROB_ONE
            && 0 <= self.attraction_fov && self.attraction_fov <= FP_LIMIT && 0
            <= self.alignment_fov && self.alignment_fov <= FP_LIMIT && 1 <= self.attraction_radius
            && self.attraction_radius <= FP_LIMIT && 0 <= self.alignment_radius
            && self.alignment_radius <= FP_LIMIT && 0 <= self.avoidance_radius
            && self.avoidance_radius <= FP_LIMIT
    }
}

impl Default for Config {
    fn default() -> (r: Self)
        ensures
            r == Config::spec_default(),
            r.wf(),
    {
        Config {
            running: true,
            paused: false,
            width: 1_920_000,
            height: 1_080_000,
            entity_count: 500,
            direction_change_prob: 100_000,
            speed_change_prob: 50_000,
            stress_change_prob: 1_000,
            attraction_fov: 100_000,
            alignment_fov: 250_000,
            attraction_radius: 50_000,
            alignment_radius: 30_000,
            avoidance_radius: 10_000,
        }
    }
}

} // verus!
