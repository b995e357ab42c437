use crate::chunks::Chunks;
use crate::components::Density;
use crate::components::Position;
use crate::components::Social;
use crate::components::Speed;
use crate::components::Stress;
use crate::components::TargetSpeed;
use crate::components::TargetVelocity;
use crate::components::Velocity;
use crate::config::Config;
use crate::config::MAX_DIM;
use crate::config::MAX_ENTITY_COUNT;
use crate::delta_time::DeltaTime;
use crate::delta_time::MAX_DELTA;
use crate::num::SCALE;
use vstd::prelude::*;

verus! {

/// The fastest desired or actual speed any stage assigns, in fixed-point
/// units per second.
pub const MAX_SPEED: i64 = 100_000;

/// One schooling agent: all its per-entity components in one record. Its id
/// is its slot in the store.
#[derive(Debug, Clone, Copy, PartialEq, Eq, Structural)]
pub struct Agent {
    pub position: Position,
    pub velocity: Velocity,
    pub target_velocity: TargetVelocity,
    pub speed: Speed,
    pub target_speed: TargetSpeed,
    pub stress: Stress,
    pub density: Density,
    pub social: Social,
}

impl Agent {
    /// The per-agent invariant every stage preserves at tick boundaries:
    /// coordinates inside the largest arena, headings inside the unit box,
    /// speeds within the assignable range, stress in the unit interval.
    pub open spec fn wf(self) -> bool {
        &&& 0 <= self.position.0.x <= MAX_DIM
        &&& 0 <= self.position.0.y <= MAX_DIM
        &&& -SCALE <= self.velocity.0.x <= SCALE
        &&& -SCALE <= self.velocity.0.y <= SCALE
        &&& -SCALE <= self.target_velocity.0.x <= SCALE
        &&& -SCALE <= self.target_velocity.0.y <= SCALE
        &&& 0 <= self.speed.0.value <= MAX_SPEED
        &&& 0 <= self.target_speed.0.value <= MAX_SPEED
        &&& 0 <= self.stress.0.value <= SCALE
    }
}

/// The agent store with the simulation-wide singletons: configuration,
/// clock, spatial index.
#[derive(Debug)]
pub struct World {
    pub agents: Vec<Agent>,
    pub config: Config,
    pub delta_time: DeltaTime,
    pub chunks: Chunks,
}

impl World {
    pub open spec fn wf(self) -> bool {
        &&& self.config.wf()
        &&& self.chunks.wf()
        &&& 0 <= self.delta_time.delta <= MAX_DELTA
        &&& self.agents@.len() <= MAX_ENTITY_COUNT
        &&& forall|i: int| 0 <= i < self.agents@.len() ==> (#[trigger] self.agents@[i]).wf()
    }
}

} // verus!
