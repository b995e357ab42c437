use crate::components::Speed;
use crate::components::Velocity;
use crate::delta_time::DeltaTime;
use crate::delta_time::MAX_DELTA;
use crate::num::div_t;
use crate::num::lerp_fp;
use crate::num::mul_div;
use crate::num::SCALE;
use crate::scalar::Scalar;
use crate::vec2::dist;
use crate::vec2::vec_lerp;
use crate::vec2::spec_normalized;
use crate::vec2::Vec2;
use crate::world::Agent;
use vstd::prelude::*;

verus! {

/// Once current and target differ by no more than this, the smoothing stage
/// snaps to the target instead of creeping toward it forever.
pub const EPSILON: i64 = 100;

/// The convergence rate of one smoothing step: stress times the elapsed
/// seconds, times a fixed gain of five.
pub open spec fn smooth_factor(stress: int, delta: int) -> int {
    div_t(stress * delta, SCALE as int) * 5
}

/// The smoothed heading: snap to the target within `EPSILON`, otherwise
/// interpolate toward it and renormalize.
pub open spec fn smoothed_velocity(v: Vec2, tv: Vec2, f: int) -> Vec2 {
    if dist(v, tv) <= EPSILON {
        tv
    } else {
        spec_normalized(vec_lerp(v, tv, f))
    }
}

/// The smoothed speed: snap to the target within `EPSILON`, otherwise
/// interpolate toward it.
pub open spec fn smoothed_speed(s: int, ts: int, f: int) -> int {
    if -EPSILON <= s - ts <= EPSILON {
        ts
    } else {
        lerp_fp(s, ts, f)
    }
}

/// What the smoothing stage does to one agent: heading and speed move
/// toward their targets at the rate the agent's stress sets, everything else
/// stays.
pub open spec fn smoothed(o: Agent, a: Agent, delta: int) -> bool {
    let f = smooth_factor(o.stress.0.value as int, delta);
    a == (Agent {
        velocity: Velocity(smoothed_velocity(o.velocity.0, o.target_velocity.0, f)),
        speed: Speed(
            Scalar {
                value: smoothed_speed(
                    o.speed.0.value as int,
                    o.target_speed.0.value as int,
                    f,
                ) as i64,
            },
        ),
        ..o
    })
}

/// The smoothing stage: every agent's heading and speed move toward their
/// targets at a rate set by its stress, snapping once they are close.
#[derive(Debug)]
pub struct LerpToTarget;

impl LerpToTarget {
    pub fn system(agents: &mut Vec<Agent>, delta_time: &DeltaTime)
        requires
            forall|i: int| 0 <= i < old(agents)@.len() ==> (#[trigger] old(agents)@[i]).wf(),
            0 <= delta_time.delta <= MAX_DELTA,
        ensures
            final(agents)@.len() == old(agents)@.len(),
            forall|i: int|
                0 <= i < old(agents)@.len() ==> smoothed(
                    #[trigger] old(agents)@[i],
                    final(agents)@[i],
                    delta_time.delta as int,
                ),
            forall|i: int| 0 <= i < final(agents)@.len() ==> (#[trigger] final(agents)@[i]).wf(),
    {
        let dt: i64 = delta_time.delta;
        let n: usize = agents.len();
        let mut i: usize = 0;
        while i < n
            invariant
                n == agents@.len() == old(agents)@.len(),
                i <= n,
                0 <= dt <= MAX_DELTA,
                dt == delta_time.delta,
                forall|j: int| 0 <= j < n ==> (#[trigger] old(agents)@[j]).wf(),
                forall|j: int| i <= j < n ==> #[trigger] agents@[j] == old(agents)@[j],
                forall|j: int|
                    0 <= j < i ==> smoothed(#[trigger] old(agents)@[j], agents@[j], dt as int),
                forall|j: int| 0 <= j < i ==> (#[trigger] agents@[j]).wf(),
            decreases n - i,
        {
            let mut a: Agent = agents[i];
            proof {
                assert(0 <= a.stress.0.value * dt <= 1_000_000) by (nonlinear_arith)
                    requires
                        0 <= a.stress.0.value <= 1000,
                        0 <= dt <= 1000,
                ;
                crate::num::lemma_div_t_bounds(a.stress.0.value * dt, SCALE as int);
                vstd::arithmetic::div_mod::lemma_div_is_ordered(
                    a.stress.0.value * dt,
                    1_000_000,
                    SCALE as int,
                );
            }
            let factor: i64 = mul_div(a.stress.0.value, dt, SCALE) * 5;
            let dv: i64 = a.velocity.0.distance(a.target_velocity.0);
            if dv <= EPSILON {
                a.velocity = Velocity(a.target_velocity.0);
            } else {
                let mid: Vec2 = a.velocity.0.lerp(a.target_velocity.0, factor);
                a.velocity = Velocity(mid.normalized());
            }
            let diff: i64 = a.speed.0.value - a.target_speed.0.value;
            if -EPSILON <= diff && diff <= EPSILON {
                a.speed = Speed(a.target_speed.0);
            } else {
                a.speed = Speed(a.speed.0.lerp(a.target_speed.0, factor));
            }
            agents[i] = a;
            i += 1;
        }
    }
}

} // verus!
