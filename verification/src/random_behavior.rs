use crate::components::Stress;
use crate::components::TargetSpeed;
use crate::components::TargetVelocity;
use crate::config::Config;
use crate::num::lerp_fp;
use crate::num::SCALE;
use crate::rng::rand_i64;
use crate::scalar::Scalar;
use crate::vec2::unit_band;
use crate::vec2::vec_lerp;
use crate::vec2::Vec2;
use crate::world::Agent;
use vstd::prelude::*;

verus! {

/// An independent Bernoulli trial with probability `prob` parts per million.
fn roll(prob: u32) -> bool {
    let draw: i64 = rand_i64(0, 1_000_000);
    draw < prob as i64
}

/// What one idle-randomization step may do to an agent: position, heading,
/// speed, density and social flag never change; the desired heading and
/// stress may change only when the agent has fully arrived at its desired
/// heading, the desired speed only when it has arrived at its desired speed;
/// and every change is a clamped interpolation of the old value toward some
/// freshly drawn one — a near-unit heading, a speed in `[10, 100)`, a stress
/// in `[0.1, 0.5)` — never an outright replacement.
pub open spec fn idle_step_ok(o: Agent, a: Agent) -> bool {
    &&& a.wf()
    &&& a.position == o.position
    &&& a.velocity == o.velocity
    &&& a.speed == o.speed
    &&& a.density == o.density
    &&& a.social == o.social
    &&& (o.velocity.0 != o.target_velocity.0 ==> a.target_velocity == o.target_velocity
        && a.stress == o.stress)
    &&& (o.speed.0.value != o.target_speed.0.value ==> a.target_speed == o.target_speed)
    &&& (a.target_velocity == o.target_velocity || exists|dir: Vec2, t: int|
        #[trigger] vec_lerp(o.target_velocity.0, dir, t) == a.target_velocity.0 && unit_band(dir))
    &&& (a.target_speed == o.target_speed || exists|s: int, t: int|
        #[trigger] lerp_fp(o.target_speed.0.value as int, s, t) == a.target_speed.0.value && 10_000
            <= s < 100_000)
    &&& (a.stress == o.stress || exists|s: int, t: int|
        #[trigger] lerp_fp(o.stress.0.value as int, s, t) == a.stress.0.value && 100 <= s < 500)
}

/// The idle-randomization stage: an agent that has fully arrived at its
/// desired heading (or speed) rolls a per-tick Bernoulli trial and, on
/// success, blends a fresh random target — heading, speed or stress — into
/// the old one by a random interpolation factor. Targets of agents still
/// under way are left alone.
#[derive(Debug)]
pub struct RandomBehavior;

impl RandomBehavior {
    pub fn system(agents: &mut Vec<Agent>, cfg: &Config)
        requires
            cfg.wf(),
            forall|i: int| 0 <= i < old(agents)@.len() ==> (#[trigger] old(agents)@[i]).wf(),
        ensures
            final(agents)@.len() == old(agents)@.len(),
            forall|i: int|
                0 <= i < old(agents)@.len() ==> idle_step_ok(
                    #[trigger] old(agents)@[i],
                    final(agents)@[i],
                ),
    {
        let n: usize = agents.len();
        let mut i: usize = 0;
        while i < n
            invariant
                n == agents@.len() == old(agents)@.len(),
                i <= n,
                cfg.wf(),
                forall|j: int| 0 <= j < n ==> (#[trigger] old(agents)@[j]).wf(),
                forall|j: int| i <= j < n ==> #[trigger] agents@[j] == old(agents)@[j],
                forall|j: int|
                    0 <= j < i ==> idle_step_ok(#[trigger] old(agents)@[j], agents@[j]),
            decreases n - i,
        {
            let mut a: Agent = agents[i];
            let arrived: bool = a.velocity.0 == a.target_velocity.0;
            if arrived && roll(cfg.direction_change_prob) {
                let direction: Vec2 = Vec2::random_dir();
                let t: i64 = rand_i64(0, SCALE);
                let ghost before = a.target_velocity.0;
                a.target_velocity = TargetVelocity(a.target_velocity.0.lerp(direction, t));
                proof {
                    assert(vec_lerp(before, direction, t as int) == a.target_velocity.0);
                }
            }
            if a.speed.0.value == a.target_speed.0.value && roll(cfg.speed_change_prob) {
                let desired: Scalar = Scalar::new_random(10_000, 100_000);
                let t: i64 = rand_i64(0, SCALE);
                let ghost before = a.target_speed.0.value;
                a.target_speed = TargetSpeed(a.target_speed.0.lerp(desired, t));
                proof {
                    assert(lerp_fp(before as int, desired.value as int, t as int)
                        == a.target_speed.0.value);
                }
            }
            if arrived && roll(cfg.stress_change_prob) {
                let drawn: Scalar = Scalar::new_random(100, 500);
                let t: i64 = rand_i64(0, SCALE);
                let ghost before = a.stress.0.value;
                a.stress = Stress(a.stress.0.lerp(drawn, t));
                proof {
                    assert(lerp_fp(before as int, drawn.value as int, t as int)
                        == a.stress.0.value);
                }
            }
            agents[i] = a;
            proof {
                assert(idle_step_ok(old(agents)@[i as int], agents@[i as int]));
            }
            i += 1;
        }
    }
}

} // verus!
