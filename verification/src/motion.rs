use crate::components::Position;
use crate::delta_time::DeltaTime;
use crate::delta_time::MAX_DELTA;
use crate::num::div_t;
use crate::num::lemma_div_t_bounds;
use crate::num::mul_div;
use crate::num::SCALE;
use crate::vec2::Vec2;
use crate::world::Agent;
use crate::world::MAX_SPEED;
use vstd::prelude::*;

verus! {

/// The farthest one tick can move an agent along one axis: top speed for the
/// longest allowed tick.
pub const MAX_STEP: i64 = 100_000;

/// One axis of a motion update: `speed * heading-component * elapsed`, with
/// the fixed-point rescaling after each product.
pub open spec fn motion_step(speed: int, v: int, delta: int) -> int {
    div_t(div_t(speed * v, SCALE as int) * delta, SCALE as int)
}

/// What the motion stage does to one agent: the position advances by one
/// motion step along each axis, everything else stays.
pub open spec fn moved(o: Agent, a: Agent, delta: int) -> bool {
    a == (Agent {
        position: Position(
            (Vec2 {
                x: (o.position.0.x + motion_step(
                    o.speed.0.value as int,
                    o.velocity.0.x as int,
                    delta,
                )) as i64,
                y: (o.position.0.y + motion_step(
                    o.speed.0.value as int,
                    o.velocity.0.y as int,
                    delta,
                )) as i64,
            }),
        ),
        ..o
    })
}

/// A motion step is bounded by `MAX_STEP` whenever its inputs are in range.
pub proof fn lemma_motion_step_bound(speed: int, v: int, delta: int)
    requires
        0 <= speed <= MAX_SPEED,
        -SCALE <= v <= SCALE,
        0 <= delta <= MAX_DELTA,
    ensures
        -MAX_STEP <= motion_step(speed, v, delta) <= MAX_STEP,
{
    let s = SCALE as int;
    let p1 = speed * v;
    assert(-100_000_000 <= p1 <= 100_000_000) by (nonlinear_arith)
        requires
            0 <= speed <= 100_000,
            -1000 <= v <= 1000,
            p1 == speed * v,
    ;
    let q1 = div_t(p1, s);
    lemma_div_t_bounds(p1, s);
    if p1 >= 0 {
        vstd::arithmetic::div_mod::lemma_div_is_ordered(p1, 100_000_000, s);
    } else {
        vstd::arithmetic::div_mod::lemma_div_is_ordered(-p1, 100_000_000, s);
    }
    assert(-100_000 <= q1 <= 100_000);
    let p2 = q1 * delta;
    assert(-100_000_000 <= p2 <= 100_000_000) by (nonlinear_arith)
        requires
            -100_000 <= q1 <= 100_000,
            0 <= delta <= 1000,
            p2 == q1 * delta,
    ;
    lemma_div_t_bounds(p2, s);
    if p2 >= 0 {
        vstd::arithmetic::div_mod::lemma_div_is_ordered(p2, 100_000_000, s);
    } else {
        vstd::arithmetic::div_mod::lemma_div_is_ordered(-p2, 100_000_000, s);
    }
}

/// The motion stage: every agent advances along its current heading by its
/// current speed, scaled by the elapsed time. Purely per-agent.
#[derive(Debug)]
pub struct Motion;

impl Motion {
    pub fn system(agents: &mut Vec<Agent>, delta_time: &DeltaTime)
        requires
            forall|i: int| 0 <= i < old(agents)@.len() ==> (#[trigger] old(agents)@[i]).wf(),
            0 <= delta_time.delta <= MAX_DELTA,
        ensures
            final(agents)@.len() == old(agents)@.len(),
            forall|i: int|
                0 <= i < old(agents)@.len() ==> moved(
                    #[trigger] old(agents)@[i],
                    final(agents)@[i],
                    delta_time.delta as int,
                ),
            forall|i: int|
                0 <= i < final(agents)@.len() ==> {
                    let a = #[trigger] final(agents)@[i];
                    let o = old(agents)@[i];
                    -MAX_STEP <= a.position.0.x && a.position.0.x <= MAX_STEP + o.position.0.x
                        && -MAX_STEP <= a.position.0.y && a.position.0.y <= MAX_STEP
                        + o.position.0.y
                },
    {
        let dt: i64 = delta_time.delta;
        let n: usize = agents.len();
        let mut i: usize = 0;
        while i < n
            invariant
                n == agents@.len() == old(agents)@.len(),
                i <= n,
                0 <= dt <= MAX_DELTA,
                dt == delta_time.delta,
                forall|j: int| 0 <= j < n ==> (#[trigger] old(agents)@[j]).wf(),
                forall|j: int| i <= j < n ==> #[trigger] agents@[j] == old(agents)@[j],
                forall|j: int|
                    0 <= j < i ==> moved(#[trigger] old(agents)@[j], agents@[j], dt as int),
                forall|j: int|
                    0 <= j < i ==> {
                        let a = #[trigger] agents@[j];
                        let o = old(agents)@[j];
                        -MAX_STEP <= a.position.0.x && a.position.0.x <= MAX_STEP + o.position.0.x
                            && -MAX_STEP <= a.position.0.y && a.position.0.y <= MAX_STEP
                            + o.position.0.y
                    },
            decreases n - i,
        {
            let mut a: Agent = agents[i];
            let qx: i64 = mul_div(a.speed.0.value, a.velocity.0.x, SCALE);
            let qy: i64 = mul_div(a.speed.0.value, a.velocity.0.y, SCALE);
            proof {
                lemma_motion_step_bound(
                    a.speed.0.value as int,
                    a.velocity.0.x as int,
                    dt as int,
                );
                lemma_motion_step_bound(
                    a.speed.0.value as int,
                    a.velocity.0.y as int,
                    dt as int,
                );
                lemma_div_t_bounds(a.speed.0.value * a.velocity.0.x, SCALE as int);
                lemma_div_t_bounds(a.speed.0.value * a.velocity.0.y, SCALE as int);
                assert(-100_000_000 <= a.speed.0.value * a.velocity.0.x <= 100_000_000
                    && -100_000_000 <= a.speed.0.value * a.velocity.0.y <= 100_000_000)
                    by (nonlinear_arith)
                    requires
                        0 <= a.speed.0.value <= 100_000,
                        -1000 <= a.velocity.0.x <= 1000,
                        -1000 <= a.velocity.0.y <= 1000,
                ;
            }
            let sx: i64 = mul_div(qx, dt, SCALE);
            let sy: i64 = mul_div(qy, dt, SCALE);
            a.position = Position(Vec2 { x: a.position.0.x + sx, y: a.position.0.y + sy });
            agents[i] = a;
            i += 1;
        }
    }
}

} // verus!
