use crate::components::Position;
use crate::config::Config;
use crate::num::SCALE;
use crate::vec2::Vec2;
use crate::world::Agent;
use vstd::prelude::*;

verus! {

/// One axis of the boundary wrap: a coordinate at or below zero teleports to
/// one unit inside the far edge, one at or beyond the edge to one unit
/// inside the near edge. A discontinuous teleport, not a reflection.
pub open spec fn wrap_coord(x: int, dim: int) -> int {
    if x <= 0 {
        dim - SCALE
    } else if x >= dim {
        SCALE as int
    } else {
        x
    }
}

/// What the boundary wrap does to one agent: each coordinate wrapped at its
/// arena dimension, everything else stays.
pub open spec fn wrapped(cfg: Config, o: Agent, a: Agent) -> bool {
    a == (Agent {
        position: Position(
            (Vec2 {
                x: wrap_coord(o.position.0.x as int, cfg.width as int) as i64,
                y: wrap_coord(o.position.0.y as int, cfg.height as int) as i64,
            }),
        ),
        ..o
    })
}

/// The boundary-wrap stage: after it, every agent sits strictly inside the
/// arena.
#[derive(Debug)]
pub struct OutOfBound;

impl OutOfBound {
    pub fn system(agents: &mut Vec<Agent>, cfg: &Config)
        requires
            cfg.wf(),
            forall|i: int|
                0 <= i < old(agents)@.len() ==> -1_000_000_000 <= (
                #[trigger] old(agents)@[i]).position.0.x <= 1_000_000_000 && -1_000_000_000 <= old(
                    agents,
                )@[i].position.0.y <= 1_000_000_000,
        ensures
            final(agents)@.len() == old(agents)@.len(),
            forall|i: int|
                0 <= i < old(agents)@.len() ==> wrapped(
                    *cfg,
                    #[trigger] old(agents)@[i],
                    final(agents)@[i],
                ),
            forall|i: int|
                0 <= i < final(agents)@.len() ==> 0 < (#[trigger] final(agents)@[i]).position.0.x
                    < cfg.width && 0 < final(agents)@[i].position.0.y < cfg.height,
    {
        let width: i64 = cfg.width;
        let height: i64 = cfg.height;
        let n: usize = agents.len();
        let mut i: usize = 0;
        while i < n
            invariant
                n == agents@.len() == old(agents)@.len(),
                i <= n,
                width == cfg.width,
                height == cfg.height,
                cfg.wf(),
                forall|j: int|
                    0 <= j < n ==> -1_000_000_000 <= (#[trigger] old(agents)@[j]).position.0.x
                        <= 1_000_000_000 && -1_000_000_000 <= old(agents)@[j].position.0.y
                        <= 1_000_000_000,
                forall|j: int| i <= j < n ==> #[trigger] agents@[j] == old(agents)@[j],
                forall|j: int|
                    0 <= j < i ==> wrapped(*cfg, #[trigger] old(agents)@[j], agents@[j]),
                forall|j: int|
                    0 <= j < i ==> 0 < (#[trigger] agents@[j]).position.0.x < width && 0
                        < agents@[j].position.0.y < height,
            decreases n - i,
        {
            let mut a: Agent = agents[i];
            let mut x: i64 = a.position.0.x;
            let mut y: i64 = a.position.0.y;
            if x <= 0 {
                x = width - SCALE;
            } else if x >= width {
                x = SCALE;
            }
            if y <= 0 {
                y = height - SCALE;
            } else if y >= height {
                y = SCALE;
            }
            a.position = Position(Vec2 { x, y });
            agents[i] = a;
            i += 1;
        }
    }
}

} // verus!
