use crate::vec2::Vec2;
use crate::world::Agent;
use vstd::prelude::*;

verus! {

/// The per-tick snapshot handed to the caller: one entry per live agent,
/// index-aligned across the fields. An agent's id is its index.
#[derive(Debug)]
pub struct SimulatorOutput {
    pub ids: Vec<usize>,
    pub positions: Vec<Vec2>,
    pub velocities: Vec<Vec2>,
    pub speeds: Vec<i64>,
    pub densities: Vec<usize>,
}

impl SimulatorOutput {
    /// Whether this snapshot reflects `agents` exactly.
    pub open spec fn reflects(self, agents: Seq<Agent>) -> bool {
        &&& self.ids@.len() == agents.len()
        &&& self.positions@.len() == agents.len()
        &&& self.velocities@.len() == agents.len()
        &&& self.speeds@.len() == agents.len()
        &&& self.densities@.len() == agents.len()
        &&& forall|i: int|
            0 <= i < agents.len() ==> #[trigger] self.ids@[i] == i && self.positions@[i] == agents[i].position.0
                && self.velocities@[i] == agents[i].velocity.0 && self.speeds@[i]
                == agents[i].speed.0.value && self.densities@[i] == agents[i].density.value
    }

    /// Read every agent's exported fields into a fresh snapshot.
    pub fn build(agents: &Vec<Agent>) -> (r: Self)
        ensures
            r.reflects(agents@),
    {
        let n: usize = agents.len();
        let mut ids: Vec<usize> = Vec::new();
        let mut positions: Vec<Vec2> = Vec::new();
        let mut velocities: Vec<Vec2> = Vec::new();
        let mut speeds: Vec<i64> = Vec::new();
        let mut densities: Vec<usize> = Vec::new();
        let mut i: usize = 0;
        while i < n
            invariant
                n == agents@.len(),
                i <= n,
                ids@.len() == i,
                positions@.len() == i,
                velocities@.len() == i,
                speeds@.len() == i,
                densities@.len() == i,
                forall|j: int|
                    0 <= j < i ==> #[trigger] ids@[j] == j && positions@[j] == agents@[j].position.0
                        && velocities@[j] == agents@[j].velocity.0 && speeds@[j]
                        == agents@[j].speed.0.value && densities@[j] == agents@[j].density.value,
            decreases n - i,
        {
            let a: Agent = agents[i];
            ids.push(i);
            positions.push(a.position.0);
            velocities.push(a.velocity.0);
            speeds.push(a.speed.0.value);
            densities.push(a.density.value);
            i += 1;
        }
        SimulatorOutput { ids, positions, velocities, speeds, densities }
    }
}

} // verus!
