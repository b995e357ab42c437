use crate::chunks::Chunks;
use crate::config::Config;
use crate::delta_time::DeltaTime;
use crate::error::Error;
use crate::fish::Fish;
use crate::simulator_output::SimulatorOutput;
use crate::system_bundle::SystemBundle;
use crate::world::World;
use vstd::prelude::*;
use vstd::string::StringExecFns;

verus! {

/// The simulation façade: owns the agent store and the singletons, runs the
/// tick pipeline once per invocation, exports a snapshot, and applies
/// configuration updates (including population resizing) between ticks.
#[derive(Debug)]
pub struct FishShoalSimulator {
    pub world: World,
    pub paused: bool,
}

impl FishShoalSimulator {
    /// The store is well formed and holds exactly the configured population.
    pub open spec fn wf(self) -> bool {
        &&& self.world.wf()
        &&& self.world.agents@.len() == self.world.config.entity_count
    }

    /// A simulator over the default configuration, populated with its
    /// configured number of freshly spawned agents, an index sized to the
    /// attraction radius, and a clock that has not yet measured anything.
    /// Construction cannot fail: the pipeline is a static list of stages,
    /// there is nothing to register.
    pub fn new() -> (r: Result<FishShoalSimulator, Error>)
        ensures
            r is Ok,
            r->Ok_0.wf(),
            !r->Ok_0.paused,
            r->Ok_0.world.config == Config::spec_default(),
            r->Ok_0.world.chunks.chunk_size == r->Ok_0.world.config.attraction_radius,
            r->Ok_0.world.chunks.chunks@ == Map::<u64, Vec<usize>>::empty(),
            r->Ok_0.world.delta_time.delta == 0,
            r->Ok_0.world.agents@.len() == 500,
            forall|i: int|
                0 <= i < r->Ok_0.world.agents@.len() ==> crate::fish::spawned_ok(
                    #[trigger] r->Ok_0.world.agents@[i],
                    r->Ok_0.world.config,
                ),
    {
        let cfg: Config = Config::default();
        let mut world: World = World {
            agents: Vec::new(),
            config: cfg,
            delta_time: DeltaTime::default(),
            chunks: Chunks::new(cfg.attraction_radius),
        };
        Fish::add(&mut world, cfg.entity_count, cfg);
        Ok(FishShoalSimulator { world, paused: false })
    }

    /// Advance one tick — unless paused — and export the snapshot the caller
    /// renders. Always succeeds; after an unpaused tick every agent stands
    /// strictly inside the arena, and a lone agent has density zero and is
    /// not social.
    pub fn run(&mut self) -> (r: Result<SimulatorOutput, Error>)
        requires
            old(self).wf(),
        ensures
            r is Ok,
            final(self).wf(),
            final(self).paused == old(self).paused,
            final(self).world.config == old(self).world.config,
            final(self).world.agents@.len() == old(self).world.agents@.len(),
            r->Ok_0.reflects(final(self).world.agents@),
            old(self).paused ==> final(self).world.agents@ == old(self).world.agents@,
            !old(self).paused ==> ({
                let w0 = old(self).world;
                let w1 = final(self).world;
                crate::system_bundle::tick_stages(
                    w0.agents@,
                    w1.agents@,
                    w1.chunks,
                    w1.config,
                    w1.delta_time.delta as int,
                ) && crate::load_chunks::indexes(w1.chunks, w0.agents@)
            }),
            !old(self).paused ==> forall|i: int|
                0 <= i < final(self).world.agents@.len() ==> 0 < (
                #[trigger] final(self).world.agents@[i]).position.0.x
                    < final(self).world.config.width && 0
                    < final(self).world.agents@[i].position.0.y < final(self).world.config.height,
            !old(self).paused && old(self).world.agents@.len() == 1 ==> ({
                let a = final(self).world.agents@[0];
                a.density.value == 0 && !a.social.is_in_group
            }),
    {
        if !self.paused {
            SystemBundle::run(&mut self.world);
        }
        Ok(SimulatorOutput::build(&self.world.agents))
    }

    /// Replace the configuration for the next tick: a configuration outside
    /// the machine limits is rejected with `Error::Config` and nothing
    /// changes; otherwise it takes effect immediately, agents are spawned or
    /// a random subset removed to meet the new population (a population
    /// already met leaves the store untouched), and the pause flag follows
    /// the new configuration.
    pub fn update_config(&mut self, new_cfg: Config) -> (r: Result<(), Error>)
        requires
            old(self).wf(),
        ensures
            final(self).wf(),
            r is Ok <==> new_cfg.wf(),
            !new_cfg.wf() ==> *final(self) == *old(self) && r->Err_0 is Config,
            new_cfg.wf() ==> final(self).world.config == new_cfg && final(self).paused
                == new_cfg.paused && final(self).world.agents@.len() == new_cfg.entity_count
                && final(self).world.delta_time == old(self).world.delta_time
                && final(self).world.chunks == old(self).world.chunks,
            new_cfg.wf() && new_cfg.entity_count == old(self).world.config.entity_count ==> ({
                final(self).world.agents@ == old(self).world.agents@
            }),
            new_cfg.wf() && new_cfg.entity_count > old(self).world.config.entity_count ==> ({
                let before = old(self).world.agents@;
                let after = final(self).world.agents@;
                after.subrange(0, before.len() as int) == before && (forall|i: int|
                    before.len() <= i < after.len() ==> crate::fish::spawned_ok(
                        #[trigger] after[i],
                        new_cfg,
                    ))
            }),
            new_cfg.wf() && new_cfg.entity_count < old(self).world.config.entity_count ==> ({
                let before = old(self).world.agents@;
                let after = final(self).world.agents@;
                forall|j: int| 0 <= j < after.len() ==> before.contains(#[trigger] after[j])
            }),
    {
        if !new_cfg.validate() {
            return Err(Error::Config(String::from_str("rejected: out of machine limits")));
        }
        let old_count: usize = self.world.config.entity_count;
        self.world.config = new_cfg;
        if new_cfg.entity_count > old_count {
            Fish::add(&mut self.world, new_cfg.entity_count - old_count, new_cfg);
        } else if new_cfg.entity_count < old_count {
            Fish::remove(&mut self.world, old_count - new_cfg.entity_count);
        }
        self.paused = new_cfg.paused;
        Ok(())
    }
}

} // verus!
