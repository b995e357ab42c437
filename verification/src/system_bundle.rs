use crate::config::Config;
use crate::chunks::Chunks;
use crate::delta_time::MAX_DELTA;
use crate::lerp_to_target::smoothed;
use crate::lerp_to_target::LerpToTarget;
use crate::load_chunks::indexes;
use crate::load_chunks::LoadChunks;
use crate::motion::moved;
use crate::motion::Motion;
use crate::out_of_bound::wrapped;
use crate::out_of_bound::OutOfBound;
use crate::random_behavior::idle_step_ok;
use crate::random_behavior::RandomBehavior;
use crate::swarming::query_set;
use crate::swarming::swarm_step_ok;
use crate::swarming::Swarming;
use crate::world::Agent;
use crate::world::World;
use vstd::prelude::*;

verus! {

/// The stores a tick passes through, stage by stage: `m` after motion, `w`
/// after the boundary wrap, `l` after smoothing, `r` after idle
/// randomization, and `agents1` after swarming against the index `chunks`
/// (which stage two rebuilt from the start-of-tick positions in `agents0`).
pub open spec fn stage_chain(
    agents0: Seq<Agent>,
    m: Seq<Agent>,
    w: Seq<Agent>,
    l: Seq<Agent>,
    r: Seq<Agent>,
    agents1: Seq<Agent>,
    chunks: Chunks,
    cfg: Config,
    delta: int,
) -> bool {
    &&& m.len() == agents0.len()
    &&& w.len() == agents0.len()
    &&& l.len() == agents0.len()
    &&& r.len() == agents0.len()
    &&& agents1.len() == agents0.len()
    &&& forall|i: int| 0 <= i < agents0.len() ==> moved(agents0[i], #[trigger] m[i], delta)
    &&& forall|i: int| 0 <= i < agents0.len() ==> wrapped(cfg, m[i], #[trigger] w[i])
    &&& forall|i: int| 0 <= i < agents0.len() ==> smoothed(w[i], #[trigger] l[i], delta)
    &&& forall|i: int| 0 <= i < agents0.len() ==> idle_step_ok(l[i], #[trigger] r[i])
    &&& forall|i: int|
        0 <= i < agents0.len() ==> swarm_step_ok(r, i, #[trigger] agents1[i], chunks, cfg)
}

/// One tick relates the start store to the end store through the five
/// per-agent stages in their fixed order, over the freshly rebuilt index.
pub open spec fn tick_stages(
    agents0: Seq<Agent>,
    agents1: Seq<Agent>,
    chunks: Chunks,
    cfg: Config,
    delta: int,
) -> bool {
    exists|m: Seq<Agent>, w: Seq<Agent>, l: Seq<Agent>, r: Seq<Agent>|
        #[trigger] stage_chain(agents0, m, w, l, r, agents1, chunks, cfg, delta)
}

/// The tick pipeline: the fixed, ordered list of update stages, run once per
/// simulator invocation. No runtime registry — the order is the program
/// text.
#[derive(Debug)]
pub struct SystemBundle;

impl SystemBundle {
    /// One tick: measure the clock, rebuild the spatial index from current
    /// positions, then integrate motion, wrap at the boundary, smooth toward
    /// targets, roll idle randomization, and finally pick new targets by
    /// swarming. Afterwards every agent stands strictly inside the arena,
    /// and a lone agent is never social and has density zero.
    pub fn run(world: &mut World)
        requires
            old(world).wf(),
        ensures
            final(world).wf(),
            final(world).agents@.len() == old(world).agents@.len(),
            final(world).config == old(world).config,
            0 <= final(world).delta_time.delta <= MAX_DELTA,
            final(world).chunks.chunk_size == final(world).config.attraction_radius,
            indexes(final(world).chunks, old(world).agents@),
            tick_stages(
                old(world).agents@,
                final(world).agents@,
                final(world).chunks,
                final(world).config,
                final(world).delta_time.delta as int,
            ),
            forall|i: int|
                0 <= i < final(world).agents@.len() ==> 0 < (
                #[trigger] final(world).agents@[i]).position.0.x < final(world).config.width && 0
                    < final(world).agents@[i].position.0.y < final(world).config.height,
            old(world).agents@.len() == 1 ==> final(world).agents@[0].density.value == 0
                && !final(world).agents@[0].social.is_in_group,
    {
        world.delta_time.calc();
        LoadChunks::system(&world.agents, &world.config, &mut world.chunks);
        let ghost at_rebuild = world.agents@;
        Motion::system(&mut world.agents, &world.delta_time);
        let ghost after_motion = world.agents@;
        proof {
            assert forall|i: int| 0 <= i < world.agents@.len() implies -1_000_000_000 <= (
            #[trigger] world.agents@[i]).position.0.x <= 1_000_000_000 && -1_000_000_000
                <= world.agents@[i].position.0.y <= 1_000_000_000 by {
                assert(at_rebuild[i].wf());
            }
        }
        OutOfBound::system(&mut world.agents, &world.config);
        let ghost after_wrap = world.agents@;
        proof {
            assert forall|i: int| 0 <= i < world.agents@.len() implies (
            #[trigger] world.agents@[i]).wf() by {
                assert(at_rebuild[i].wf());
            }
        }
        LerpToTarget::system(&mut world.agents, &world.delta_time);
        let ghost after_lerp = world.agents@;
        proof {
            assert forall|i: int| 0 <= i < world.agents@.len() implies (
            #[trigger] world.agents@[i]).position == after_wrap[i].position by {
                assert(after_wrap[i].wf());
            }
        }
        RandomBehavior::system(&mut world.agents, &world.config);
        let ghost before_swarm = world.agents@;
        proof {
            assert forall|i: int| 0 <= i < world.agents@.len() implies (
            #[trigger] world.agents@[i]).wf() && world.agents@[i].position
                == after_wrap[i].position by {
                assert(crate::random_behavior::idle_step_ok(after_lerp[i], world.agents@[i]));
            }
        }
        proof {
            assert forall|k: u64, id: usize| #[trigger] world.chunks.bucket(k as int).contains(id)
                implies id < world.agents@.len() by {
                assert(indexes(world.chunks, at_rebuild));
            }
        }
        Swarming::system(&mut world.agents, &world.chunks, &world.config);
        proof {
            assert forall|i: int| 0 <= i < world.agents@.len() implies 0 < (
            #[trigger] world.agents@[i]).position.0.x < world.config.width && 0
                < world.agents@[i].position.0.y < world.config.height by {
                assert(swarm_step_ok(
                    before_swarm,
                    i,
                    world.agents@[i],
                    world.chunks,
                    world.config,
                ));
                assert(world.agents@[i].position == before_swarm[i].position);
                assert(before_swarm[i].position == after_wrap[i].position);
            }
            if old(world).agents@.len() == 1 {
                assert(swarm_step_ok(
                    before_swarm,
                    0,
                    world.agents@[0],
                    world.chunks,
                    world.config,
                ));
                let o = before_swarm[0];
                let q = query_set(world.chunks, world.config, o.position.0, 0);
                let own = world.chunks.bucket(
                    world.chunks.spec_chunk_id(o.position.0),
                ).to_set().remove(0);
                assert(own =~= Set::<usize>::empty()) by {
                    assert forall|id: usize| !own.contains(id) by {
                        if own.contains(id) {
                            world.chunks.lemma_chunk_id_in_range(o.position.0);
                            let key = world.chunks.spec_chunk_id(o.position.0);
                            assert(world.chunks.bucket((key as u64) as int).contains(id));
                            assert(id < 1);
                        }
                    }
                }
                assert(q =~= Set::<usize>::empty()) by {
                    assert forall|id: usize| !q.contains(id) by {
                        if q.contains(id) {
                            if world.chunks.neighbor_union(
                                world.config,
                                o.position.0,
                            ).contains(id) {
                                crate::swarming::lemma_union_member_in_bucket(
                                    world.chunks,
                                    world.config,
                                    o.position.0,
                                    id,
                                );
                                assert(id < 1);
                            }
                        }
                    }
                }
                assert(world.agents@[0] == crate::swarming::idle_outcome(o));
            }
            let ghost dt = world.delta_time.delta as int;
            assert(stage_chain(
                old(world).agents@,
                after_motion,
                after_wrap,
                after_lerp,
                before_swarm,
                world.agents@,
                world.chunks,
                world.config,
                dt,
            )) by {
                assert forall|i: int| 0 <= i < old(world).agents@.len() implies moved(
                    old(world).agents@[i],
                    #[trigger] after_motion[i],
                    dt,
                ) by {
                    assert(at_rebuild[i] == old(world).agents@[i]);
                }
                assert forall|i: int| 0 <= i < old(world).agents@.len() implies wrapped(
                    world.config,
                    after_motion[i],
                    #[trigger] after_wrap[i],
                ) by {
                    assert(after_motion[i] == after_motion[i]);
                }
                assert forall|i: int| 0 <= i < old(world).agents@.len() implies smoothed(
                    after_wrap[i],
                    #[trigger] after_lerp[i],
                    dt,
                ) by {
                    assert(after_wrap[i] == after_wrap[i]);
                }
                assert forall|i: int| 0 <= i < old(world).agents@.len() implies idle_step_ok(
                    after_lerp[i],
                    #[trigger] before_swarm[i],
                ) by {
                    assert(after_lerp[i] == after_lerp[i]);
                }
                assert forall|i: int| 0 <= i < old(world).agents@.len() implies swarm_step_ok(
                    before_swarm,
                    i,
                    #[trigger] world.agents@[i],
                    world.chunks,
                    world.config,
                ) by {
                    assert(before_swarm[i] == before_swarm[i]);
                }
            }
            assert(tick_stages(
                old(world).agents@,
                world.agents@,
                world.chunks,
                world.config,
                dt,
            ));
            assert(indexes(world.chunks, old(world).agents@)) by {
                assert(at_rebuild =~= old(world).agents@);
            }
        }
    }
}

} // verus!
