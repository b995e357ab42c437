use crate::components::Density;
use crate::components::Position;
use crate::components::Social;
use crate::components::Speed;
use crate::components::Stress;
use crate::components::TargetSpeed;
use crate::components::TargetVelocity;
use crate::components::Velocity;
use crate::config::Config;
use crate::config::MAX_ENTITY_COUNT;
use crate::rng::shuffle_vec;
use crate::vec2::unit_band;
use crate::vec2::Vec2;
use crate::world::Agent;
use crate::world::World;
use vstd::prelude::*;

verus! {

/// What every freshly spawned agent looks like: at rest somewhere inside
/// the arena, with near-unit random headings, a random desired speed, the
/// baseline stress, and no neighbors recorded yet.
pub open spec fn spawned_ok(a: Agent, cfg: Config) -> bool {
    &&& a.wf()
    &&& 0 <= a.position.0.x < cfg.width
    &&& 0 <= a.position.0.y < cfg.height
    &&& unit_band(a.velocity.0)
    &&& unit_band(a.target_velocity.0)
    &&& a.speed.0.value == 0
    &&& 10_000 <= a.target_speed.0.value < 100_000
    &&& a.stress.0.value == 100
    &&& a.density.value == 0
    &&& !a.social.is_in_group
}

/// Creation and removal of agents.
#[derive(Debug)]
pub struct Fish;

impl Fish {
    /// Spawn `amount` agents at rest: a random position inside the arena, a
    /// random heading and desired heading, speed zero with a random desired
    /// speed, baseline stress, no neighbors yet.
    pub fn add(world: &mut World, amount: usize, cfg: Config)
        requires
            old(world).wf(),
            cfg.wf(),
            old(world).agents@.len() + amount <= MAX_ENTITY_COUNT,
        ensures
            final(world).wf(),
            final(world).agents@.len() == old(world).agents@.len() + amount,
            final(world).agents@.subrange(0, old(world).agents@.len() as int) == old(
                world,
            ).agents@,
            final(world).config == old(world).config,
            final(world).delta_time == old(world).delta_time,
            final(world).chunks == old(world).chunks,
            forall|i: int|
                old(world).agents@.len() <= i < final(world).agents@.len() ==> spawned_ok(
                    #[trigger] final(world).agents@[i],
                    cfg,
                ),
    {
        let mut k: usize = 0;
        while k < amount
            invariant
                old(world).wf(),
                cfg.wf(),
                old(world).agents@.len() + amount <= MAX_ENTITY_COUNT,
                k <= amount,
                world.agents@.len() == old(world).agents@.len() + k,
                world.agents@.subrange(0, old(world).agents@.len() as int) == old(world).agents@,
                world.config == old(world).config,
                world.delta_time == old(world).delta_time,
                world.chunks == old(world).chunks,
                forall|i: int|
                    old(world).agents@.len() <= i < world.agents@.len() ==> spawned_ok(
                        #[trigger] world.agents@[i],
                        cfg,
                    ),
            decreases amount - k,
        {
            let ghost before = world.agents@;
            let position = Vec2::new_random(0, cfg.width, 0, cfg.height);
            let agent = Agent {
                position: Position(position),
                velocity: Velocity::new(),
                target_velocity: TargetVelocity(Vec2::random_dir()),
                speed: Speed::new_zero(),
                target_speed: TargetSpeed(crate::scalar::Scalar::new_random(10_000, 100_000)),
                stress: Stress::new(100),
                density: Density { value: 0 },
                social: Social { is_in_group: false },
            };
            world.agents.push(agent);
            proof {
                assert(world.agents@.subrange(0, old(world).agents@.len() as int) =~= before
                    .subrange(0, old(world).agents@.len() as int));
            }
            k += 1;
        }
        proof {
            assert forall|i: int| 0 <= i < world.agents@.len() implies (
            #[trigger] world.agents@[i]).wf() by {
                if i < old(world).agents@.len() {
                    assert(world.agents@.subrange(0, old(world).agents@.len() as int)[i]
                        == world.agents@[i]);
                }
            }
        }
    }

    /// Remove a uniformly random subset of `amount` agents (all of them when
    /// fewer live): the store is shuffled and the tail dropped. Every
    /// survivor is one of the previous agents.
    pub fn remove(world: &mut World, amount: usize)
        requires
            old(world).wf(),
        ensures
            final(world).wf(),
            final(world).agents@.len() == if amount <= old(world).agents@.len() {
                old(world).agents@.len() - amount
            } else {
                0int
            },
            forall|j: int|
                0 <= j < final(world).agents@.len() ==> old(world).agents@.contains(
                    #[trigger] final(world).agents@[j],
                ),
            final(world).config == old(world).config,
            final(world).delta_time == old(world).delta_time,
            final(world).chunks == old(world).chunks,
    {
        broadcast use vstd::seq_lib::group_to_multiset_ensures;

        let n: usize = world.agents.len();
        let count: usize = if amount < n {
            amount
        } else {
            n
        };
        shuffle_vec(&mut world.agents);
        let ghost shuffled = world.agents@;
        world.agents.truncate(n - count);
        proof {
            assert forall|j: int| 0 <= j < world.agents@.len() implies old(world).agents@.contains(
                #[trigger] world.agents@[j],
            ) by {
                assert(world.agents@[j] == shuffled[j]);
                assert(shuffled.contains(shuffled[j]));
                assert(shuffled.to_multiset().count(shuffled[j]) > 0);
                assert(old(world).agents@.to_multiset().count(shuffled[j]) > 0);
            }
        }
    }
}

} // verus!
