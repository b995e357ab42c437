use crate::chunks::Chunks;
use crate::components::Density;
use crate::components::Social;
use crate::components::Stress;
use crate::components::TargetSpeed;
use crate::components::TargetVelocity;
use crate::config::Config;
use crate::ids::merge_unique;
use crate::ids::remove_id;
use crate::num::SCALE;
use crate::scalar::Scalar;
use crate::scalar::FP_LIMIT;
use crate::schooling::school_priority;
use crate::schooling::SchoolingMechanism;
use crate::schooling::MAX_NEIGHBORS;
use crate::vec2::Vec2;
use crate::world::Agent;
use vstd::prelude::*;

verus! {

/// The ids the spatial query yields for agent `i` at position `pos`: its own
/// cell without itself and, when that found fewer than `MAX_NEIGHBORS`, the
/// eight surrounding cells as well (again without itself).
pub open spec fn query_set(chunks: Chunks, cfg: Config, pos: Vec2, i: usize) -> Set<usize> {
    let own = chunks.bucket(chunks.spec_chunk_id(pos)).to_set().remove(i);
    if own.len() < MAX_NEIGHBORS {
        (own + chunks.neighbor_union(cfg, pos)).remove(i)
    } else {
        own
    }
}

/// The positions recorded for a list of neighbor ids, read from the
/// start-of-stage snapshot.
pub open spec fn snapshot_positions(agents: Seq<Agent>, ns: Seq<usize>) -> Seq<(usize, Vec2)> {
    Seq::new(ns.len(), |j: int| (ns[j], agents[ns[j] as int].position.0))
}

/// The desired headings recorded for a list of neighbor ids, read from the
/// start-of-stage snapshot.
pub open spec fn snapshot_velocities(agents: Seq<Agent>, ns: Seq<usize>) -> Seq<(usize, Vec2)> {
    Seq::new(ns.len(), |j: int| (ns[j], agents[ns[j] as int].target_velocity.0))
}

/// An agent with no neighbors: not social, density zero, a fixed fallback
/// desired speed of 50 and stress 0.1, heading targets untouched.
pub open spec fn idle_outcome(o: Agent) -> Agent {
    Agent {
        density: Density { value: 0 },
        social: Social { is_in_group: false },
        target_speed: TargetSpeed(Scalar { value: 50_000 }),
        stress: Stress(Scalar { value: 100 }),
        ..o
    }
}

/// What the swarming stage leaves of agent `i`: the spatial query decides
/// its density and social flag, and with any neighbor present the schooling
/// mechanism — run on a duplicate-free neighbor list carrying exactly the
/// queried ids with their snapshot positions and headings — decides its
/// steering targets. The order of the neighbor list is the one the index's
/// buckets produced.
pub open spec fn swarm_step_ok(
    agents0: Seq<Agent>,
    i: int,
    a: Agent,
    chunks: Chunks,
    cfg: Config,
) -> bool {
    let o = agents0[i];
    let q = query_set(chunks, cfg, o.position.0, i as usize);
    if q == Set::<usize>::empty() {
        a == idle_outcome(o)
    } else {
        exists|ns: Vec<usize>, m: SchoolingMechanism|
            {
                &&& ns@.no_duplicates()
                &&& ns@.to_set() == q
                &&& forall|j: int| 0 <= j < ns@.len() ==> (#[trigger] ns@[j]) < agents0.len()
                &&& m.position == o.position.0
                &&& m.velocity == o.target_velocity.0
                &&& m.speed == o.target_speed.0
                &&& m.stress == o.stress.0
                &&& m.others_positions@ == snapshot_positions(agents0, ns@)
                &&& m.others_velocities@ == snapshot_velocities(agents0, ns@)
                &&& m.avoidance_radius == cfg.avoidance_radius
                &&& m.alignment_radius == cfg.alignment_radius
                &&& m.attraction_radius == cfg.attraction_radius
                &&& a == (Agent {
                    target_velocity: TargetVelocity(school_priority(m).velocity),
                    target_speed: TargetSpeed(school_priority(m).speed),
                    stress: Stress(school_priority(m).stress),
                    density: Density { value: ns@.len() as usize },
                    social: Social { is_in_group: true },
                    ..o
                })
            }
    }
}

/// The swarming stage: every agent queries the spatial index around its
/// position, records how many neighbors it found, and — through the
/// schooling mechanism — picks new steering targets from their snapshot
/// positions and headings. Agents with no neighbor fall back to the fixed
/// idle state.
#[derive(Debug)]
pub struct Swarming;

impl Swarming {
    pub fn system(agents: &mut Vec<Agent>, chunks: &Chunks, cfg: &Config)
        requires
            cfg.wf(),
            chunks.wf(),
            forall|i: int| 0 <= i < old(agents)@.len() ==> (#[trigger] old(agents)@[i]).wf(),
            forall|k: u64, id: usize|
                #[trigger] chunks.bucket(k as int).contains(id) ==> id < old(agents)@.len(),
        ensures
            final(agents)@.len() == old(agents)@.len(),
            forall|i: int|
                0 <= i < old(agents)@.len() ==> swarm_step_ok(
                    old(agents)@,
                    i,
                    #[trigger] final(agents)@[i],
                    *chunks,
                    *cfg,
                ),
            forall|i: int| 0 <= i < final(agents)@.len() ==> (#[trigger] final(agents)@[i]).wf(),
    {
        broadcast use vstd::seq_lib::seq_to_set_is_finite;

        let n: usize = agents.len();
        let mut positions: Vec<Vec2> = Vec::new();
        let mut tvels: Vec<Vec2> = Vec::new();
        let mut s: usize = 0;
        while s < n
            invariant
                n == agents@.len() == old(agents)@.len(),
                agents@ == old(agents)@,
                s <= n,
                positions@.len() == s,
                tvels@.len() == s,
                forall|j: int| 0 <= j < s ==> #[trigger] positions@[j] == old(agents)@[j].position.0,
                forall|j: int|
                    0 <= j < s ==> #[trigger] tvels@[j] == old(agents)@[j].target_velocity.0,
            decreases n - s,
        {
            positions.push(agents[s].position.0);
            tvels.push(agents[s].target_velocity.0);
            s += 1;
        }
        let mut i: usize = 0;
        while i < n
            invariant
                n == agents@.len() == old(agents)@.len(),
                i <= n,
                cfg.wf(),
                chunks.wf(),
                positions@.len() == n,
                tvels@.len() == n,
                forall|j: int| 0 <= j < n ==> #[trigger] positions@[j] == old(agents)@[j].position.0,
                forall|j: int|
                    0 <= j < n ==> #[trigger] tvels@[j] == old(agents)@[j].target_velocity.0,
                forall|j: int| 0 <= j < n ==> (#[trigger] old(agents)@[j]).wf(),
                forall|k: u64, id: usize|
                    #[trigger] chunks.bucket(k as int).contains(id) ==> id < n,
                forall|j: int| i <= j < n ==> #[trigger] agents@[j] == old(agents)@[j],
                forall|j: int|
                    0 <= j < i ==> swarm_step_ok(
                        old(agents)@,
                        j,
                        #[trigger] agents@[j],
                        *chunks,
                        *cfg,
                    ),
                forall|j: int| 0 <= j < i ==> (#[trigger] agents@[j]).wf(),
            decreases n - i,
        {
            let o: Agent = agents[i];
            let ghost q = query_set(*chunks, *cfg, o.position.0, i as usize);
            let mut neighbors: Vec<usize> = chunks.load_chunk(&o.position.0);
            proof {
                chunks.lemma_chunk_id_in_range(o.position.0);
                assert forall|j: int| 0 <= j < neighbors@.len() implies (#[trigger] neighbors@[j])
                    < n by {
                    let key = chunks.spec_chunk_id(o.position.0);
                    assert(chunks.bucket((key as u64) as int).contains(neighbors@[j]));
                }
            }
            remove_id(&mut neighbors, i);
            let ghost own = chunks.bucket(chunks.spec_chunk_id(o.position.0)).to_set().remove(
                i as usize,
            );
            proof {
                neighbors@.unique_seq_to_set();
            }
            if neighbors.len() < MAX_NEIGHBORS {
                let more: Vec<usize> = chunks.load_neighbors(cfg, &o.position.0);
                proof {
                    assert forall|j: int| 0 <= j < more@.len() implies (#[trigger] more@[j])
                        < n by {
                        lemma_union_member_in_bucket(*chunks, *cfg, o.position.0, more@[j]);
                    }
                }
                merge_unique(&mut neighbors, &more);
                remove_id(&mut neighbors, i);
                proof {
                    assert(neighbors@.to_set() =~= (own + chunks.neighbor_union(*cfg, o.position.0))
                        .remove(i as usize));
                }
            }
            proof {
                assert(neighbors@.to_set() == q);
                neighbors@.unique_seq_to_set();
                chunks.lemma_chunk_id_in_range(o.position.0);
                assert forall|j: int| 0 <= j < neighbors@.len() implies (#[trigger] neighbors@[j])
                    < n by {
                    let id = neighbors@[j];
                    assert(neighbors@.to_set().contains(id));
                    if own.contains(id) {
                        let key = chunks.spec_chunk_id(o.position.0);
                        assert(chunks.bucket(key).to_set().contains(id));
                        assert(chunks.bucket((key as u64) as int).contains(id));
                    } else {
                        assert(chunks.neighbor_union(*cfg, o.position.0).contains(id));
                        lemma_union_member_in_bucket(*chunks, *cfg, o.position.0, id);
                    }
                }
            }
            let density: usize = neighbors.len();
            let mut a: Agent = o;
            a.density = Density { value: density };
            if density == 0 {
                a.social.set_alone();
                a.target_speed = TargetSpeed(Scalar::new(50_000));
                a.stress = Stress(Scalar::new(100));
                agents[i] = a;
                proof {
                    assert(q =~= Set::<usize>::empty());
                    assert(agents@[i as int] == idle_outcome(o));
                }
            } else {
                a.social.set_grouped();
                let mut ops: Vec<(usize, Vec2)> = Vec::new();
                let mut ovs: Vec<(usize, Vec2)> = Vec::new();
                let mut t: usize = 0;
                while t < neighbors.len()
                    invariant
                        t <= neighbors@.len(),
                        positions@.len() == n,
                        tvels@.len() == n,
                        forall|j: int|
                            0 <= j < n ==> #[trigger] positions@[j] == old(agents)@[j].position.0,
                        forall|j: int|
                            0 <= j < n ==> #[trigger] tvels@[j] == old(
                                agents,
                            )@[j].target_velocity.0,
                        forall|j: int|
                            0 <= j < neighbors@.len() ==> (#[trigger] neighbors@[j]) < n,
                        ops@ == snapshot_positions(old(agents)@, neighbors@.subrange(0, t as int)),
                        ovs@ == snapshot_velocities(old(agents)@, neighbors@.subrange(0, t as int)),
                    decreases neighbors@.len() - t,
                {
                    let id: usize = neighbors[t];
                    ops.push((id, positions[id]));
                    ovs.push((id, tvels[id]));
                    proof {
                        assert(ops@ =~= snapshot_positions(
                            old(agents)@,
                            neighbors@.subrange(0, t as int + 1),
                        ));
                        assert(ovs@ =~= snapshot_velocities(
                            old(agents)@,
                            neighbors@.subrange(0, t as int + 1),
                        ));
                    }
                    t += 1;
                }
                proof {
                    assert(neighbors@.subrange(0, neighbors@.len() as int) =~= neighbors@);
                }
                let mut m: SchoolingMechanism = SchoolingMechanism::setup(
                    o.position.0,
                    o.target_velocity.0,
                    o.target_speed.0,
                    o.stress.0,
                    ops,
                    ovs,
                    cfg.avoidance_radius,
                    cfg.alignment_radius,
                    cfg.attraction_radius,
                );
                let ghost m0 = m;
                proof {
                    assert forall|j: int|
                        0 <= j < m0.others_positions@.len() implies -FP_LIMIT <= (
                    #[trigger] m0.others_positions@[j]).1.x <= FP_LIMIT && -FP_LIMIT
                        <= m0.others_positions@[j].1.y <= FP_LIMIT by {
                        let id = neighbors@[j];
                        assert(m0.others_positions@[j].1 == old(agents)@[id as int].position.0);
                        assert(old(agents)@[id as int].wf());
                    }
                    assert forall|j: int|
                        0 <= j < m0.others_velocities@.len() implies -FP_LIMIT <= (
                    #[trigger] m0.others_velocities@[j]).1.x <= FP_LIMIT && -FP_LIMIT
                        <= m0.others_velocities@[j].1.y <= FP_LIMIT by {
                        let id = neighbors@[j];
                        assert(m0.others_velocities@[j].1 == old(
                            agents,
                        )@[id as int].target_velocity.0);
                        assert(old(agents)@[id as int].wf());
                    }
                    assert forall|j: int|
                        0 <= j < m0.others_positions@.len() implies crate::schooling::vel_lookup(
                        m0.others_velocities@,
                        (#[trigger] m0.others_positions@[j]).0,
                    ) is Some by {
                        assert(m0.others_velocities@[j].0 == m0.others_positions@[j].0);
                        crate::schooling::lemma_vel_lookup_found(m0.others_velocities@, j);
                    }
                    assert(m0.wf());
                }
                if !m.avoidance() {
                    if !m.alignment() {
                        m.attraction();
                    }
                }
                proof {
                    assert(m == school_priority(m0));
                }
                let mut tv: Vec2 = a.target_velocity.0;
                let mut sp: Scalar = a.target_speed.0;
                let mut st: Scalar = a.stress.0;
                m.set_behavior(&mut tv, &mut sp, &mut st);
                a.target_velocity = TargetVelocity(tv);
                a.target_speed = TargetSpeed(sp);
                a.stress = Stress(st);
                agents[i] = a;
                proof {
                    assert(q != Set::<usize>::empty()) by {
                        assert(neighbors@.to_set().contains(neighbors@[0]));
                    }
                    assert(swarm_step_ok(old(agents)@, i as int, agents@[i as int], *chunks, *cfg))
                        by {
                        assert(agents@[i as int] == (Agent {
                            target_velocity: TargetVelocity(school_priority(m0).velocity),
                            target_speed: TargetSpeed(school_priority(m0).speed),
                            stress: Stress(school_priority(m0).stress),
                            density: Density { value: neighbors@.len() as usize },
                            social: Social { is_in_group: true },
                            ..o
                        }));
                    }
                    assert(agents@[i as int].wf()) by {
                        assert(-SCALE <= m.velocity.x <= SCALE || m.velocity == m0.velocity);
                        assert(school_priority(m0).speed.value == 100_000 || school_priority(
                            m0,
                        ).speed.value == 75_000 || school_priority(m0).speed == m0.speed);
                        assert(school_priority(m0).stress.value == 950 || school_priority(
                            m0,
                        ).stress.value == 330 || school_priority(m0).stress.value == 500
                            || school_priority(m0).stress == m0.stress);
                    }
                }
            }
            i += 1;
        }
    }
}

/// A wrapped cell index is a valid cell coordinate whatever the shift was.
proof fn lemma_wrap_in_range(c: int, n: int)
    requires
        1 <= n,
    ensures
        0 <= crate::chunks::wrap_cell(c, n) < n,
{
    if c >= 0 {
        vstd::arithmetic::div_mod::lemma_mod_division_less_than_divisor(c, n);
    }
}

/// The key of any wrapped neighbor cell is a valid `u64`.
proof fn lemma_wrapped_id_in_range(chunks: Chunks, cfg: Config, pos: Vec2, dx: int, dy: int)
    requires
        chunks.wf(),
        cfg.wf(),
    ensures
        0 <= chunks.wrapped_id(cfg, pos, dx, dy) <= u64::MAX,
        chunks.wrapped_id(cfg, pos, dx, dy) == (chunks.wrapped_id(cfg, pos, dx, dy) as u64) as int,
{
    let rw = chunks.region_w(cfg);
    let rh = chunks.region_h(cfg);
    vstd::arithmetic::div_mod::lemma_div_nonincreasing(cfg.width as int, chunks.chunk_size as int);
    vstd::arithmetic::div_mod::lemma_div_pos_is_pos(cfg.width as int, chunks.chunk_size as int);
    vstd::arithmetic::div_mod::lemma_div_nonincreasing(cfg.height as int, chunks.chunk_size as int);
    vstd::arithmetic::div_mod::lemma_div_pos_is_pos(cfg.height as int, chunks.chunk_size as int);
    assert(1 <= rw <= 1_000_000_000 && 1 <= rh <= 1_000_000_000);
    let wx = crate::chunks::wrap_cell(chunks.spec_cell_x(pos) + dx, rw);
    let wy = crate::chunks::wrap_cell(chunks.spec_cell_y(pos) + dy, rh);
    lemma_wrap_in_range(chunks.spec_cell_x(pos) + dx, rw);
    lemma_wrap_in_range(chunks.spec_cell_y(pos) + dy, rh);
    assert(0 <= crate::chunks::pair_id(wx, wy) <= u64::MAX) by (nonlinear_arith)
        requires
            0 <= wx <= 1_000_000_000,
            0 <= wy <= 1_000_000_000,
            crate::chunks::pair_id(wx, wy) == (wx + wy) * (wx + wy + 1) / 2 + wy,
    ;
}

/// Everything `load_neighbors` returns came out of one of the eight wrapped
/// buckets.
pub(crate) proof fn lemma_union_member_in_bucket(chunks: Chunks, cfg: Config, pos: Vec2, id: usize)
    requires
        chunks.wf(),
        cfg.wf(),
        chunks.neighbor_union(cfg, pos).contains(id),
    ensures
        exists|k: u64| #[trigger] chunks.bucket(k as int).contains(id),
{
    if chunks.bucket(chunks.wrapped_id(cfg, pos, -1, -1)).to_set().contains(id) {
        lemma_wrapped_id_in_range(chunks, cfg, pos, -1, -1);
        let k = chunks.wrapped_id(cfg, pos, -1, -1) as u64;
        assert(chunks.bucket(k as int).contains(id));
    } else if chunks.bucket(chunks.wrapped_id(cfg, pos, -1, 0)).to_set().contains(id) {
        lemma_wrapped_id_in_range(chunks, cfg, pos, -1, 0);
        let k = chunks.wrapped_id(cfg, pos, -1, 0) as u64;
        assert(chunks.bucket(k as int).contains(id));
    } else if chunks.bucket(chunks.wrapped_id(cfg, pos, -1, 1)).to_set().contains(id) {
        lemma_wrapped_id_in_range(chunks, cfg, pos, -1, 1);
        let k = chunks.wrapped_id(cfg, pos, -1, 1) as u64;
        assert(chunks.bucket(k as int).contains(id));
    } else if chunks.bucket(chunks.wrapped_id(cfg, pos, 0, -1)).to_set().contains(id) {
        lemma_wrapped_id_in_range(chunks, cfg, pos, 0, -1);
        let k = chunks.wrapped_id(cfg, pos, 0, -1) as u64;
        assert(chunks.bucket(k as int).contains(id));
    } else if chunks.bucket(chunks.wrapped_id(cfg, pos, 0, 1)).to_set().contains(id) {
        lemma_wrapped_id_in_range(chunks, cfg, pos, 0, 1);
        let k = chunks.wrapped_id(cfg, pos, 0, 1) as u64;
        assert(chunks.bucket(k as int).contains(id));
    } else if chunks.bucket(chunks.wrapped_id(cfg, pos, 1, -1)).to_set().contains(id) {
        lemma_wrapped_id_in_range(chunks, cfg, pos, 1, -1);
        let k = chunks.wrapped_id(cfg, pos, 1, -1) as u64;
        assert(chunks.bucket(k as int).contains(id));
    } else if chunks.bucket(chunks.wrapped_id(cfg, pos, 1, 0)).to_set().contains(id) {
        lemma_wrapped_id_in_range(chunks, cfg, pos, 1, 0);
        let k = chunks.wrapped_id(cfg, pos, 1, 0) as u64;
        assert(chunks.bucket(k as int).contains(id));
    } else {
        assert(chunks.bucket(chunks.wrapped_id(cfg, pos, 1, 1)).to_set().contains(id));
        lemma_wrapped_id_in_range(chunks, cfg, pos, 1, 1);
        let k = chunks.wrapped_id(cfg, pos, 1, 1) as u64;
        assert(chunks.bucket(k as int).contains(id));
    }
}

} // verus!
