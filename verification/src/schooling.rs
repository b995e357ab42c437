use crate::num::div_t;
use crate::num::SCALE;
use crate::scalar::Scalar;
use crate::scalar::FP_LIMIT;
use crate::vec2::dist;
use crate::vec2::spec_normalized;
use crate::vec2::spec_sub;
use crate::vec2::Vec2;
use vstd::prelude::*;

verus! {

/// The running means look at no more than this many neighbors; among more
/// equally placed neighbors, the order of the neighbor list decides.
pub const MAX_NEIGHBORS: usize = 6;

/// One step of the incremental running mean: the value is added in and the
/// sum immediately divided by the new count. This is deliberately not a
/// sum-then-divide-once mean; the intermediate divisions are part of the
/// behavior being modeled.
pub open spec fn mean_step(acc: (int, int, int), p: Vec2) -> (int, int, int) {
    (div_t(acc.0 + p.x, acc.2 + 1), div_t(acc.1 + p.y, acc.2 + 1), acc.2 + 1)
}

/// The accumulator after the first `i` entries: `None` entries do not
/// qualify and are skipped, and accumulation stops once `MAX_NEIGHBORS`
/// values are in.
pub open spec fn mean_fold(vals: Seq<Option<Vec2>>, i: int) -> (int, int, int)
    decreases i,
{
    if i <= 0 {
        (0, 0, 0)
    } else {
        let prev = mean_fold(vals, i - 1);
        if prev.2 >= MAX_NEIGHBORS {
            prev
        } else {
            match vals[i - 1] {
                Some(p) => mean_step(prev, p),
                None => prev,
            }
        }
    }
}

/// The accumulator stays within the bounds of the values it averages, and
/// counts at most `MAX_NEIGHBORS`; while nothing qualified it is zero.
pub proof fn lemma_mean_fold_bounds(vals: Seq<Option<Vec2>>, i: int)
    requires
        0 <= i <= vals.len(),
        forall|j: int|
            0 <= j < vals.len() && vals[j] is Some ==> -FP_LIMIT <= (#[trigger] vals[j])->0.x
                <= FP_LIMIT && -FP_LIMIT <= vals[j]->0.y <= FP_LIMIT,
    ensures
        -FP_LIMIT <= mean_fold(vals, i).0 <= FP_LIMIT,
        -FP_LIMIT <= mean_fold(vals, i).1 <= FP_LIMIT,
        0 <= mean_fold(vals, i).2 <= MAX_NEIGHBORS,
        mean_fold(vals, i).2 == 0 ==> mean_fold(vals, i).0 == 0 && mean_fold(vals, i).1 == 0,
    decreases i,
{
    if i > 0 {
        lemma_mean_fold_bounds(vals, i - 1);
        let prev = mean_fold(vals, i - 1);
        if prev.2 < MAX_NEIGHBORS && vals[i - 1] is Some {
            let p = vals[i - 1]->0;
            let c = prev.2 + 1;
            lemma_mean_coord_bound(prev.0, p.x as int, c);
            lemma_mean_coord_bound(prev.1, p.y as int, c);
        }
    }
}

/// One coordinate of a mean step stays within `FP_LIMIT` when both inputs
/// do, and the accumulator is zero while the count is.
proof fn lemma_mean_coord_bound(acc: int, v: int, c: int)
    requires
        c >= 1,
        -FP_LIMIT <= v <= FP_LIMIT,
        -FP_LIMIT <= acc <= FP_LIMIT,
        c == 1 ==> acc == 0,
    ensures
        -FP_LIMIT <= div_t(acc + v, c) <= FP_LIMIT,
{
    let s = acc + v;
    if c == 1 {
        crate::num::lemma_div_t_bounds(s, 1);
        assert(div_t(s, 1) == s);
    } else {
        if s >= 0 {
            vstd::arithmetic::div_mod::lemma_div_is_ordered_by_denominator(s, 2, c);
            vstd::arithmetic::div_mod::lemma_div_pos_is_pos(s, c);
            assert(s / 2 <= FP_LIMIT);
            vstd::arithmetic::div_mod::lemma_div_is_ordered(s, 2 * FP_LIMIT, 2);
            assert((2 * FP_LIMIT) / 2 == FP_LIMIT);
        } else {
            vstd::arithmetic::div_mod::lemma_div_is_ordered_by_denominator(-s, 2, c);
            vstd::arithmetic::div_mod::lemma_div_pos_is_pos(-s, c);
            vstd::arithmetic::div_mod::lemma_div_is_ordered(-s, 2 * FP_LIMIT, 2);
            assert((2 * FP_LIMIT) / 2 == FP_LIMIT);
        }
    }
}

/// Once the accumulator is full, later entries change nothing.
pub proof fn lemma_mean_fold_stable(vals: Seq<Option<Vec2>>, i: int, j: int)
    requires
        0 <= i <= j,
        mean_fold(vals, i).2 >= MAX_NEIGHBORS,
    ensures
        mean_fold(vals, j) == mean_fold(vals, i),
    decreases j - i,
{
    if j > i {
        lemma_mean_fold_stable(vals, i, j - 1);
    }
}

/// The accumulator has counted something exactly when some processed entry
/// qualified: a branch speaks iff a qualifying neighbor exists.
pub proof fn lemma_mean_fold_counts_iff(vals: Seq<Option<Vec2>>, i: int)
    requires
        0 <= i <= vals.len(),
    ensures
        mean_fold(vals, i).2 >= 0,
        mean_fold(vals, i).2 > 0 <==> exists|j: int| 0 <= j < i && vals[j] is Some,
    decreases i,
{
    if i > 0 {
        lemma_mean_fold_counts_iff(vals, i - 1);
        let prev = mean_fold(vals, i - 1);
        let cur = mean_fold(vals, i);
        if prev.2 >= MAX_NEIGHBORS {
            assert(cur == prev);
        } else if vals[i - 1] is Some {
            assert(cur.2 == prev.2 + 1);
        } else {
            assert forall|j: int| 0 <= j < i && vals[j] is Some implies mean_fold(vals, i).2
                > 0 by {
                assert(j < i - 1);
            }
        }
    }
}

/// The velocity recorded for `id`: the first entry of the list that carries
/// that id.
pub open spec fn vel_lookup(list: Seq<(usize, Vec2)>, id: usize) -> Option<Vec2>
    decreases list.len(),
{
    if list.len() == 0 {
        None
    } else if list[0].0 == id {
        Some(list[0].1)
    } else {
        vel_lookup(list.drop_first(), id)
    }
}

proof fn lemma_vel_lookup_step(list: Seq<(usize, Vec2)>, id: usize, i: int)
    requires
        0 <= i < list.len(),
        list[i].0 != id,
    ensures
        vel_lookup(list.skip(i), id) == vel_lookup(list.skip(i + 1), id),
{
    assert(list.skip(i).drop_first() =~= list.skip(i + 1));
    assert(list.skip(i)[0] == list[i]);
}

/// The first velocity recorded for `id`, or `None` when the list has no
/// entry for it.
fn lookup_velocity(list: &Vec<(usize, Vec2)>, id: usize) -> (r: Option<Vec2>)
    ensures
        r == vel_lookup(list@, id),
{
    let mut i: usize = 0;
    proof {
        assert(list@.skip(0) =~= list@);
    }
    while i < list.len()
        invariant
            i <= list@.len(),
            vel_lookup(list@, id) == vel_lookup(list@.skip(i as int), id),
        decreases list@.len() - i,
    {
        let pair = list[i];
        if pair.0 == id {
            proof {
                assert(list@.skip(i as int)[0] == list@[i as int]);
            }
            return Some(pair.1);
        }
        proof {
            lemma_vel_lookup_step(list@, id, i as int);
        }
        i += 1;
    }
    proof {
        assert(list@.skip(list@.len() as int) =~= Seq::<(usize, Vec2)>::empty());
    }
    None
}

/// The schooling decision algorithm: given one agent's state, its neighbors'
/// positions and headings, and the three radii, pick a steering behavior in
/// strict priority order — avoidance, then alignment, then attraction.
#[derive(Debug)]
pub struct SchoolingMechanism {
    pub position: Vec2,
    pub velocity: Vec2,
    pub speed: Scalar,
    pub stress: Scalar,
    pub others_positions: Vec<(usize, Vec2)>,
    pub others_velocities: Vec<(usize, Vec2)>,
    pub avoidance_radius: i64,
    pub alignment_radius: i64,
    pub attraction_radius: i64,
}

impl SchoolingMechanism {
    /// Coordinates within fixed-point range, headings within the unit box,
    /// and a recorded velocity for every neighbor position.
    pub open spec fn wf(self) -> bool {
        &&& -FP_LIMIT <= self.position.x <= FP_LIMIT
        &&& -FP_LIMIT <= self.position.y <= FP_LIMIT
        &&& forall|j: int|
            0 <= j < self.others_positions@.len() ==> -FP_LIMIT <= (
            #[trigger] self.others_positions@[j]).1.x <= FP_LIMIT && -FP_LIMIT
                <= self.others_positions@[j].1.y <= FP_LIMIT
        &&& forall|j: int|
            0 <= j < self.others_velocities@.len() ==> -FP_LIMIT <= (
            #[trigger] self.others_velocities@[j]).1.x <= FP_LIMIT && -FP_LIMIT
                <= self.others_velocities@[j].1.y <= FP_LIMIT
        &&& forall|j: int|
            0 <= j < self.others_positions@.len() ==> vel_lookup(
                self.others_velocities@,
                (#[trigger] self.others_positions@[j]).0,
            ) is Some
    }

    pub open spec fn avoid_qualifies(self, p: Vec2) -> bool {
        dist(self.position, p) <= self.avoidance_radius
    }

    pub open spec fn align_qualifies(self, p: Vec2) -> bool {
        dist(self.position, p) > self.avoidance_radius && dist(self.position, p)
            <= self.alignment_radius
    }

    pub open spec fn attract_qualifies(self, p: Vec2) -> bool {
        dist(self.position, p) > self.avoidance_radius && dist(self.position, p)
            > self.alignment_radius && dist(self.position, p) <= self.attraction_radius
    }

    /// The neighbor positions that qualify for avoidance, in list order.
    pub open spec fn avoid_vals(self) -> Seq<Option<Vec2>> {
        Seq::new(
            self.others_positions@.len(),
            |j: int|
                if self.avoid_qualifies(self.others_positions@[j].1) {
                    Some(self.others_positions@[j].1)
                } else {
                    None
                },
        )
    }

    /// The recorded headings of the neighbors that qualify for alignment.
    pub open spec fn align_vals(self) -> Seq<Option<Vec2>> {
        Seq::new(
            self.others_positions@.len(),
            |j: int|
                if self.align_qualifies(self.others_positions@[j].1) {
                    Some(vel_lookup(self.others_velocities@, self.others_positions@[j].0)->0)
                } else {
                    None
                },
        )
    }

    /// The neighbor positions that qualify for attraction.
    pub open spec fn attract_vals(self) -> Seq<Option<Vec2>> {
        Seq::new(
            self.others_positions@.len(),
            |j: int|
                if self.attract_qualifies(self.others_positions@[j].1) {
                    Some(self.others_positions@[j].1)
                } else {
                    None
                },
        )
    }

    /// The position to move away from: the capped running mean of the
    /// qualifying neighbors' positions.
    pub open spec fn avoid_mean(self) -> (int, int, int) {
        mean_fold(self.avoid_vals(), self.others_positions@.len() as int)
    }

    /// The heading to align with: the capped running mean of the qualifying
    /// neighbors' headings.
    pub open spec fn align_mean(self) -> (int, int, int) {
        mean_fold(self.align_vals(), self.others_positions@.len() as int)
    }

    /// The position to move toward: the capped running mean of the
    /// qualifying neighbors' positions.
    pub open spec fn attract_mean(self) -> (int, int, int) {
        mean_fold(self.attract_vals(), self.others_positions@.len() as int)
    }

    /// Avoidance speaks iff any neighbor within the avoidance radius exists:
    /// the accumulator counted at least one (`lemma_mean_fold_counts_iff`
    /// relates the count to neighbor existence).
    pub open spec fn avoid_fires(self) -> bool {
        self.avoid_mean().2 > 0
    }

    /// Alignment speaks iff any neighbor in the alignment band exists.
    pub open spec fn align_fires(self) -> bool {
        self.align_mean().2 > 0
    }

    /// Attraction speaks iff any neighbor in the attraction band exists.
    pub open spec fn attract_fires(self) -> bool {
        self.attract_mean().2 > 0
    }

    pub fn setup(
        position: Vec2,
        velocity: Vec2,
        speed: Scalar,
        stress: Scalar,
        others_positions: Vec<(usize, Vec2)>,
        others_velocities: Vec<(usize, Vec2)>,
        avoidance_radius: i64,
        alignment_radius: i64,
        attraction_radius: i64,
    ) -> (r: Self)
        ensures
            r == (SchoolingMechanism {
                position,
                velocity,
                speed,
                stress,
                others_positions,
                others_velocities,
                avoidance_radius,
                alignment_radius,
                attraction_radius,
            }),
    {
        SchoolingMechanism {
            position,
            velocity,
            speed,
            stress,
            others_positions,
            others_velocities,
            avoidance_radius,
            alignment_radius,
            attraction_radius,
        }
    }

    /// Hand the chosen behavior to the caller's component slots.
    pub fn set_behavior(&self, velocity: &mut Vec2, speed: &mut Scalar, stress: &mut Scalar)
        ensures
            *final(velocity) == self.velocity,
            *final(speed) == self.speed,
            *final(stress) == self.stress,
    {
        *velocity = self.velocity;
        *speed = self.speed;
        *stress = self.stress;
    }

    /// Steer away from the running mean of the neighbors within the
    /// avoidance radius (at most `MAX_NEIGHBORS` of them, in list order).
    /// Whenever any such neighbor exists, the new heading points from the
    /// accumulated reference position toward the agent (the zero heading
    /// when the two coincide), stress rises to 0.95 and the desired speed to
    /// 100.
    pub fn avoidance(&mut self) -> (r: bool)
        requires
            old(self).wf(),
        ensures
            final(self).wf(),
            r == old(self).avoid_fires(),
            !old(self).avoid_fires() ==> *final(self) == *old(self),
            old(self).avoid_fires() ==> -SCALE <= final(self).velocity.x <= SCALE && -SCALE
                <= final(self).velocity.y <= SCALE,
            old(self).avoid_fires() ==> *final(self) == (SchoolingMechanism {
                velocity: spec_normalized(
                    spec_sub(
                        old(self).position,
                        (Vec2 {
                            x: old(self).avoid_mean().0 as i64,
                            y: old(self).avoid_mean().1 as i64,
                        }),
                    ),
                ),
                speed: Scalar { value: 100_000 },
                stress: Scalar { value: 950 },
                ..*old(self)
            }),
    {
        let ghost vals = old(self).avoid_vals();
        proof {
            assert forall|j: int| 0 <= j < vals.len() && vals[j] is Some implies -FP_LIMIT <= (
            #[trigger] vals[j])->0.x <= FP_LIMIT && -FP_LIMIT <= vals[j]->0.y <= FP_LIMIT by {
                assert(vals[j]->0 == old(self).others_positions@[j].1);
            }
        }
        let mut acc: Vec2 = Vec2::zero();
        let mut count: i64 = 0;
        let n: usize = self.others_positions.len();
        let mut i: usize = 0;
        while i < n && count < 6
            invariant
                *self == *old(self),
                old(self).wf(),
                i <= n,
                n == self.others_positions@.len(),
                vals == old(self).avoid_vals(),
                forall|j: int|
                    0 <= j < vals.len() && vals[j] is Some ==> -FP_LIMIT <= (
                    #[trigger] vals[j])->0.x <= FP_LIMIT && -FP_LIMIT <= vals[j]->0.y <= FP_LIMIT,
                acc.x as int == mean_fold(vals, i as int).0,
                acc.y as int == mean_fold(vals, i as int).1,
                count as int == mean_fold(vals, i as int).2,
                -FP_LIMIT <= acc.x <= FP_LIMIT,
                -FP_LIMIT <= acc.y <= FP_LIMIT,
                0 <= count <= 6,
            decreases n - i,
        {
            let pair: (usize, Vec2) = self.others_positions[i];
            let d: i64 = self.position.distance(pair.1);
            if d <= self.avoidance_radius {
                proof {
                    assert(vals[i as int] == Some(pair.1));
                }
                acc = acc.add(pair.1);
                count = count + 1;
                acc = acc.div_count(count);
                proof {
                    lemma_mean_fold_bounds(vals, i as int + 1);
                }
            } else {
                proof {
                    assert(vals[i as int] is None);
                }
            }
            i += 1;
        }
        proof {
            if count >= 6 {
                lemma_mean_fold_stable(vals, i as int, n as int);
            }
            assert(mean_fold(vals, n as int) == (acc.x as int, acc.y as int, count as int));
        }
        if count > 0 {
            let heading: Vec2 = self.position.sub(acc).normalized();
            self.velocity = heading;
            self.stress = Scalar::new(950);
            self.speed = Scalar::new(100_000);
            true
        } else {
            false
        }
    }

    /// Steer with the running mean of the headings of the neighbors beyond
    /// the avoidance radius but within the alignment radius. Whenever any
    /// such neighbor exists, the new heading is that mean normalized (zero
    /// when opposite headings cancel), stress becomes 0.33 and the desired
    /// speed 75.
    pub fn alignment(&mut self) -> (r: bool)
        requires
            old(self).wf(),
        ensures
            final(self).wf(),
            r == old(self).align_fires(),
            !old(self).align_fires() ==> *final(self) == *old(self),
            old(self).align_fires() ==> -SCALE <= final(self).velocity.x <= SCALE && -SCALE
                <= final(self).velocity.y <= SCALE,
            old(self).align_fires() ==> *final(self) == (SchoolingMechanism {
                velocity: spec_normalized(
                    (Vec2 {
                        x: old(self).align_mean().0 as i64,
                        y: old(self).align_mean().1 as i64,
                    }),
                ),
                speed: Scalar { value: 75_000 },
                stress: Scalar { value: 330 },
                ..*old(self)
            }),
    {
        let ghost vals = old(self).align_vals();
        proof {
            assert forall|j: int| 0 <= j < vals.len() && vals[j] is Some implies -FP_LIMIT <= (
            #[trigger] vals[j])->0.x <= FP_LIMIT && -FP_LIMIT <= vals[j]->0.y <= FP_LIMIT by {
                let id = old(self).others_positions@[j].0;
                let v = vel_lookup(old(self).others_velocities@, id);
                lemma_vel_lookup_in_list(old(self).others_velocities@, id);
            }
        }
        let mut acc: Vec2 = Vec2::zero();
        let mut count: i64 = 0;
        let n: usize = self.others_positions.len();
        let mut i: usize = 0;
        while i < n && count < 6
            invariant
                *self == *old(self),
                old(self).wf(),
                i <= n,
                n == self.others_positions@.len(),
                vals == old(self).align_vals(),
                forall|j: int|
                    0 <= j < vals.len() && vals[j] is Some ==> -FP_LIMIT <= (
                    #[trigger] vals[j])->0.x <= FP_LIMIT && -FP_LIMIT <= vals[j]->0.y <= FP_LIMIT,
                acc.x as int == mean_fold(vals, i as int).0,
                acc.y as int == mean_fold(vals, i as int).1,
                count as int == mean_fold(vals, i as int).2,
                -FP_LIMIT <= acc.x <= FP_LIMIT,
                -FP_LIMIT <= acc.y <= FP_LIMIT,
                0 <= count <= 6,
            decreases n - i,
        {
            let pair: (usize, Vec2) = self.others_positions[i];
            let d: i64 = self.position.distance(pair.1);
            if d <= self.avoidance_radius {
                proof {
                    assert(vals[i as int] is None);
                }
            } else if d <= self.alignment_radius {
                let looked: Option<Vec2> = lookup_velocity(&self.others_velocities, pair.0);
                let v: Vec2 = match looked {
                    Some(v) => v,
                    // Well-formedness records a heading for every neighbor.
                    None => vstd::pervasive::unreached(),
                };
                proof {
                    assert(vals[i as int] == Some(v));
                }
                acc = acc.add(v);
                count = count + 1;
                acc = acc.div_count(count);
                proof {
                    lemma_mean_fold_bounds(vals, i as int + 1);
                }
            } else {
                proof {
                    assert(vals[i as int] is None);
                }
            }
            i += 1;
        }
        proof {
            if count >= 6 {
                lemma_mean_fold_stable(vals, i as int, n as int);
            }
            assert(mean_fold(vals, n as int) == (acc.x as int, acc.y as int, count as int));
        }
        if count > 0 {
            let heading: Vec2 = acc.normalized();
            self.velocity = heading;
            self.stress = Scalar::new(330);
            self.speed = Scalar::new(75_000);
            true
        } else {
            false
        }
    }

    /// Steer toward the running mean of the positions of the neighbors
    /// beyond both the avoidance and alignment radii but within the
    /// attraction radius. Whenever any such neighbor exists, the new heading
    /// points from the agent toward the accumulated position (zero when the
    /// two coincide), stress becomes 0.5 and the desired speed 100.
    pub fn attraction(&mut self) -> (r: bool)
        requires
            old(self).wf(),
        ensures
            final(self).wf(),
            r == old(self).attract_fires(),
            !old(self).attract_fires() ==> *final(self) == *old(self),
            old(self).attract_fires() ==> -SCALE <= final(self).velocity.x <= SCALE && -SCALE
                <= final(self).velocity.y <= SCALE,
            old(self).attract_fires() ==> *final(self) == (SchoolingMechanism {
                velocity: spec_normalized(
                    spec_sub(
                        (Vec2 {
                            x: old(self).attract_mean().0 as i64,
                            y: old(self).attract_mean().1 as i64,
                        }),
                        old(self).position,
                    ),
                ),
                speed: Scalar { value: 100_000 },
                stress: Scalar { value: 500 },
                ..*old(self)
            }),
    {
        let ghost vals = old(self).attract_vals();
        proof {
            assert forall|j: int| 0 <= j < vals.len() && vals[j] is Some implies -FP_LIMIT <= (
            #[trigger] vals[j])->0.x <= FP_LIMIT && -FP_LIMIT <= vals[j]->0.y <= FP_LIMIT by {
                assert(vals[j]->0 == old(self).others_positions@[j].1);
            }
        }
        let mut acc: Vec2 = Vec2::zero();
        let mut count: i64 = 0;
        let n: usize = self.others_positions.len();
        let mut i: usize = 0;
        while i < n && count < 6
            invariant
                *self == *old(self),
                old(self).wf(),
                i <= n,
                n == self.others_positions@.len(),
                vals == old(self).attract_vals(),
                forall|j: int|
                    0 <= j < vals.len() && vals[j] is Some ==> -FP_LIMIT <= (
                    #[trigger] vals[j])->0.x <= FP_LIMIT && -FP_LIMIT <= vals[j]->0.y <= FP_LIMIT,
                acc.x as int == mean_fold(vals, i as int).0,
                acc.y as int == mean_fold(vals, i as int).1,
                count as int == mean_fold(vals, i as int).2,
                -FP_LIMIT <= acc.x <= FP_LIMIT,
                -FP_LIMIT <= acc.y <= FP_LIMIT,
                0 <= count <= 6,
            decreases n - i,
        {
            let pair: (usize, Vec2) = self.others_positions[i];
            let d: i64 = self.position.distance(pair.1);
            if d <= self.avoidance_radius || d <= self.alignment_radius {
                proof {
                    assert(vals[i as int] is None);
                }
            } else if d <= self.attraction_radius {
                proof {
                    assert(vals[i as int] == Some(pair.1));
                }
                acc = acc.add(pair.1);
                count = count + 1;
                acc = acc.div_count(count);
                proof {
                    lemma_mean_fold_bounds(vals, i as int + 1);
                }
            } else {
                proof {
                    assert(vals[i as int] is None);
                }
            }
            i += 1;
        }
        proof {
            if count >= 6 {
                lemma_mean_fold_stable(vals, i as int, n as int);
            }
            assert(mean_fold(vals, n as int) == (acc.x as int, acc.y as int, count as int));
        }
        if count > 0 {
            let heading: Vec2 = acc.sub(self.position).normalized();
            self.velocity = heading;
            self.stress = Scalar::new(500);
            self.speed = Scalar::new(100_000);
            true
        } else {
            false
        }
    }
}

/// The mechanism after avoidance spoke: heading away from the accumulated
/// reference position, stress 0.95, desired speed 100.
pub open spec fn avoid_outcome(m: SchoolingMechanism) -> SchoolingMechanism {
    SchoolingMechanism {
        velocity: spec_normalized(
            spec_sub(
                m.position,
                (Vec2 { x: m.avoid_mean().0 as i64, y: m.avoid_mean().1 as i64 }),
            ),
        ),
        speed: Scalar { value: 100_000 },
        stress: Scalar { value: 950 },
        ..m
    }
}

/// The mechanism after alignment spoke: heading along the accumulated mean
/// heading, stress 0.33, desired speed 75.
pub open spec fn align_outcome(m: SchoolingMechanism) -> SchoolingMechanism {
    SchoolingMechanism {
        velocity: spec_normalized(
            (Vec2 { x: m.align_mean().0 as i64, y: m.align_mean().1 as i64 }),
        ),
        speed: Scalar { value: 75_000 },
        stress: Scalar { value: 330 },
        ..m
    }
}

/// The mechanism after attraction spoke: heading toward the accumulated
/// reference position, stress 0.5, desired speed 100.
pub open spec fn attract_outcome(m: SchoolingMechanism) -> SchoolingMechanism {
    SchoolingMechanism {
        velocity: spec_normalized(
            spec_sub(
                (Vec2 { x: m.attract_mean().0 as i64, y: m.attract_mean().1 as i64 }),
                m.position,
            ),
        ),
        speed: Scalar { value: 100_000 },
        stress: Scalar { value: 500 },
        ..m
    }
}

/// The three behaviors in strict priority order with early exit: avoidance
/// first, alignment only if avoidance stayed silent, attraction only if both
/// did, and no opinion when all three stayed silent.
pub open spec fn school_priority(m: SchoolingMechanism) -> SchoolingMechanism {
    if m.avoid_fires() {
        avoid_outcome(m)
    } else if m.align_fires() {
        align_outcome(m)
    } else if m.attract_fires() {
        attract_outcome(m)
    } else {
        m
    }
}

/// Avoidance outranks the other behaviors: whenever it speaks — whatever
/// alignment or attraction would have said — the chosen heading is the
/// avoidance heading, never the attraction one.
pub proof fn lemma_avoidance_takes_priority(m: SchoolingMechanism)
    requires
        m.avoid_fires(),
    ensures
        school_priority(m) == avoid_outcome(m),
        school_priority(m).velocity == avoid_outcome(m).velocity,
{
}

/// Any id that stands in the list can be looked up.
pub proof fn lemma_vel_lookup_found(list: Seq<(usize, Vec2)>, j: int)
    requires
        0 <= j < list.len(),
    ensures
        vel_lookup(list, list[j].0) is Some,
    decreases j,
{
    if list[0].0 != list[j].0 {
        lemma_vel_lookup_found(list.drop_first(), j - 1);
        assert(list.drop_first()[j - 1] == list[j]);
    }
}

/// A successful lookup hands back a heading that stands in the list.
proof fn lemma_vel_lookup_in_list(list: Seq<(usize, Vec2)>, id: usize)
    ensures
        vel_lookup(list, id) is Some ==> exists|j: int|
            0 <= j < list.len() && #[trigger] list[j].1 == vel_lookup(list, id)->0,
    decreases list.len(),
{
    if list.len() > 0 {
        if list[0].0 == id {
            assert(list[0].1 == vel_lookup(list, id)->0);
        } else {
            lemma_vel_lookup_in_list(list.drop_first(), id);
            if vel_lookup(list, id) is Some {
                let j = choose|j: int|
                    0 <= j < list.drop_first().len() && #[trigger] list.drop_first()[j].1
                        == vel_lookup(list.drop_first(), id)->0;
                assert(list[j + 1].1 == vel_lookup(list, id)->0);
            }
        }
    }
}

} // verus!
