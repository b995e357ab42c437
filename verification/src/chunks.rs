use crate::config::Config;
use crate::ids::lemma_push_keeps_distinct;
use crate::ids::lemma_remove_one_of_distinct;
use crate::ids::merge_unique;
use crate::scalar::FP_LIMIT;
use crate::vec2::Vec2;
use crate::vec2::VEC_LIMIT;
use std::collections::HashMap;
use vstd::prelude::*;

verus! {

/// The largest cell coordinate the pairing function accepts without
/// overflowing a `u64`.
pub const MAX_CELL: u64 = 2_000_000_000;

/// Fold a cell coordinate pair into one bucket key:
/// `(x + y)(x + y + 1) / 2 + y`. Purely a bucketing key, no ordering
/// implied.
pub open spec fn pair_id(x: int, y: int) -> int {
    (x + y) * (x + y + 1) / 2 + y
}

/// A cell index shifted by one and wrapped into `0..n`: the cell count wraps
/// toroidally, so the arena's edge cells count the opposite edge as
/// adjacent. Shifts below zero (only `-1` can occur) land on the last cell.
pub open spec fn wrap_cell(c: int, n: int) -> int
    recommends
        n >= 1,
        c >= -1,
{
    if c < 0 {
        n - 1
    } else {
        c % n
    }
}

/// The spatial index: a uniform grid over the arena, mapping each cell's
/// pairing key to the ids of the agents positioned in that cell. It is
/// rebuilt from scratch every tick.
#[derive(Debug)]
pub struct Chunks {
    pub chunk_size: i64,
    pub chunks: HashMap<u64, Vec<usize>>,
}

impl Chunks {
    /// The cell side must be a positive length, and every bucket holds each
    /// id at most once.
    pub open spec fn wf(self) -> bool {
        &&& 1 <= self.chunk_size <= FP_LIMIT
        &&& forall|k: u64|
            self.chunks@.contains_key(k) ==> (#[trigger] self.chunks@[k])@.no_duplicates()
    }

    pub open spec fn spec_cell_x(self, pos: Vec2) -> int {
        pos.x as int / self.chunk_size as int
    }

    pub open spec fn spec_cell_y(self, pos: Vec2) -> int {
        pos.y as int / self.chunk_size as int
    }

    pub open spec fn spec_chunk_id(self, pos: Vec2) -> int {
        pair_id(self.spec_cell_x(pos), self.spec_cell_y(pos))
    }

    /// The ids stored for cell key `k`; an absent key is an empty bucket.
    pub open spec fn bucket(self, k: int) -> Seq<usize> {
        if self.chunks@.contains_key(k as u64) {
            self.chunks@[k as u64]@
        } else {
            Seq::empty()
        }
    }

    /// How many cells fit across the arena; at least one, so wrapping is
    /// always defined even when a cell is wider than the arena.
    pub open spec fn region_w(self, cfg: Config) -> int {
        let r = cfg.width as int / self.chunk_size as int;
        if r == 0 {
            1
        } else {
            r
        }
    }

    pub open spec fn region_h(self, cfg: Config) -> int {
        let r = cfg.height as int / self.chunk_size as int;
        if r == 0 {
            1
        } else {
            r
        }
    }

    /// The bucket key of the cell `(dx, dy)` away from the cell of `pos`,
    /// wrapped toroidally.
    pub open spec fn wrapped_id(self, cfg: Config, pos: Vec2, dx: int, dy: int) -> int {
        pair_id(
            wrap_cell(self.spec_cell_x(pos) + dx, self.region_w(cfg)),
            wrap_cell(self.spec_cell_y(pos) + dy, self.region_h(cfg)),
        )
    }

    /// The ids of every agent in the eight cells surrounding the cell of
    /// `pos` (the center cell itself excluded from the offsets, though a
    /// wrapped offset may land back on it).
    pub open spec fn neighbor_union(self, cfg: Config, pos: Vec2) -> Set<usize> {
        self.bucket(self.wrapped_id(cfg, pos, -1, -1)).to_set() + self.bucket(
            self.wrapped_id(cfg, pos, -1, 0),
        ).to_set() + self.bucket(self.wrapped_id(cfg, pos, -1, 1)).to_set() + self.bucket(
            self.wrapped_id(cfg, pos, 0, -1),
        ).to_set() + self.bucket(self.wrapped_id(cfg, pos, 0, 1)).to_set() + self.bucket(
            self.wrapped_id(cfg, pos, 1, -1),
        ).to_set() + self.bucket(self.wrapped_id(cfg, pos, 1, 0)).to_set() + self.bucket(
            self.wrapped_id(cfg, pos, 1, 1),
        ).to_set()
    }

    /// The cell key of any in-range position is a valid `u64`, so casting it
    /// there and back loses nothing.
    pub proof fn lemma_chunk_id_in_range(self, pos: Vec2)
        requires
            self.wf(),
            0 <= pos.x <= VEC_LIMIT,
            0 <= pos.y <= VEC_LIMIT,
        ensures
            0 <= self.spec_chunk_id(pos) <= u64::MAX,
            self.spec_chunk_id(pos) == (self.spec_chunk_id(pos) as u64) as int,
    {
        let cx = self.spec_cell_x(pos);
        let cy = self.spec_cell_y(pos);
        vstd::arithmetic::div_mod::lemma_div_nonincreasing(pos.x as int, self.chunk_size as int);
        vstd::arithmetic::div_mod::lemma_div_pos_is_pos(pos.x as int, self.chunk_size as int);
        vstd::arithmetic::div_mod::lemma_div_nonincreasing(pos.y as int, self.chunk_size as int);
        vstd::arithmetic::div_mod::lemma_div_pos_is_pos(pos.y as int, self.chunk_size as int);
        assert(0 <= pair_id(cx, cy) <= u64::MAX) by (nonlinear_arith)
            requires
                0 <= cx <= 2_000_000_000,
                0 <= cy <= 2_000_000_000,
                pair_id(cx, cy) == (cx + cy) * (cx + cy + 1) / 2 + cy,
        ;
    }

    pub fn new(chunk_size: i64) -> (r: Self)
        requires
            1 <= chunk_size <= FP_LIMIT,
        ensures
            r.wf(),
            r.chunk_size == chunk_size,
            r.chunks@ =~= Map::<u64, Vec<usize>>::empty(),
    {
        Chunks { chunk_size, chunks: HashMap::new() }
    }

    pub fn is_empty(&self) -> (r: bool)
        ensures
            r == (self.chunks@.len() == 0),
    {
        self.chunks.is_empty()
    }

    /// Drop every bucket; the cell size stays.
    pub fn clear(&mut self)
        ensures
            old(self).wf() ==> final(self).wf(),
            final(self).chunk_size == old(self).chunk_size,
            final(self).chunks@ =~= Map::<u64, Vec<usize>>::empty(),
    {
        self.chunks.clear();
    }

    /// Change the cell size; existing buckets are untouched (call sites
    /// clear and rebuild).
    pub fn resize(&mut self, chunk_size: i64)
        requires
            1 <= chunk_size <= FP_LIMIT,
        ensures
            final(self).chunk_size == chunk_size,
            final(self).chunks@ == old(self).chunks@,
            old(self).wf() ==> final(self).wf(),
    {
        self.chunk_size = chunk_size;
    }

    /// The cell coordinates of a position: floor division of each coordinate
    /// by the cell size.
    pub fn chunk_coords(&self, pos: &Vec2) -> (r: (u64, u64))
        requires
            self.wf(),
            0 <= pos.x <= VEC_LIMIT,
            0 <= pos.y <= VEC_LIMIT,
        ensures
            r.0 == self.spec_cell_x(*pos),
            r.1 == self.spec_cell_y(*pos),
            r.0 <= MAX_CELL,
            r.1 <= MAX_CELL,
    {
        let cx: u64 = (pos.x as u64) / (self.chunk_size as u64);
        let cy: u64 = (pos.y as u64) / (self.chunk_size as u64);
        proof {
            vstd::arithmetic::div_mod::lemma_div_nonincreasing(pos.x as int, self.chunk_size as int);
            vstd::arithmetic::div_mod::lemma_div_nonincreasing(pos.y as int, self.chunk_size as int);
            vstd::arithmetic::div_mod::lemma_div_pos_is_pos(pos.x as int, self.chunk_size as int);
            vstd::arithmetic::div_mod::lemma_div_pos_is_pos(pos.y as int, self.chunk_size as int);
        }
        (cx, cy)
    }

    /// The pairing key for a pair of cell coordinates.
    pub fn chunk_id_from_coords(x: u64, y: u64) -> (r: u64)
        requires
            x <= MAX_CELL,
            y <= MAX_CELL,
        ensures
            r == pair_id(x as int, y as int),
    {
        let s: u64 = x + y;
        proof {
            assert(s * (s + 1) <= 16_000_000_008_000_000_002) by (nonlinear_arith)
                requires
                    s <= 4_000_000_000,
            ;
            assert(s * (s + 1) / 2 <= s * (s + 1)) by (nonlinear_arith)
                requires
                    s * (s + 1) >= 0,
            ;
        }
        let p: u64 = s * (s + 1);
        p / 2 + y
    }

    /// The pairing key of the cell holding `pos`.
    pub fn chunk_id_from_pos(&self, pos: &Vec2) -> (r: u64)
        requires
            self.wf(),
            0 <= pos.x <= VEC_LIMIT,
            0 <= pos.y <= VEC_LIMIT,
        ensures
            r == self.spec_chunk_id(*pos),
    {
        let (x, y) = self.chunk_coords(pos);
        Self::chunk_id_from_coords(x, y)
    }

    /// Insert `id` into the bucket of the cell holding `pos`. An id already
    /// present may not be stored again: call sites rebuild the index rather
    /// than update it in place.
    pub fn store(&mut self, pos: &Vec2, id: usize)
        requires
            old(self).wf(),
            0 <= pos.x <= VEC_LIMIT,
            0 <= pos.y <= VEC_LIMIT,
            !old(self).bucket(old(self).spec_chunk_id(*pos)).contains(id),
        ensures
            final(self).wf(),
            final(self).chunk_size == old(self).chunk_size,
            final(self).bucket(old(self).spec_chunk_id(*pos)) == old(self).bucket(
                old(self).spec_chunk_id(*pos),
            ).push(id),
            final(self).chunks@.contains_key((old(self).spec_chunk_id(*pos)) as u64),
            forall|k: u64|
                k as int != old(self).spec_chunk_id(*pos) ==> final(self).bucket(k as int) == old(
                    self,
                ).bucket(k as int) && final(self).chunks@.contains_key(k) == old(
                    self,
                ).chunks@.contains_key(k),
    {
        let key: u64 = self.chunk_id_from_pos(pos);
        let mut b: Vec<usize> = match self.chunks.remove(&key) {
            Some(v) => v,
            None => Vec::new(),
        };
        let ghost prev = b@;
        b.push(id);
        proof {
            assert(prev =~= old(self).bucket(key as int));
            lemma_push_keeps_distinct(prev, id);
        }
        self.chunks.insert(key, b);
        proof {
            assert(final(self).bucket(key as int) =~= old(self).bucket(key as int).push(id));
        }
    }

    /// Take `id` out of the bucket of the cell holding `pos`; an id that is
    /// not there is left alone, and a bucket emptied by the removal is
    /// dropped.
    pub fn remove(&mut self, pos: &Vec2, id: usize)
        requires
            old(self).wf(),
            0 <= pos.x <= VEC_LIMIT,
            0 <= pos.y <= VEC_LIMIT,
        ensures
            final(self).wf(),
            final(self).chunk_size == old(self).chunk_size,
            final(self).bucket(old(self).spec_chunk_id(*pos)).to_set() == old(self).bucket(
                old(self).spec_chunk_id(*pos),
            ).to_set().remove(id),
            final(self).bucket(old(self).spec_chunk_id(*pos)).len() == 0 ==> !final(self).chunks@
                .contains_key((old(self).spec_chunk_id(*pos)) as u64),
            forall|k: u64|
                k as int != old(self).spec_chunk_id(*pos) ==> final(self).bucket(k as int) == old(
                    self,
                ).bucket(k as int) && final(self).chunks@.contains_key(k) == old(
                    self,
                ).chunks@.contains_key(k),
    {
        let key: u64 = self.chunk_id_from_pos(pos);
        match self.chunks.remove(&key) {
            None => {
                proof {
                    assert(old(self).bucket(key as int) =~= Seq::<usize>::empty());
                    assert(final(self).bucket(key as int).to_set() =~= old(self).bucket(
                        key as int,
                    ).to_set().remove(id));
                }
            },
            Some(mut b) => {
                let ghost prev = b@;
                let mut i: usize = 0;
                let mut found: bool = false;
                while i < b.len() && !found
                    invariant
                        i <= b@.len(),
                        b@ == prev,
                        !found ==> forall|j: int| 0 <= j < i ==> b@[j] != id,
                        found ==> i < b@.len() && b@[i as int] == id,
                    decreases b@.len() - i + (if found { 0int } else { 1int }),
                {
                    if b[i] == id {
                        found = true;
                    } else {
                        i += 1;
                    }
                }
                if found {
                    b.remove(i);
                    proof {
                        lemma_remove_one_of_distinct(prev, i as int, id);
                    }
                }
                proof {
                    if !found {
                        assert(!b@.contains(id));
                        assert(b@.to_set() =~= prev.to_set().remove(id)) by {
                            assert(!prev.to_set().contains(id));
                        }
                    }
                }
                if b.len() > 0 {
                    self.chunks.insert(key, b);
                    proof {
                        assert(final(self).bucket(key as int).to_set() =~= old(self).bucket(
                            key as int,
                        ).to_set().remove(id));
                    }
                } else {
                    proof {
                        assert(b@ =~= Seq::<usize>::empty());
                        assert(final(self).bucket(key as int).to_set() =~= old(self).bucket(
                            key as int,
                        ).to_set().remove(id)) by {
                            assert(b@.to_set() =~= Set::<usize>::empty());
                        }
                    }
                }
            },
        }
    }

    /// The ids bucketed in the exact cell of `pos`, as a fresh vector.
    pub fn load_chunk(&self, pos: &Vec2) -> (r: Vec<usize>)
        requires
            self.wf(),
            0 <= pos.x <= VEC_LIMIT,
            0 <= pos.y <= VEC_LIMIT,
        ensures
            r@ == self.bucket(self.spec_chunk_id(*pos)),
            r@.no_duplicates(),
    {
        let key: u64 = self.chunk_id_from_pos(pos);
        match self.chunks.get(&key) {
            Some(b) => b.clone(),
            None => Vec::new(),
        }
    }

    /// The union of the eight cells surrounding the cell of `pos`, wrapped
    /// toroidally at the arena's cell count, without duplicates. Every cell
    /// one step away from the query cell contributes its whole bucket.
    pub fn load_neighbors(&self, cfg: &Config, pos: &Vec2) -> (r: Vec<usize>)
        requires
            self.wf(),
            cfg.wf(),
            0 <= pos.x <= VEC_LIMIT,
            0 <= pos.y <= VEC_LIMIT,
        ensures
            r@.no_duplicates(),
            r@.to_set() == self.neighbor_union(*cfg, *pos),
    {
        let (cx, cy) = self.chunk_coords(pos);
        let rw: u64 = Self::region_cells(cfg.width, self.chunk_size);
        let rh: u64 = Self::region_cells(cfg.height, self.chunk_size);
        let mut result: Vec<usize> = Vec::new();
        self.gather(&mut result, cx, cy, -1, -1, rw, rh);
        self.gather(&mut result, cx, cy, -1, 0, rw, rh);
        self.gather(&mut result, cx, cy, -1, 1, rw, rh);
        self.gather(&mut result, cx, cy, 0, -1, rw, rh);
        self.gather(&mut result, cx, cy, 0, 1, rw, rh);
        self.gather(&mut result, cx, cy, 1, -1, rw, rh);
        self.gather(&mut result, cx, cy, 1, 0, rw, rh);
        self.gather(&mut result, cx, cy, 1, 1, rw, rh);
        proof {
            assert(result@.to_set() =~= self.neighbor_union(*cfg, *pos));
        }
        result
    }

    /// How many whole cells fit in `extent`, but at least one.
    fn region_cells(extent: i64, chunk_size: i64) -> (r: u64)
        requires
            0 <= extent <= FP_LIMIT,
            1 <= chunk_size <= FP_LIMIT,
        ensures
            r == if extent as int / chunk_size as int == 0 {
                1int
            } else {
                extent as int / chunk_size as int
            },
            1 <= r <= FP_LIMIT,
    {
        proof {
            vstd::arithmetic::div_mod::lemma_div_nonincreasing(extent as int, chunk_size as int);
            vstd::arithmetic::div_mod::lemma_div_pos_is_pos(extent as int, chunk_size as int);
        }
        let q: u64 = (extent as u64) / (chunk_size as u64);
        if q == 0 {
            1
        } else {
            q
        }
    }

    /// Merge into `dst` the bucket of the cell `(dx, dy)` away from
    /// `(cx, cy)`, wrapped at the region's cell counts.
    fn gather(&self, dst: &mut Vec<usize>, cx: u64, cy: u64, dx: i64, dy: i64, rw: u64, rh: u64)
        requires
            self.wf(),
            old(dst)@.no_duplicates(),
            cx <= MAX_CELL,
            cy <= MAX_CELL,
            -1 <= dx <= 1,
            -1 <= dy <= 1,
            1 <= rw <= FP_LIMIT,
            1 <= rh <= FP_LIMIT,
        ensures
            final(dst)@.no_duplicates(),
            final(dst)@.to_set() == old(dst)@.to_set() + self.bucket(
                pair_id(
                    wrap_cell(cx as int + dx as int, rw as int),
                    wrap_cell(cy as int + dy as int, rh as int),
                ),
            ).to_set(),
    {
        let wx: u64 = Self::wrap_coord(cx, dx, rw);
        let wy: u64 = Self::wrap_coord(cy, dy, rh);
        let key: u64 = Self::chunk_id_from_coords(wx, wy);
        match self.chunks.get(&key) {
            None => {
                proof {
                    assert(self.bucket(key as int) =~= Seq::<usize>::empty());
                    assert(final(dst)@.to_set() =~= old(dst)@.to_set() + self.bucket(
                        key as int,
                    ).to_set());
                }
            },
            Some(b) => {
                merge_unique(dst, b);
            },
        }
    }

    /// One wrapped cell coordinate; see `wrap_cell`.
    fn wrap_coord(c: u64, d: i64, n: u64) -> (r: u64)
        requires
            c <= MAX_CELL,
            -1 <= d <= 1,
            1 <= n <= FP_LIMIT,
        ensures
            r == wrap_cell(c as int + d as int, n as int),
            r < n,
    {
        let b: i64 = c as i64 + d;
        if b < 0 {
            n - 1
        } else {
            proof {
                vstd::arithmetic::div_mod::lemma_mod_division_less_than_divisor(b as int, n as int);
            }
            (b as u64) % n
        }
    }
}

} // verus!
