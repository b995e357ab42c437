use crate::chunks::Chunks;
use crate::config::Config;
use crate::world::Agent;
use vstd::prelude::*;

verus! {

/// After a rebuild, the index and the store agree: every agent sits in
/// exactly the bucket of its position's cell, and buckets hold nothing else.
pub open spec fn indexes(chunks: Chunks, agents: Seq<Agent>) -> bool {
    &&& forall|id: usize|
        id < agents.len() ==> chunks.bucket(
            chunks.spec_chunk_id((#[trigger] agents[id as int]).position.0),
        ).contains(id)
    &&& forall|k: u64, id: usize|
        #[trigger] chunks.bucket(k as int).contains(id) ==> id < agents.len()
            && chunks.spec_chunk_id(agents[id as int].position.0) == k as int
}

/// The index-rebuild stage: clear the spatial index, adopt the attraction
/// radius as the cell size, and re-insert every agent under its current
/// position.
#[derive(Debug)]
pub struct LoadChunks;

impl LoadChunks {
    pub fn system(agents: &Vec<Agent>, cfg: &Config, chunks: &mut Chunks)
        requires
            cfg.wf(),
            forall|i: int| 0 <= i < agents@.len() ==> (#[trigger] agents@[i]).wf(),
        ensures
            final(chunks).wf(),
            final(chunks).chunk_size == cfg.attraction_radius,
            indexes(*final(chunks), agents@),
    {
        chunks.clear();
        chunks.resize(cfg.attraction_radius);
        let n: usize = agents.len();
        let mut i: usize = 0;
        proof {
            assert forall|k: u64, id: usize| #[trigger] chunks.bucket(k as int).contains(id)
                implies id < 0 && chunks.spec_chunk_id(agents@[id as int].position.0)
                == k as int by {
                assert(chunks.bucket(k as int) =~= Seq::<usize>::empty());
            }
        }
        while i < n
            invariant
                n == agents@.len(),
                i <= n,
                cfg.wf(),
                forall|j: int| 0 <= j < n ==> (#[trigger] agents@[j]).wf(),
                chunks.wf(),
                chunks.chunk_size == cfg.attraction_radius,
                forall|id: usize|
                    id < i ==> chunks.bucket(
                        chunks.spec_chunk_id((#[trigger] agents@[id as int]).position.0),
                    ).contains(id),
                forall|k: u64, id: usize|
                    #[trigger] chunks.bucket(k as int).contains(id) ==> id < i
                        && chunks.spec_chunk_id(agents@[id as int].position.0) == k as int,
            decreases n - i,
        {
            let pos = agents[i].position.0;
            let ghost pre = *chunks;
            proof {
                pre.lemma_chunk_id_in_range(pos);
                let key = pre.spec_chunk_id(pos);
                if pre.bucket(key).contains(i) {
                    assert(pre.bucket((key as u64) as int).contains(i));
                    assert(i < i);
                }
            }
            chunks.store(&pos, i);
            proof {
                let key = pre.spec_chunk_id(pos);
                assert(chunks.bucket(key).contains(i)) by {
                    assert(chunks.bucket(key) == pre.bucket(key).push(i));
                    assert(chunks.bucket(key)[chunks.bucket(key).len() - 1] == i);
                }
                assert forall|id: usize|
                    id < i + 1 implies chunks.bucket(
                    chunks.spec_chunk_id((#[trigger] agents@[id as int]).position.0),
                ).contains(id) by {
                    let idkey = chunks.spec_chunk_id(agents@[id as int].position.0);
                    if id < i {
                        chunks.lemma_chunk_id_in_range(agents@[id as int].position.0);
                        if idkey == key {
                            assert(pre.bucket(idkey).contains(id));
                            let w = choose|w: int|
                                0 <= w < pre.bucket(idkey).len() && pre.bucket(idkey)[w] == id;
                            assert(chunks.bucket(idkey)[w] == id);
                        } else {
                            assert(idkey as u64 as int != key);
                            assert(chunks.bucket((idkey as u64) as int) == pre.bucket(
                                (idkey as u64) as int,
                            ));
                        }
                    }
                }
                assert forall|k: u64, id: usize| #[trigger] chunks.bucket(k as int).contains(id)
                    implies id < i + 1 && chunks.spec_chunk_id(agents@[id as int].position.0)
                    == k as int by {
                    if k as int == key {
                        assert(chunks.bucket(k as int) == pre.bucket(key).push(i));
                        let w = choose|w: int|
                            0 <= w < chunks.bucket(k as int).len() && chunks.bucket(k as int)[w]
                                == id;
                        if w < pre.bucket(key).len() {
                            assert(pre.bucket(key)[w] == id);
                            assert(pre.bucket(key).contains(id));
                        } else {
                            assert(id == i);
                        }
                    } else {
                        assert(chunks.bucket(k as int) == pre.bucket(k as int));
                    }
                }
            }
            i += 1;
        }
    }
}

} // verus!
