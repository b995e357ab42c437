use vstd::prelude::*;

verus! {

/// Whether `v` holds `x`.
pub fn vec_contains(v: &Vec<usize>, x: usize) -> (r: bool)
    ensures
        r == v@.contains(x),
{
    let mut i: usize = 0;
    while i < v.len()
        invariant
            i <= v@.len(),
            forall|j: int| 0 <= j < i ==> v@[j] != x,
        decreases v@.len() - i,
    {
        if v[i] == x {
            return true;
        }
        i += 1;
    }
    false
}

/// Append to `dst` those elements of `src` not yet present, keeping `dst`
/// free of duplicates.
pub fn merge_unique(dst: &mut Vec<usize>, src: &Vec<usize>)
    requires
        old(dst)@.no_duplicates(),
    ensures
        final(dst)@.no_duplicates(),
        final(dst)@.to_set() == old(dst)@.to_set() + src@.to_set(),
{
    let mut i: usize = 0;
    while i < src.len()
        invariant
            i <= src@.len(),
            dst@.no_duplicates(),
            dst@.to_set() == old(dst)@.to_set() + src@.subrange(0, i as int).to_set(),
        decreases src@.len() - i,
    {
        let x: usize = src[i];
        let ghost pre = dst@;
        let present: bool = vec_contains(dst, x);
        if !present {
            dst.push(x);
            proof {
                lemma_push_keeps_distinct(pre, x);
                lemma_to_set_push(pre, x);
            }
        }
        proof {
            assert(src@.subrange(0, i as int + 1) =~= src@.subrange(0, i as int).push(
                src@[i as int],
            ));
            lemma_to_set_push(src@.subrange(0, i as int), src@[i as int]);
            assert(dst@.to_set() =~= old(dst)@.to_set() + src@.subrange(0, i as int + 1).to_set());
        }
        i += 1;
    }
    proof {
        assert(src@.subrange(0, src@.len() as int) =~= src@);
    }
}

/// Take `x` out of a duplicate-free id list; a list without it is left
/// alone.
pub fn remove_id(v: &mut Vec<usize>, x: usize)
    requires
        old(v)@.no_duplicates(),
    ensures
        final(v)@.no_duplicates(),
        final(v)@.to_set() == old(v)@.to_set().remove(x),
        final(v)@.len() == if old(v)@.contains(x) {
            old(v)@.len() - 1
        } else {
            old(v)@.len() as int
        },
{
    let ghost prev = v@;
    let mut i: usize = 0;
    let mut found: bool = false;
    while i < v.len() && !found
        invariant
            i <= v@.len(),
            v@ == prev,
            !found ==> forall|j: int| 0 <= j < i ==> v@[j] != x,
            found ==> i < v@.len() && v@[i as int] == x,
        decreases v@.len() - i + (if found {
            0int
        } else {
            1int
        }),
    {
        if v[i] == x {
            found = true;
        } else {
            i += 1;
        }
    }
    if found {
        v.remove(i);
        proof {
            lemma_remove_one_of_distinct(prev, i as int, x);
        }
    } else {
        proof {
            assert(!v@.contains(x));
            assert(v@.to_set() =~= prev.to_set().remove(x)) by {
                assert(!prev.to_set().contains(x));
            }
        }
    }
}

/// Pushing a fresh element keeps a sequence free of duplicates.
pub proof fn lemma_push_keeps_distinct(s: Seq<usize>, x: usize)
    requires
        s.no_duplicates(),
        !s.contains(x),
    ensures
        s.push(x).no_duplicates(),
{
    let t = s.push(x);
    assert forall|i: int, j: int| 0 <= i < j < t.len() implies t[i] != t[j] by {
        if j == t.len() - 1 {
            assert(t[j] == x);
            assert(t[i] == s[i]);
            assert(s.contains(s[i]));
        }
    }
}

/// Pushing an element adds exactly it to the element set.
pub proof fn lemma_to_set_push(s: Seq<usize>, x: usize)
    ensures
        s.push(x).to_set() == s.to_set().insert(x),
{
    let t = s.push(x);
    assert forall|e: usize| t.to_set().contains(e) <==> s.to_set().insert(x).contains(e) by {
        if t.contains(e) {
            let k = choose|k: int| 0 <= k < t.len() && t[k] == e;
            if k < s.len() {
                assert(s[k] == e);
            }
        }
        if s.contains(e) {
            let k = choose|k: int| 0 <= k < s.len() && s[k] == e;
            assert(t[k] == e);
        }
        if e == x {
            assert(t[t.len() - 1] == e);
        }
    }
    assert(t.to_set() =~= s.to_set().insert(x));
}

/// Removing the one index holding `x` from a duplicate-free sequence
/// removes exactly `x` from the element set.
pub proof fn lemma_remove_one_of_distinct(s: Seq<usize>, i: int, x: usize)
    requires
        s.no_duplicates(),
        0 <= i < s.len(),
        s[i] == x,
    ensures
        s.remove(i).to_set() == s.to_set().remove(x),
        s.remove(i).no_duplicates(),
{
    let t = s.remove(i);
    assert forall|e: usize| t.to_set().contains(e) <==> s.to_set().remove(x).contains(e) by {
        if t.contains(e) {
            let k = choose|k: int| 0 <= k < t.len() && t[k] == e;
            if k < i {
                assert(s[k] == e);
            } else {
                assert(s[k + 1] == e);
            }
        }
        if s.contains(e) && e != x {
            let k = choose|k: int| 0 <= k < s.len() && s[k] == e;
            if k < i {
                assert(t[k] == e);
            } else {
                assert(k != i);
                assert(t[k - 1] == e);
            }
        }
    }
    assert(t.to_set() =~= s.to_set().remove(x));
    assert forall|a: int, b: int| 0 <= a < b < t.len() implies t[a] != t[b] by {
        let sa = if a < i {
            a
        } else {
            a + 1
        };
        let sb = if b < i {
            b
        } else {
            b + 1
        };
        assert(t[a] == s[sa] && t[b] == s[sb]);
    }
}

} // verus!
