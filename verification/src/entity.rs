//! Entity handles: opaque, copyable integer identifiers, plus small
//! helpers for vectors of entities used as duplicate-free sets.

use vstd::prelude::*;

verus! {

/// An opaque handle identifying one entity.  Carries no data of its own;
/// it is a key into the registry's tables.
#[derive(Debug, Copy, Clone, PartialEq, Eq, Hash, Structural)]
pub struct Entity(pub usize);

impl Entity {
    pub fn new(num: usize) -> (r: Self)
        ensures
            r.0 == num,
    {
        Self(num)
    }
}

/// No entity occurs twice.
pub open spec fn distinct_entities(s: Seq<Entity>) -> bool {
    forall|i: int, j: int| 0 <= i < j < s.len() ==> s[i] != s[j]
}

/// Every entity id is below `n` (the number of entities ever created).
pub open spec fn entities_below(s: Seq<Entity>, n: int) -> bool {
    forall|i: int| 0 <= i < s.len() ==> (#[trigger] s[i]).0 < n
}

/// Extending a prefix by one element extends what it holds by exactly
/// that element.
pub proof fn lemma_subrange_extend<T>(s: Seq<T>, i: int)
    requires
        0 <= i < s.len(),
    ensures
        forall|x: T|
            #[trigger] s.subrange(0, i + 1).contains(x) == (s.subrange(0, i).contains(x) || s[i]
                == x),
{
    let long = s.subrange(0, i + 1);
    let short = s.subrange(0, i);
    assert(long =~= short.push(s[i]));
    assert forall|x: T| #[trigger] long.contains(x) == (short.contains(x) || s[i] == x) by {
        if long.contains(x) {
            let k = choose|k: int| 0 <= k < long.len() && #[trigger] long[k] == x;
            if k < i {
                assert(short[k] == x);
            }
        }
        if short.contains(x) {
            let k = choose|k: int| 0 <= k < short.len() && #[trigger] short[k] == x;
            assert(long[k] == x);
        }
        if s[i] == x {
            assert(long[i] == x);
        }
    }
}

/// The full-length prefix of a sequence is the sequence itself.
pub proof fn lemma_subrange_full<T>(s: Seq<T>)
    ensures
        s.subrange(0, s.len() as int) == s,
{
    assert(s.subrange(0, s.len() as int) =~= s);
}

/// Whether `v` holds `e`.
pub fn entity_vec_contains(v: &Vec<Entity>, e: Entity) -> (r: bool)
    ensures
        r == v@.contains(e),
{
    let mut i: usize = 0;
    while i < v.len()
        invariant
            i <= v@.len(),
            forall|j: int| 0 <= j < i ==> v@[j] != e,
        decreases v@.len() - i,
    {
        if v[i] == e {
            return true;
        }
        i += 1;
    }
    false
}

/// Insert `e` into the duplicate-free set `v` if it is not yet there.
pub fn entity_set_insert(v: &mut Vec<Entity>, e: Entity)
    requires
        distinct_entities(old(v)@),
    ensures
        distinct_entities(final(v)@),
        final(v)@ == if old(v)@.contains(e) {
            old(v)@
        } else {
            old(v)@.push(e)
        },
        forall|x: Entity| final(v)@.contains(x) == (old(v)@.contains(x) || x == e),
{
    let present = entity_vec_contains(v, e);
    if !present {
        v.push(e);
        assert forall|x: Entity| v@.contains(x) == (old(v)@.contains(x) || x == e) by {
            if v@.contains(x) {
                let k = choose|k: int| 0 <= k < v@.len() && v@[k] == x;
                if k < old(v)@.len() {
                    assert(old(v)@[k] == x);
                }
            }
            if old(v)@.contains(x) {
                let k = choose|k: int| 0 <= k < old(v)@.len() && old(v)@[k] == x;
                assert(v@[k] == x);
            }
            assert(v@[old(v)@.len() as int] == e);
        }
    }
}

/// Remove `e` from the duplicate-free set `v` if it is there.
#[verifier::loop_isolation(false)]
pub fn entity_set_remove(v: &mut Vec<Entity>, e: Entity)
    requires
        distinct_entities(old(v)@),
    ensures
        distinct_entities(final(v)@),
        forall|x: Entity| final(v)@.contains(x) == (old(v)@.contains(x) && x != e),
        forall|x: Entity| final(v)@.contains(x) ==> old(v)@.contains(x),
        final(v)@.len() <= old(v)@.len(),
{
    let ghost pre = old(v)@;
    let mut i: usize = 0;
    while i < v.len()
        invariant
            v@ == pre,
            i <= pre.len(),
            forall|j: int| 0 <= j < i ==> pre[j] != e,
            distinct_entities(pre),
        decreases pre.len() - i,
    {
        if v[i] == e {
            let _ = v.remove(i);
            proof {
                pre.remove_ensures(i as int);
            }
            assert forall|x: Entity| v@.contains(x) == (pre.contains(x) && x != e) by {
                if v@.contains(x) {
                    let k = choose|k: int| 0 <= k < v@.len() && v@[k] == x;
                    if k < i {
                        assert(pre[k] == x);
                        assert(x != e);
                    } else {
                        assert(pre[k + 1] == x);
                        assert(pre[i as int] == e);
                        assert(x != e);
                    }
                    assert(pre.contains(x));
                }
                if pre.contains(x) && x != e {
                    let k = choose|k: int| 0 <= k < pre.len() && pre[k] == x;
                    if k < i {
                        assert(v@[k] == x);
                    } else {
                        assert(pre[i as int] == e);
                        assert(k != i);
                        assert(v@[k - 1] == x);
                    }
                }
            }
            assert forall|p: int, q: int| 0 <= p < q < v@.len() implies v@[p] != v@[q] by {
                let pp: int = if p < i { p } else { p + 1 };
                let qq: int = if q < i { q } else { q + 1 };
                assert(v@[p] == pre[pp]);
                assert(v@[q] == pre[qq]);
            }
            return;
        }
        i += 1;
    }
    assert(!pre.contains(e)) by {
        if pre.contains(e) {
            let k = choose|k: int| 0 <= k < pre.len() && pre[k] == e;
            assert(pre[k] != e);
        }
    }
}

} // verus!
