use vstd::prelude::*;

use crate::init::{Constant, Initializer};
use crate::sivec::SIVec;

verus! {

/// Reading an index right after writing `v` there gives back `v`, and the
/// read changes nothing.
pub proof fn lemma_write_then_read<T, I: Initializer<T>>(
    s0: SIVec<T, I>,
    s1: SIVec<T, I>,
    s2: SIVec<T, I>,
    index: usize,
    v: T,
    r: T,
)
    requires
        s0.wf(),
        index < s0@.len(),
        s0.set_outcome(s1, index, v),
        s1.get_outcome(s2, index, r),
    ensures
        r == v,
        s2@ == s1@,
        s2.stored() == s1.stored(),
{
    assert(s1@[index as int] == Some(v));
    assert(s2@ =~= s1@);
}

/// With a constant default, reading an index that holds no value gives a
/// clone of the default, which the slot then holds.
pub proof fn lemma_default_on_miss<T: Clone>(
    s0: SIVec<T, Constant<T>>,
    s1: SIVec<T, Constant<T>>,
    index: usize,
    r: T,
)
    requires
        s0.wf(),
        index < s0@.len(),
        s0@[index as int] is None,
        s0.get_outcome(s1, index, r),
    ensures
        cloned(s0.initializer().value, r),
        s1@[index as int] == Some(r),
{
}

/// Writing at one index leaves every other index as it was, so an index
/// that no write named still holds no value.
pub proof fn lemma_write_leaves_others<T, I: Initializer<T>>(
    s0: SIVec<T, I>,
    s1: SIVec<T, I>,
    index: usize,
    v: T,
    other: usize,
)
    requires
        s0.wf(),
        index < s0@.len(),
        other < s0@.len(),
        other != index,
        s0.set_outcome(s1, index, v),
    ensures
        s1@[other as int] == s0@[other as int],
{
}

/// Writing `v1` and then `v2` at one index leaves `v2` there, and the
/// second write stores nothing new: the index holds one value, replaced in
/// place.
pub proof fn lemma_overwrite_in_place<T, I: Initializer<T>>(
    s0: SIVec<T, I>,
    s1: SIVec<T, I>,
    s2: SIVec<T, I>,
    index: usize,
    v1: T,
    v2: T,
)
    requires
        s0.wf(),
        index < s0@.len(),
        s0.set_outcome(s1, index, v1),
        s1.set_outcome(s2, index, v2),
    ensures
        s2@[index as int] == Some(v2),
        s2@ == s0@.update(index as int, Some(v2)),
        s2.stored() == s1.stored(),
        s2.stored() == s0.stored() + s0.added(index),
        s2.held() == s1.held(),
        s2.held() == s0.held().insert(index as int),
{
    assert(s2@ =~= s0@.update(index as int, Some(v2)));
    assert(s2.held() =~= s1.held());
    assert(s2.held() =~= s0.held().insert(index as int));
}

/// What an ordered map holds after the writes `ops`, in order, each an
/// index and a value, starting empty.
pub open spec fn mirror<T>(ops: Seq<(usize, T)>) -> Map<usize, T>
    decreases ops.len(),
{
    if ops.len() == 0 {
        Map::empty()
    } else {
        mirror(ops.drop_last()).insert(ops.last().0, ops.last().1)
    }
}

/// Starting from a vector that holds no value, the writes `ops` applied in
/// order (`states[k + 1]` is `states[k]` after write `k`) leave at each
/// index what a map that mirrors the same writes holds for it, and nothing
/// where the map has no key.
pub proof fn lemma_mirrors_map<T, I: Initializer<T>>(
    states: Seq<SIVec<T, I>>,
    ops: Seq<(usize, T)>,
)
    requires
        states.len() == ops.len() + 1,
        states[0].wf(),
        forall|i: int| 0 <= i < states[0]@.len() ==> states[0]@[i] is None,
        forall|k: int| 0 <= k < ops.len() ==> (#[trigger] ops[k]).0 < states[0]@.len(),
        forall|k: int|
            0 <= k < ops.len() ==> #[trigger] states[k].set_outcome(
                states[k + 1],
                ops[k].0,
                ops[k].1,
            ),
    ensures
        states.last().wf(),
        states.last()@.len() == states[0]@.len(),
        forall|i: usize|
            i < states[0]@.len() ==> #[trigger] states.last()@[i as int] == if mirror(
                ops,
            ).contains_key(i) {
                Some(mirror(ops)[i])
            } else {
                None
            },
    decreases ops.len(),
{
    if ops.len() > 0 {
        let n = ops.len() - 1;
        let before = states.drop_last();
        let earlier = ops.drop_last();
        assert forall|k: int| 0 <= k < earlier.len() implies #[trigger] before[k].set_outcome(
            before[k + 1],
            earlier[k].0,
            earlier[k].1,
        ) by {
            assert(states[k].set_outcome(states[k + 1], ops[k].0, ops[k].1));
        }
        assert forall|k: int| 0 <= k < earlier.len() implies (#[trigger] earlier[k]).0
            < before[0]@.len() by {
            assert(ops[k].0 < states[0]@.len());
        }
        lemma_mirrors_map(before, earlier);
        assert(states[n].set_outcome(states[n + 1], ops[n].0, ops[n].1));
        assert(ops[n].0 < states[0]@.len());
    }
}

} // verus!
