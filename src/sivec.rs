use vstd::prelude::*;
use vstd::relations::injective_on;
use vstd::set_lib::{lemma_int_range, lemma_len_subset, lemma_map_size, set_int_range};

use crate::init::{Constant, Initializer, NoDefault};

verus! {

/// The largest capacity a vector may be built with: its index table, one
/// `usize` per slot, must stay within `isize::MAX` bytes.
pub const MAX_CAP: usize = usize::MAX / 16;

/// Why an access failed.
#[derive(Debug, Clone, Copy, PartialEq, Eq, Structural)]
pub enum SIVecError {
    /// The index is not below the capacity.
    OutOfBounds,
    /// The slot was never written and the vector has no default for it.
    Uninitialized,
}

/// A stored value, tagged with the index it belongs to.
struct Slot<T> {
    value: T,
    index: usize,
}

/// A self-initializing vector.
///
/// `table[i]` is a candidate position in `stack`; slot `i` holds a value
/// exactly when that position is inside the stack and the entry there is
/// tagged with `i`. Table entries that fail this check mean nothing, so the
/// table is only ever allocated zeroed, which the allocator can supply
/// without touching each slot, and never filled with real positions ahead
/// of use.
pub struct SIVec<T, I> {
    table: Vec<usize>,
    stack: Vec<Slot<T>>,
    init: I,
}

impl<T, I> SIVec<T, I> {
    /// Slot `i` currently holds a value.
    spec fn live(&self, i: int) -> bool {
        &&& 0 <= i < self.table@.len()
        &&& self.table@[i] < self.stack@.len()
        &&& self.stack@[self.table@[i] as int].index == i
    }

    /// Every stack entry is pointed at by the table slot it is tagged with.
    pub closed spec fn wf(&self) -> bool {
        forall|p: int|
            0 <= p < self.stack@.len() ==> {
                &&& (#[trigger] self.stack@[p]).index < self.table@.len()
                &&& self.table@[self.stack@[p].index as int] == p
            }
    }

    /// How many values are stored: one per distinct index that holds one.
    pub closed spec fn stored(&self) -> nat {
        self.stack@.len()
    }

    /// The policy that supplies defaults.
    pub closed spec fn initializer(&self) -> I {
        self.init
    }

    /// Replacing the value at the stack position of live slot `i`, and
    /// nothing else, replaces what slot `i` holds.
    proof fn lemma_value_replaced(&self, p: int, i: int)
        requires
            self.wf(),
            self.live(i),
            self.table@[i] == p,
        ensures
            forall|b: Self|
                b.table@ == self.table@ && b.stack@ == self.stack@.update(
                    p,
                    Slot { value: b.stack@[p].value, index: i as usize },
                ) ==> #[trigger] b@ == self@.update(i, Some(b.stack@[p].value)),
    {
        assert forall|b: Self|
            b.table@ == self.table@ && b.stack@ == self.stack@.update(
                p,
                Slot { value: b.stack@[p].value, index: i as usize },
            ) implies #[trigger] b@ == self@.update(i, Some(b.stack@[p].value)) by {
            assert(b@ =~= self@.update(i, Some(b.stack@[p].value)));
        }
    }
}

impl<T, I> View for SIVec<T, I> {
    type V = Seq<Option<T>>;

    /// Slot by slot, the value held, or `None` where none is.
    closed spec fn view(&self) -> Seq<Option<T>> {
        Seq::new(
            self.table@.len(),
            |i: int|
                if self.live(i) {
                    Some(self.stack@[self.table@[i] as int].value)
                } else {
                    None
                },
        )
    }
}

impl<T, I> SIVec<T, I> {
    /// The indices that hold a value.
    pub open spec fn held(&self) -> Set<int> {
        Set::new(|i: int| 0 <= i < self@.len() && self@[i] is Some)
    }

    /// One value is stored per index that holds one, so never more values
    /// than slots.
    pub proof fn lemma_stored_counts_held(&self)
        requires
            self.wf(),
        ensures
            self.held().finite(),
            self.stored() == self.held().len(),
            self.stored() <= self@.len(),
    {
        let n = self.stack@.len() as int;
        let f = |p: int| self.stack@[p].index as int;
        let x = set_int_range(0, n);
        lemma_int_range(0, n);
        assert(injective_on(f, x)) by {
            assert forall|p1: int, p2: int|
                x.contains(p1) && x.contains(p2) && #[trigger] f(p1) == #[trigger] f(p2) implies p1
                == p2 by {
                assert(self.stack@[p1] == self.stack@[p1]);
                assert(self.stack@[p2] == self.stack@[p2]);
            }
        }
        assert(x.map(f) =~= self.held()) by {
            assert forall|j: int| x.map(f).contains(j) implies self.held().contains(j) by {
                let p = choose|p: int| x.contains(p) && j == f(p);
                assert(self.stack@[p] == self.stack@[p]);
            }
            assert forall|j: int| self.held().contains(j) implies x.map(f).contains(j) by {
                assert(self.live(j));
                let p = self.table@[j] as int;
                assert(x.contains(p) && j == f(p));
            }
        }
        lemma_map_size(x, x.map(f), f);
        lemma_int_range(0, self@.len() as int);
        lemma_len_subset(self.held(), set_int_range(0, self@.len() as int));
    }
}

impl<T> SIVec<T, NoDefault> {
    /// A vector of `cap` slots with no default: each slot must be written
    /// before it is read.
    pub fn new(cap: usize) -> (r: Self)
        requires
            cap <= MAX_CAP,
        ensures
            r.wf(),
            r@ == Seq::new(cap as nat, |i: int| None::<T>),
            r.stored() == 0,
    {
        let r = SIVec { table: vec![0usize; cap], stack: Vec::new(), init: NoDefault };
        assert(r@ =~= Seq::new(cap as nat, |i: int| None::<T>));
        r
    }
}

impl<T: Clone> SIVec<T, Constant<T>> {
    /// A vector of `cap` slots, each of which starts as a clone of `value`.
    pub fn with_init(cap: usize, value: T) -> (r: Self)
        requires
            cap <= MAX_CAP,
        ensures
            r.wf(),
            r@ == Seq::new(cap as nat, |i: int| None::<T>),
            r.stored() == 0,
            r.initializer() == (Constant { value }),
    {
        let r = SIVec { table: vec![0usize; cap], stack: Vec::new(), init: Constant { value } };
        assert(r@ =~= Seq::new(cap as nat, |i: int| None::<T>));
        r
    }
}

impl<T, F: Fn(usize) -> T> SIVec<T, F> {
    /// A vector of `cap` slots, where slot `i` starts as `init_fn(i)`.
    pub fn with_init_fn(cap: usize, init_fn: F) -> (r: Self)
        requires
            cap <= MAX_CAP,
        ensures
            r.wf(),
            r@ == Seq::new(cap as nat, |i: int| None::<T>),
            r.stored() == 0,
            r.initializer() == init_fn,
    {
        let r = SIVec { table: vec![0usize; cap], stack: Vec::new(), init: init_fn };
        assert(r@ =~= Seq::new(cap as nat, |i: int| None::<T>));
        r
    }
}

impl<T, I: Initializer<T>> SIVec<T, I> {
    /// The fixed number of slots.
    pub fn cap(&self) -> (r: usize)
        ensures
            r == self@.len(),
    {
        self.table.len()
    }

    /// The stack position holding slot `index`'s value, if it holds one.
    fn locate(&self, index: usize) -> (r: Option<usize>)
        requires
            self.wf(),
            index < self.table@.len(),
        ensures
            r is Some <==> self.live(index as int),
            r matches Some(p) ==> p == self.table@[index as int],
    {
        let p = self.table[index];
        if p < self.stack.len() && self.stack[p].index == index {
            Some(p)
        } else {
            None
        }
    }

    /// Finds the storage for slot `index`, first filling the slot where it
    /// holds no value: with `value` if one is given, else with the
    /// initializer's default. A given `value` also replaces a held one.
    /// Returns the stack position of the slot's value.
    fn resolve(&mut self, index: usize, value: Option<T>) -> (r: Result<usize, SIVecError>)
        requires
            old(self).wf(),
            index < old(self)@.len() && old(self)@[index as int] is None && value is None
                ==> old(self).init.accepts(index),
        ensures
            final(self).wf(),
            final(self).init == old(self).init,
            final(self)@.len() == old(self)@.len(),
            r == Err::<usize, SIVecError>(SIVecError::OutOfBounds) <==> index >= old(self)@.len(),
            r == Err::<usize, SIVecError>(SIVecError::Uninitialized) <==> {
                &&& index < old(self)@.len()
                &&& old(self)@[index as int] is None
                &&& value is None
                &&& !old(self).init.supplies(index)
            },
            r is Ok <==> index < old(self)@.len() && (old(self)@[index as int] is Some
                || value is Some || old(self).init.supplies(index)),
            r is Err ==> *final(self) == *old(self),
            r matches Ok(p) ==> {
                &&& final(self).live(index as int)
                &&& final(self).table@[index as int] == p
                &&& final(self)@[index as int] matches Some(v) && final(self)@ == old(self)@.update(
                    index as int,
                    Some(v),
                )
                &&& final(self).stored() == old(self).stored() + old(self).added(index)
                &&& match (value, old(self)@[index as int]) {
                    (Some(x), _) => final(self)@[index as int] == Some(x),
                    (None, Some(x)) => final(self)@[index as int] == Some(x),
                    (None, None) => final(self).init.yields(
                        index,
                        final(self)@[index as int]->Some_0,
                    ),
                }
            },
    {
        if index >= self.table.len() {
            return Err(SIVecError::OutOfBounds);
        }
        match self.locate(index) {
            Some(p) => {
                if let Some(v) = value {
                    self.stack[p] = Slot { value: v, index };
                }
                assert(self@ =~= old(self)@.update(index as int, Some(self.stack@[p as int].value)));
                Ok(p)
            },
            None => {
                let v = match value {
                    Some(v) => v,
                    None => match self.init.make(index) {
                        Some(d) => d,
                        None => {
                            return Err(SIVecError::Uninitialized);
                        },
                    },
                };
                let p = self.stack.len();
                self.stack.push(Slot { value: v, index });
                self.table[index] = p;
                assert(self@ =~= old(self)@.update(index as int, Some(v))) by {
                    assert forall|j: int| 0 <= j < self@.len() && j != index implies self.live(j)
                        == old(self).live(j) by {
                        if self.table@[j] == p {
                            assert(self.stack@[p as int].index == index);
                        }
                        if old(self).live(j) {
                            let q = old(self).table@[j] as int;
                            assert(old(self).stack@[q] == old(self).stack@[q]);
                        }
                    }
                }
                Ok(p)
            },
        }
    }
}

impl<T, I: Initializer<T>> SIVec<T, I> {
    /// 1 where slot `index` holds no value yet, so that filling it stores
    /// one more value; else 0.
    pub open spec fn added(&self, index: usize) -> nat {
        if self@[index as int] is Some {
            0
        } else {
            1
        }
    }

    /// Slot `index` holds a value, or the initializer may be asked for one
    /// and always gives one.
    pub open spec fn readable(&self, index: usize) -> bool {
        &&& index < self@.len()
        &&& self@[index as int] is None ==> {
            &&& self.initializer().accepts(index)
            &&& self.initializer().supplies(index)
        }
    }

    /// `after` is `self` as `set(index, value)` leaves it.
    pub open spec fn set_outcome(&self, after: Self, index: usize, value: T) -> bool {
        &&& after.wf()
        &&& after.initializer() == self.initializer()
        &&& after@ == self@.update(index as int, Some(value))
        &&& after.stored() == self.stored() + self.added(index)
    }

    /// `after` and `r` are `self` and the value read as `get(index)` leaves
    /// them: the value held, or else a default, now held.
    pub open spec fn get_outcome(&self, after: Self, index: usize, r: T) -> bool {
        &&& after.wf()
        &&& after.initializer() == self.initializer()
        &&& after@ == self@.update(index as int, Some(r))
        &&& after.stored() == self.stored() + self.added(index)
        &&& match self@[index as int] {
            Some(v) => r == v,
            None => self.initializer().yields(index, r),
        }
    }

    /// Stores `value` at `index`, replacing any value held there. Never asks
    /// the initializer for a default.
    pub fn set(&mut self, index: usize, value: T)
        requires
            old(self).wf(),
            index < old(self)@.len(),
        ensures
            old(self).set_outcome(*final(self), index, value),
    {
        let _ = self.resolve(index, Some(value));
    }

    /// As `set`, but an index beyond the capacity is reported instead of
    /// being ruled out.
    pub fn try_set(&mut self, index: usize, value: T) -> (r: Result<(), SIVecError>)
        requires
            old(self).wf(),
        ensures
            r is Ok <==> index < old(self)@.len(),
            r is Ok ==> old(self).set_outcome(*final(self), index, value),
            r is Err ==> {
                &&& r == Err::<(), SIVecError>(SIVecError::OutOfBounds)
                &&& *final(self) == *old(self)
            },
    {
        match self.resolve(index, Some(value)) {
            Ok(_) => Ok(()),
            Err(e) => Err(e),
        }
    }

    /// The value at `index`. A slot that holds none is first filled with
    /// the initializer's default.
    pub fn get(&mut self, index: usize) -> (r: &T)
        requires
            old(self).wf(),
            old(self).readable(index),
        ensures
            old(self).get_outcome(*final(self), index, *r),
    {
        match self.resolve(index, None) {
            Ok(p) => &self.stack[p].value,
            Err(_) => vstd::pervasive::unreached(),
        }
    }

    /// Mutable access to the value at `index`, as indexed assignment gives
    /// it. A slot that holds none is first filled with the initializer's
    /// default, which the caller may then overwrite.
    pub fn get_mut(&mut self, index: usize) -> (r: &mut T)
        requires
            old(self).wf(),
            old(self).readable(index),
        ensures
            match old(self)@[index as int] {
                Some(v) => *r == v,
                None => old(self).initializer().yields(index, *r),
            },
            final(self).wf(),
            final(self).initializer() == old(self).initializer(),
            final(self)@ == old(self)@.update(index as int, Some(*final(r))),
            final(self).stored() == old(self).stored() + old(self).added(index),
    {
        match self.resolve(index, None) {
            Ok(p) => {
                proof {
                    self.lemma_value_replaced(p as int, index as int);
                }
                let slot = &mut self.stack[p];
                &mut slot.value
            },
            Err(_) => vstd::pervasive::unreached(),
        }
    }

    /// As `get`, but an index beyond the capacity, or a slot with no value
    /// and no default, is reported instead of being ruled out.
    pub fn try_get(&mut self, index: usize) -> (r: Result<&T, SIVecError>)
        requires
            old(self).wf(),
            index < old(self)@.len() && old(self)@[index as int] is None
                ==> old(self).initializer().accepts(index),
        ensures
            r is Ok <==> index < old(self)@.len() && (old(self)@[index as int] is Some
                || old(self).initializer().supplies(index)),
            r matches Ok(v) ==> old(self).get_outcome(*final(self), index, *v),
            r matches Err(e) ==> {
                &&& *final(self) == *old(self)
                &&& e == SIVecError::OutOfBounds <==> index >= old(self)@.len()
            },
    {
        match self.resolve(index, None) {
            Ok(p) => Ok(&self.stack[p].value),
            Err(e) => Err(e),
        }
    }
}

} // verus!
