use vstd::prelude::*;

verus! {

/// The policy that supplies a value for an index read before it was written.
pub trait Initializer<T>: Sized {
    /// Whether `make` may be called for `index`.
    spec fn accepts(&self, index: usize) -> bool;

    /// Whether `make` hands back a value for `index` at all.
    spec fn supplies(&self, index: usize) -> bool;

    /// Whether `value` is a possible default for `index`.
    spec fn yields(&self, index: usize, value: T) -> bool;

    /// Produces the default for `index`, or `None` where the policy has none.
    fn make(&self, index: usize) -> (r: Option<T>)
        requires
            self.accepts(index),
        ensures
            r is Some <==> self.supplies(index),
            r matches Some(v) ==> self.yields(index, v),
    ;
}

/// No default: reading a slot before it was written is an error.
pub struct NoDefault;

impl<T> Initializer<T> for NoDefault {
    open spec fn accepts(&self, index: usize) -> bool {
        true
    }

    open spec fn supplies(&self, index: usize) -> bool {
        false
    }

    open spec fn yields(&self, index: usize, value: T) -> bool {
        false
    }

    fn make(&self, index: usize) -> (r: Option<T>) {
        None
    }
}

/// Every unwritten slot starts as a clone of one value.
pub struct Constant<T> {
    pub value: T,
}

impl<T: Clone> Initializer<T> for Constant<T> {
    open spec fn accepts(&self, index: usize) -> bool {
        true
    }

    open spec fn supplies(&self, index: usize) -> bool {
        true
    }

    open spec fn yields(&self, index: usize, value: T) -> bool {
        cloned(self.value, value)
    }

    fn make(&self, index: usize) -> (r: Option<T>) {
        Some(self.value.clone())
    }
}

/// A function of the index supplies each slot's default.
impl<T, F: Fn(usize) -> T> Initializer<T> for F {
    open spec fn accepts(&self, index: usize) -> bool {
        self.requires((index,))
    }

    open spec fn supplies(&self, index: usize) -> bool {
        true
    }

    open spec fn yields(&self, index: usize, value: T) -> bool {
        self.ensures((index,), value)
    }

    fn make(&self, index: usize) -> (r: Option<T>) {
        Some(self(index))
    }
}

} // verus!
