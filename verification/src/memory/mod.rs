//! Memory abstractions: stores that hand out identifiers for values.

pub mod repr;

use vstd::prelude::*;

verus! {

/// A memory store.
pub trait Memory<T> {
    /// An identifier for a value in memory.
    type Id;

    /// What the memory holds under `id`, if anything.
    spec fn slot(&self, id: Self::Id) -> Option<T>;

    /// Gets a value from memory if it exists.
    fn get(&self, id: &Self::Id) -> (r: Option<&T>)
        ensures
            match r {
                Some(v) => self.slot(*id) == Some(*v),
                None => self.slot(*id) is None,
            },
    ;

    /// Allocates a value in memory, under an identifier that held nothing.
    fn allocate(&mut self, value: T) -> (id: Self::Id)
        ensures
            old(self).slot(id) is None,
            final(self).slot(id) == Some(value),
            forall|j: Self::Id| j != id ==> #[trigger] final(self).slot(j) == old(self).slot(j),
    ;
}

/// A mutable memory store.
pub trait MemoryMut<T>: Memory<T> {
    /// Sets a value in memory, under an identifier that holds one already.
    fn set(&mut self, id: &Self::Id, value: T)
        requires
            old(self).slot(*id) is Some,
        ensures
            final(self).slot(*id) == Some(value),
            forall|j: Self::Id| j != *id ==> #[trigger] final(self).slot(j) == old(self).slot(j),
    ;
}

impl<T> Memory<T> for Vec<T> {
    type Id = usize;

    open spec fn slot(&self, id: usize) -> Option<T> {
        if id < self@.len() {
            Some(self@[id as int])
        } else {
            None
        }
    }

    fn get(&self, id: &usize) -> (r: Option<&T>) {
        if *id < self.len() {
            Some(&self[*id])
        } else {
            None
        }
    }

    fn allocate(&mut self, value: T) -> (id: usize) {
        let id = self.len();
        self.push(value);
        id
    }
}

impl<T> MemoryMut<T> for Vec<T> {
    fn set(&mut self, id: &usize, value: T) {
        let ghost prev = self@;
        vstd::pervasive::VecAdditionalExecFns::set(self, *id, value);
        assert(self@ == prev.update(*id as int, value));
    }
}

} // verus!
