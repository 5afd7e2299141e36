//! Representation of values in memory.
//!
//! Data may be stored in memory in a different format than it is represented
//! in a program. For example, memory is often byte-addressable while a
//! program may operate on higher-level data types such as 32-bit integers.
//! A representation is the interface between the two.

pub mod binary;

use vstd::prelude::*;

use crate::memory::{Memory, MemoryMut};

verus! {

/// All the identifiers hold something in `mem`.
pub open spec fn all_present<T, M: Memory<T>>(mem: &M, ids: Seq<M::Id>) -> bool {
    forall|i: int| 0 <= i < ids.len() ==> (#[trigger] mem.slot(ids[i])) is Some
}

/// None of the identifiers held anything in `mem`.
pub open spec fn all_fresh<T, M: Memory<T>>(mem: &M, ids: Seq<M::Id>) -> bool {
    forall|i: int| 0 <= i < ids.len() ==> (#[trigger] mem.slot(ids[i])) is None
}

/// No identifier occurs twice.
pub open spec fn distinct<Id>(ids: Seq<Id>) -> bool {
    forall|i: int, j: int| 0 <= i < ids.len() && 0 <= j < ids.len() && i != j ==> ids[i] != ids[j]
}

/// `after` holds what `before` holds under every identifier outside `ids`.
pub open spec fn unchanged_outside<T, M: Memory<T>>(before: &M, after: &M, ids: Seq<M::Id>) -> bool {
    forall|id: M::Id| !ids.contains(id) ==> #[trigger] after.slot(id) == before.slot(id)
}

/// A representation of a value in memory.
pub trait Repr<T, M: Memory<T>> {
    /// Type of value represented.
    type Value;

    /// The memory identifiers the representation uses.
    spec fn ids(&self) -> Seq<M::Id>;

    /// `mem` holds `value` at this representation.
    spec fn holds(&self, mem: &M, value: Self::Value) -> bool;

    /// `value` has the type the representation stands for.
    spec fn fits(&self, value: Self::Value) -> bool;

    /// `value` can be written at the representation without a type clash.
    spec fn writable(&self, value: Self::Value) -> bool;

    /// Gets a value from memory if it exists: `None` exactly when one of the
    /// representation's identifiers holds nothing.
    fn get(&self, mem: &M) -> (r: Option<Self::Value>)
        ensures
            r is Some <==> all_present(mem, self.ids()),
            r matches Some(v) ==> self.holds(mem, v),
    ;

    /// Sets a value in memory. When the value has the representation's type
    /// and no identifier occurs twice, memory then holds `value` at the
    /// representation.
    fn set(&self, mem: &mut M, value: Self::Value)
        where
            M: MemoryMut<T>,
        requires
            all_present(old(mem), self.ids()),
            self.writable(value),
        ensures
            all_present(final(mem), self.ids()),
            unchanged_outside(old(mem), final(mem), self.ids()),
            distinct(self.ids()) && self.fits(value) ==> self.holds(final(mem), value),
    ;

    /// Allocates a value in memory, under identifiers that held nothing, no
    /// two alike.
    fn allocate(mem: &mut M, value: Self::Value) -> (r: Self) where Self: Sized
        ensures
            r.fits(value),
            all_fresh(old(mem), r.ids()),
            distinct(r.ids()),
            all_present(final(mem), r.ids()),
            unchanged_outside(old(mem), final(mem), r.ids()),
            r.holds(final(mem), value),
    ;
}

} // verus!
