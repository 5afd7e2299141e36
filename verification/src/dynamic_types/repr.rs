//! Type representations in memory.
//!
//! Data may be stored in memory in a different format than it is represented
//! in a program: a representation records where in memory the parts of a
//! value are kept, and reads, writes and allocates whole values.

pub mod binary;

use vstd::prelude::*;

use crate::dynamic_types::{Memory, MemoryAlloc, MemoryGet, MemoryMut};

verus! {

/// All the identifiers hold something in `mem`.
pub open spec fn all_present<M: Memory>(mem: &M, ids: Seq<M::Id>) -> bool {
    forall|i: int| 0 <= i < ids.len() ==> (#[trigger] mem.slot(ids[i])) is Some
}

/// No identifier occurs twice.
pub open spec fn distinct<Id>(ids: Seq<Id>) -> bool {
    forall|i: int, j: int| 0 <= i < ids.len() && 0 <= j < ids.len() && i != j ==> ids[i] != ids[j]
}

/// `after` holds what `before` holds under every identifier outside `ids`.
pub open spec fn unchanged_outside<M: Memory>(before: &M, after: &M, ids: Seq<M::Id>) -> bool {
    forall|id: M::Id| !ids.contains(id) ==> #[trigger] after.slot(id) == before.slot(id)
}

/// None of the identifiers held anything in `mem`.
pub open spec fn all_fresh<M: Memory>(mem: &M, ids: Seq<M::Id>) -> bool {
    forall|i: int| 0 <= i < ids.len() ==> (#[trigger] mem.slot(ids[i])) is None
}

/// A representation of a value of type `V` in memory `M`.
pub trait Repr<V, M: Memory> {
    /// Type information for `V`.
    type Type;

    /// The memory identifiers the representation uses.
    spec fn ids(&self) -> Seq<M::Id>;

    /// The value the representation reads from `mem`: `None` if one of its
    /// identifiers holds nothing.
    spec fn read(&self, mem: &M) -> Option<V>;

    /// `value` is of the type the representation stands for.
    spec fn fits(&self, value: V) -> bool;

    /// Gets a value from memory if it exists.
    fn get(&self, mem: &M) -> (r: Option<V>)
        where
            M: MemoryGet,
        ensures
            r == self.read(mem),
    ;

    /// Sets a value in memory. When no identifier occurs twice, the
    /// representation then reads back `value`.
    fn set(&self, mem: &mut M, value: V)
        where
            M: MemoryMut,
        requires
            all_present(old(mem), self.ids()),
            self.fits(value),
        ensures
            all_present(final(mem), self.ids()),
            unchanged_outside(old(mem), final(mem), self.ids()),
            distinct(self.ids()) ==> self.read(final(mem)) == Some(value),
    ;

    /// Allocates a value in memory: the representation uses identifiers that
    /// held nothing before, no two alike, and reads back `value`.
    fn allocate(mem: &mut M, value: V) -> (r: Self) where Self: Sized, M: MemoryAlloc
        ensures
            r.fits(value),
            all_fresh(old(mem), r.ids()),
            distinct(r.ids()),
            all_present(final(mem), r.ids()),
            unchanged_outside(old(mem), final(mem), r.ids()),
            r.read(final(mem)) == Some(value),
    ;
}

} // verus!
