//! Dynamic types: memories, primitive and composite values, and their
//! representations in memory.

pub mod composite;
pub mod primitive;
pub mod repr;

use vstd::prelude::*;

verus! {

/// A memory type.
pub trait Memory {
    /// A memory identifier.
    type Id;

    /// Type of value stored in memory.
    type Type;

    /// What the memory holds under `id`, if anything.
    spec fn slot(&self, id: Self::Id) -> Option<Self::Type>;
}

/// A memory store.
pub trait MemoryGet: Memory {
    /// Gets a value from memory if it exists.
    fn get(&self, id: &Self::Id) -> (r: Option<&Self::Type>)
        ensures
            match r {
                Some(v) => self.slot(*id) == Some(*v),
                None => self.slot(*id) is None,
            },
    ;
}

/// A memory that can be mutated.
pub trait MemoryMut: Memory {
    /// Sets a value in memory, under an identifier that holds one already.
    fn set(&mut self, id: &Self::Id, value: Self::Type)
        requires
            old(self).slot(*id) is Some,
        ensures
            final(self).slot(*id) == Some(value),
            forall|j: Self::Id| j != *id ==> #[trigger] final(self).slot(j) == old(self).slot(j),
    ;
}

/// A memory that can allocate values.
pub trait MemoryAlloc: Memory {
    /// Allocates a value in memory, under an identifier that held nothing.
    fn allocate(&mut self, value: Self::Type) -> (id: Self::Id)
        ensures
            old(self).slot(id) is None,
            final(self).slot(id) == Some(value),
            forall|j: Self::Id| j != id ==> #[trigger] final(self).slot(j) == old(self).slot(j),
    ;
}

impl<T> Memory for Vec<T> {
    type Id = usize;

    type Type = T;

    open spec fn slot(&self, id: usize) -> Option<T> {
        if id < self@.len() {
            Some(self@[id as int])
        } else {
            None
        }
    }
}

impl<T> MemoryGet for Vec<T> {
    fn get(&self, id: &usize) -> (r: Option<&T>) {
        if *id < self.len() {
            Some(&self[*id])
        } else {
            None
        }
    }
}

impl<T> MemoryMut for Vec<T> {
    fn set(&mut self, id: &usize, value: T) {
        let ghost prev = self@;
        vstd::pervasive::VecAdditionalExecFns::set(self, *id, value);
        assert(self@ == prev.update(*id as int, value));
    }
}

impl<T> MemoryAlloc for Vec<T> {
    fn allocate(&mut self, value: T) -> (id: usize) {
        let id = self.len();
        self.push(value);
        id
    }
}

/// A conversion error.
#[derive(Debug)]
pub struct ConvertError {
    message: String,
}

impl ConvertError {
    /// The description of the error.
    pub closed spec fn message_spec(&self) -> Seq<char> {
        self.message@
    }

    /// Creates a new conversion error.
    pub fn new(message: String) -> (r: Self)
        ensures
            r.message_spec() == message@,
    {
        ConvertError { message }
    }

    /// Returns the description of the error.
    pub fn message(&self) -> (r: &str)
        ensures
            r@ == self.message_spec(),
    {
        self.message.as_str()
    }

    /// Returns the text the error is displayed as:
    /// `failed to convert value: ` and the description.
    pub fn to_string(&self) -> (r: String)
        ensures
            r@ == "failed to convert value: "@ + self.message_spec(),
    {
        crate::text::joined_text("failed to convert value: ", self.message.as_str())
    }
}

} // verus!
