//! Primitive types.

pub mod binary;

use vstd::prelude::*;

verus! {

/// A primitive type.
pub trait PrimitiveType {
    /// The primitive type.
    type Type: Copy + PartialEq;

    /// The primitive type of the value.
    spec fn type_of(&self) -> Self::Type;

    /// Returns the primitive type.
    fn primitive_type(&self) -> (r: Self::Type)
        ensures
            r == self.type_of(),
    ;
}

/// A static primitive type.
pub trait StaticPrimitiveType: PrimitiveType {
    /// The primitive type.
    const TYPE: Self::Type;
}

} // verus!
