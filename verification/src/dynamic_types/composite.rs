//! Composite types: primitives and arrays of primitives.

pub mod array;

use vstd::prelude::*;

pub use array::{array_type_text, Array, ArrayType, InconsistentType};

use crate::dynamic_types::primitive::binary::BinaryType;
use crate::dynamic_types::primitive::PrimitiveType;

verus! {

/// A static composite type.
pub trait StaticCompositeType<P> {
    /// The composite type.
    const TYPE: CompositeType<P>;
}

/// Type information of a composite.
#[derive(Debug, Clone, Copy, PartialEq)]
pub enum CompositeType<P> {
    /// A primitive.
    Primitive(P),
    /// An array.
    Array {
        /// Element type.
        ty: Option<P>,
        /// Length of the array.
        len: usize,
    },
}

/// A composite.
#[derive(Debug)]
pub enum Composite<P> {
    /// A primitive.
    Primitive(P),
    /// An array.
    Array(Array<P>),
}

impl<P> Composite<P> {
    /// Returns `true` if the composite is a primitive.
    pub fn is_primitive(&self) -> (r: bool)
        ensures
            r == (self is Primitive),
    {
        match self {
            Composite::Primitive(_) => true,
            Composite::Array(_) => false,
        }
    }

    /// Returns `true` if the composite is an array.
    pub fn is_array(&self) -> (r: bool)
        ensures
            r == (self is Array),
    {
        match self {
            Composite::Primitive(_) => false,
            Composite::Array(_) => true,
        }
    }
}

impl<P: PrimitiveType> Composite<P> {
    /// The type of the composite.
    pub open spec fn type_spec(&self) -> CompositeType<P::Type> {
        match self {
            Composite::Primitive(p) => CompositeType::Primitive(p.type_of()),
            Composite::Array(arr) => CompositeType::Array {
                ty: if arr.elems().len() == 0 {
                    None
                } else {
                    Some(arr.elems()[0].type_of())
                },
                len: arr.elems().len() as usize,
            },
        }
    }

    /// Returns the composite type.
    pub fn composite_type(&self) -> (r: CompositeType<P::Type>)
        ensures
            r == self.type_spec(),
    {
        match self {
            Composite::Primitive(p) => CompositeType::Primitive(p.primitive_type()),
            Composite::Array(arr) => CompositeType::Array { ty: arr.primitive_type(), len: arr.len() },
        }
    }
}

impl CompositeType<BinaryType> {
    /// Returns the text the type is displayed as: the primitive's name, or
    /// the array type's text.
    pub fn to_string(&self) -> (r: String)
        ensures
            r@ == match self {
                CompositeType::Primitive(p) => p.name_spec(),
                CompositeType::Array { ty, len } => array_type_text(*ty, *len),
            },
    {
        match self {
            CompositeType::Primitive(p) => p.name().to_owned(),
            CompositeType::Array { ty, len } => match ty {
                Some(t) => crate::text::array_text(t.name(), *len),
                None => {
                    proof {
                        reveal_strlit("[]");
                    }
                    "[]".to_owned()
                },
            },
        }
    }
}

} // verus!
