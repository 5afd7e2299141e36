//! Dynamically typed binary values: primitives and arrays of primitives.

pub mod collections;
pub mod primitive;

use rand::rngs::StdRng;
use vstd::prelude::*;

pub use collections::{Array, ArrayError, ErrorKind};
pub use primitive::{Primitive, PrimitiveType};

use crate::binary_types::collections::all_of_type;
use crate::bits::{is_lsb0_of, is_msb0_of};

verus! {

/// A type with a bit length.
pub trait BitLength {
    /// The bit length, as a number.
    spec fn bit_len(&self) -> int;

    /// Returns the bit length of the value.
    fn bit_length(&self) -> (r: usize)
        requires
            self.bit_len() <= usize::MAX,
        ensures
            r == self.bit_len(),
    ;
}

/// A type with a static bit length.
pub trait StaticBitLength {
    /// The bit length of the value.
    const BIT_LENGTH: usize;
}

/// A static binary type.
pub trait StaticPrimitiveType: StaticBitLength + Sized {
    /// The binary type.
    const TYPE: PrimitiveType;

    /// The binary type, as `TYPE` holds it.
    spec fn type_spec() -> PrimitiveType;

    /// Returns the binary type, `TYPE`.
    fn static_type() -> (r: PrimitiveType)
        ensures
            r == Self::type_spec(),
    ;

    /// The primitive that a value of this type converts to.
    spec fn to_primitive(self) -> Primitive;

    /// Converts the value into a primitive of type `TYPE`.
    fn into_primitive(self) -> (p: Primitive)
        ensures
            p == self.to_primitive(),
            p.ty() == Self::type_spec(),
    ;
}

/// A static type.
pub trait StaticType {
    /// The type.
    const TYPE: ValueType;
}

/// A value type.
#[derive(Debug, Clone, Copy, PartialEq, Eq, Hash, Structural)]
pub enum ValueType {
    /// A primitive value.
    Primitive(PrimitiveType),
    /// An array value.
    Array {
        /// Type of elements.
        ty: PrimitiveType,
        /// The length of the array.
        len: usize,
    },
}

impl BitLength for ValueType {
    open spec fn bit_len(&self) -> int {
        match self {
            ValueType::Primitive(p) => p.width() as int,
            ValueType::Array { ty, len } => (ty.width() * (*len as nat)) as int,
        }
    }

    fn bit_length(&self) -> (r: usize) {
        match self {
            ValueType::Primitive(primitive_type) => primitive_type.bit_length(),
            ValueType::Array { ty, len } => ty.bit_length() * len,
        }
    }
}

/// A value.
#[derive(Debug, PartialEq, Eq, Hash)]
pub enum Value {
    /// A primitive value.
    Primitive(Primitive),
    /// An array value.
    Array(Array),
}

impl Value {
    /// The type of the value.
    pub open spec fn ty(self) -> ValueType {
        match self {
            Value::Primitive(p) => ValueType::Primitive(p.ty()),
            Value::Array(a) => ValueType::Array { ty: a.ty(), len: a.elems().len() as usize },
        }
    }

    /// Returns the type of the value.
    pub fn value_type(&self) -> (r: ValueType)
        ensures
            r == self.ty(),
            self matches Value::Array(a) ==> a.elems().len() <= usize::MAX,
    {
        match self {
            Value::Primitive(primitive) => ValueType::Primitive(primitive.primitive_type()),
            Value::Array(array) => ValueType::Array { ty: array.elem_type(), len: array.len() },
        }
    }

    /// The bits of the value, least significant first within each element.
    pub open spec fn lsb0_ok(self, bits: Seq<bool>) -> bool {
        match self {
            Value::Primitive(p) => is_lsb0_of(bits, p.as_int(), p.ty().width()),
            Value::Array(a) => Array::flat_bits_ok(a.elems(), a.ty().width(), bits, false),
        }
    }

    /// The bits of the value, most significant first within each element.
    pub open spec fn msb0_ok(self, bits: Seq<bool>) -> bool {
        match self {
            Value::Primitive(p) => is_msb0_of(bits, p.as_int(), p.ty().width()),
            Value::Array(a) => Array::flat_bits_ok(a.elems(), a.ty().width(), bits, true),
        }
    }

    /// Converts the value into bits, least significant first within each element.
    pub fn into_lsb0_vec(self) -> (bits: Vec<bool>)
        requires
            self.bit_len() <= usize::MAX,
        ensures
            self.lsb0_ok(bits@),
    {
        match self {
            Value::Primitive(primitive) => primitive.into_lsb0_vec(),
            Value::Array(array) => array.into_lsb0_vec(),
        }
    }

    /// Converts the value into bits, most significant first within each element.
    pub fn into_msb0_vec(self) -> (bits: Vec<bool>)
        requires
            self.bit_len() <= usize::MAX,
        ensures
            self.msb0_ok(bits@),
    {
        match self {
            Value::Primitive(primitive) => primitive.into_msb0_vec(),
            Value::Array(array) => array.into_msb0_vec(),
        }
    }
}

impl BitLength for Value {
    open spec fn bit_len(&self) -> int {
        match self {
            Value::Primitive(p) => p.ty().width() as int,
            Value::Array(a) => (a.ty().width() * a.elems().len()) as int,
        }
    }

    fn bit_length(&self) -> (r: usize) {
        match self {
            Value::Primitive(primitive) => primitive.bit_length(),
            Value::Array(array) => array.bit_length(),
        }
    }
}

impl Clone for Value {
    fn clone(&self) -> (r: Self)
        ensures
            r.ty() == self.ty(),
            match (r, *self) {
                (Value::Primitive(p), Value::Primitive(q)) => p == q,
                (Value::Array(a), Value::Array(b)) => a.ty() == b.ty() && a.elems() == b.elems(),
                _ => false,
            },
    {
        match self {
            Value::Primitive(p) => Value::Primitive(*p),
            Value::Array(a) => Value::Array(a.clone()),
        }
    }
}

/// A value conversion error.
#[derive(Debug)]
pub struct ValueConvertError {
    expected: ValueType,
    actual: ValueType,
}

impl ValueConvertError {
    /// The expected type.
    pub closed spec fn expected_spec(self) -> ValueType {
        self.expected
    }

    /// The actual type.
    pub closed spec fn actual_spec(self) -> ValueType {
        self.actual
    }

    /// The error for a value of type `actual` where one of type `expected`
    /// was wanted.
    pub closed spec fn of(expected: ValueType, actual: ValueType) -> Self {
        ValueConvertError { expected, actual }
    }

    /// The error made by `of` holds the two types.
    pub proof fn lemma_of(expected: ValueType, actual: ValueType)
        ensures
            Self::of(expected, actual).expected_spec() == expected,
            Self::of(expected, actual).actual_spec() == actual,
    {
    }

    pub(crate) fn new(expected: ValueType, actual: ValueType) -> (r: Self)
        ensures
            r == Self::of(expected, actual),
            r.expected_spec() == expected,
            r.actual_spec() == actual,
    {
        Self { expected, actual }
    }

    /// Returns the expected value type.
    pub fn expected(&self) -> (r: ValueType)
        ensures
            r == self.expected_spec(),
    {
        self.expected
    }

    /// Returns the actual value type.
    pub fn actual(&self) -> (r: ValueType)
        ensures
            r == self.actual_spec(),
    {
        self.actual
    }
}

/// `v` is a primitive value of type `ty` that holds the number `x`.
pub open spec fn holds_primitive(v: Value, ty: PrimitiveType, x: int) -> bool {
    &&& v.ty() == ValueType::Primitive(ty)
    &&& v matches Value::Primitive(p) && p.as_int() == x
}

/// Converting a Rust primitive into a value gives the primitive of the
/// matching type (a `bool` a bit, a `u32` a `U32`, and so on) holding the
/// same number, and converting that value back gives the number again.
pub proof fn lemma_value_from_primitive(b: bool, x8: u8, x16: u16, x32: u32, x64: u64, x128: u128)
    ensures
        holds_primitive(
            <Value as vstd::std_specs::convert::FromSpec<bool>>::from_spec(b),
            PrimitiveType::Bit,
            if b { 1 } else { 0 },
        ),
        holds_primitive(<Value as vstd::std_specs::convert::FromSpec<u8>>::from_spec(x8), PrimitiveType::U8, x8 as int),
        holds_primitive(<Value as vstd::std_specs::convert::FromSpec<u16>>::from_spec(x16), PrimitiveType::U16, x16 as int),
        holds_primitive(<Value as vstd::std_specs::convert::FromSpec<u32>>::from_spec(x32), PrimitiveType::U32, x32 as int),
        holds_primitive(<Value as vstd::std_specs::convert::FromSpec<u64>>::from_spec(x64), PrimitiveType::U64, x64 as int),
        holds_primitive(<Value as vstd::std_specs::convert::FromSpec<u128>>::from_spec(x128), PrimitiveType::U128, x128 as int),
        <bool as vstd::std_specs::convert::TryFromSpec<Value>>::try_from_spec(
            <Value as vstd::std_specs::convert::FromSpec<bool>>::from_spec(b),
        ) == Ok::<bool, ValueConvertError>(b),
        <u8 as vstd::std_specs::convert::TryFromSpec<Value>>::try_from_spec(
            <Value as vstd::std_specs::convert::FromSpec<u8>>::from_spec(x8),
        ) == Ok::<u8, ValueConvertError>(x8),
        <u16 as vstd::std_specs::convert::TryFromSpec<Value>>::try_from_spec(
            <Value as vstd::std_specs::convert::FromSpec<u16>>::from_spec(x16),
        ) == Ok::<u16, ValueConvertError>(x16),
        <u32 as vstd::std_specs::convert::TryFromSpec<Value>>::try_from_spec(
            <Value as vstd::std_specs::convert::FromSpec<u32>>::from_spec(x32),
        ) == Ok::<u32, ValueConvertError>(x32),
        <u64 as vstd::std_specs::convert::TryFromSpec<Value>>::try_from_spec(
            <Value as vstd::std_specs::convert::FromSpec<u64>>::from_spec(x64),
        ) == Ok::<u64, ValueConvertError>(x64),
        <u128 as vstd::std_specs::convert::TryFromSpec<Value>>::try_from_spec(
            <Value as vstd::std_specs::convert::FromSpec<u128>>::from_spec(x128),
        ) == Ok::<u128, ValueConvertError>(x128),
{
}

/// Converting a Rust primitive into a primitive value gives the primitive
/// of the matching type holding the same number, and converting it back
/// gives the number again.
pub proof fn lemma_primitive_from_rust(b: bool, x8: u8, x16: u16, x32: u32, x64: u64, x128: u128)
    ensures
        ({
            let p = <Primitive as vstd::std_specs::convert::FromSpec<bool>>::from_spec(b);
            p.ty() == PrimitiveType::Bit && p.as_int() == (if b { 1int } else { 0int })
        }),
        ({
            let p = <Primitive as vstd::std_specs::convert::FromSpec<u8>>::from_spec(x8);
            p.ty() == PrimitiveType::U8 && p.as_int() == x8 as int
        }),
        ({
            let p = <Primitive as vstd::std_specs::convert::FromSpec<u16>>::from_spec(x16);
            p.ty() == PrimitiveType::U16 && p.as_int() == x16 as int
        }),
        ({
            let p = <Primitive as vstd::std_specs::convert::FromSpec<u32>>::from_spec(x32);
            p.ty() == PrimitiveType::U32 && p.as_int() == x32 as int
        }),
        ({
            let p = <Primitive as vstd::std_specs::convert::FromSpec<u64>>::from_spec(x64);
            p.ty() == PrimitiveType::U64 && p.as_int() == x64 as int
        }),
        ({
            let p = <Primitive as vstd::std_specs::convert::FromSpec<u128>>::from_spec(x128);
            p.ty() == PrimitiveType::U128 && p.as_int() == x128 as int
        }),
        <bool as vstd::std_specs::convert::TryFromSpec<Primitive>>::try_from_spec(
            <Primitive as vstd::std_specs::convert::FromSpec<bool>>::from_spec(b),
        ) == Ok::<bool, ValueConvertError>(b),
        <u8 as vstd::std_specs::convert::TryFromSpec<Primitive>>::try_from_spec(
            <Primitive as vstd::std_specs::convert::FromSpec<u8>>::from_spec(x8),
        ) == Ok::<u8, ValueConvertError>(x8),
        <u16 as vstd::std_specs::convert::TryFromSpec<Primitive>>::try_from_spec(
            <Primitive as vstd::std_specs::convert::FromSpec<u16>>::from_spec(x16),
        ) == Ok::<u16, ValueConvertError>(x16),
        <u32 as vstd::std_specs::convert::TryFromSpec<Primitive>>::try_from_spec(
            <Primitive as vstd::std_specs::convert::FromSpec<u32>>::from_spec(x32),
        ) == Ok::<u32, ValueConvertError>(x32),
        <u64 as vstd::std_specs::convert::TryFromSpec<Primitive>>::try_from_spec(
            <Primitive as vstd::std_specs::convert::FromSpec<u64>>::from_spec(x64),
        ) == Ok::<u64, ValueConvertError>(x64),
        <u128 as vstd::std_specs::convert::TryFromSpec<Primitive>>::try_from_spec(
            <Primitive as vstd::std_specs::convert::FromSpec<u128>>::from_spec(x128),
        ) == Ok::<u128, ValueConvertError>(x128),
{
}

/// Converting a value into a Rust primitive succeeds exactly when the value
/// is a primitive of the matching type, and then gives the number it holds;
/// otherwise the error names the type wanted and the value's type.
pub proof fn lemma_primitive_from_value(v: Value)
    ensures
        (<bool as vstd::std_specs::convert::TryFromSpec<Value>>::try_from_spec(v) is Ok) == (v.ty() == ValueType::Primitive(PrimitiveType::Bit)),
        <bool as vstd::std_specs::convert::TryFromSpec<Value>>::try_from_spec(v) matches Ok(x) ==> holds_primitive(v, PrimitiveType::Bit, (if x { 1int } else { 0int })),
        <bool as vstd::std_specs::convert::TryFromSpec<Value>>::try_from_spec(v) matches Err(e) ==> e.expected_spec() == ValueType::Primitive(PrimitiveType::Bit)
            && e.actual_spec() == v.ty(),
        (<u8 as vstd::std_specs::convert::TryFromSpec<Value>>::try_from_spec(v) is Ok) == (v.ty() == ValueType::Primitive(PrimitiveType::U8)),
        <u8 as vstd::std_specs::convert::TryFromSpec<Value>>::try_from_spec(v) matches Ok(x) ==> holds_primitive(v, PrimitiveType::U8, x as int),
        <u8 as vstd::std_specs::convert::TryFromSpec<Value>>::try_from_spec(v) matches Err(e) ==> e.expected_spec() == ValueType::Primitive(PrimitiveType::U8)
            && e.actual_spec() == v.ty(),
        (<u16 as vstd::std_specs::convert::TryFromSpec<Value>>::try_from_spec(v) is Ok) == (v.ty() == ValueType::Primitive(PrimitiveType::U16)),
        <u16 as vstd::std_specs::convert::TryFromSpec<Value>>::try_from_spec(v) matches Ok(x) ==> holds_primitive(v, PrimitiveType::U16, x as int),
        <u16 as vstd::std_specs::convert::TryFromSpec<Value>>::try_from_spec(v) matches Err(e) ==> e.expected_spec() == ValueType::Primitive(PrimitiveType::U16)
            && e.actual_spec() == v.ty(),
        (<u32 as vstd::std_specs::convert::TryFromSpec<Value>>::try_from_spec(v) is Ok) == (v.ty() == ValueType::Primitive(PrimitiveType::U32)),
        <u32 as vstd::std_specs::convert::TryFromSpec<Value>>::try_from_spec(v) matches Ok(x) ==> holds_primitive(v, PrimitiveType::U32, x as int),
        <u32 as vstd::std_specs::convert::TryFromSpec<Value>>::try_from_spec(v) matches Err(e) ==> e.expected_spec() == ValueType::Primitive(PrimitiveType::U32)
            && e.actual_spec() == v.ty(),
        (<u64 as vstd::std_specs::convert::TryFromSpec<Value>>::try_from_spec(v) is Ok) == (v.ty() == ValueType::Primitive(PrimitiveType::U64)),
        <u64 as vstd::std_specs::convert::TryFromSpec<Value>>::try_from_spec(v) matches Ok(x) ==> holds_primitive(v, PrimitiveType::U64, x as int),
        <u64 as vstd::std_specs::convert::TryFromSpec<Value>>::try_from_spec(v) matches Err(e) ==> e.expected_spec() == ValueType::Primitive(PrimitiveType::U64)
            && e.actual_spec() == v.ty(),
        (<u128 as vstd::std_specs::convert::TryFromSpec<Value>>::try_from_spec(v) is Ok) == (v.ty() == ValueType::Primitive(PrimitiveType::U128)),
        <u128 as vstd::std_specs::convert::TryFromSpec<Value>>::try_from_spec(v) matches Ok(x) ==> holds_primitive(v, PrimitiveType::U128, x as int),
        <u128 as vstd::std_specs::convert::TryFromSpec<Value>>::try_from_spec(v) matches Err(e) ==> e.expected_spec() == ValueType::Primitive(PrimitiveType::U128)
            && e.actual_spec() == v.ty(),
{
}

impl From<bool> for Value {
    fn from(value: bool) -> (r: Self)
        ensures
            holds_primitive(r, PrimitiveType::Bit, if value { 1 } else { 0 }),
    {
        Value::Primitive(Primitive::Bit(value))
    }
}

impl vstd::std_specs::convert::FromSpecImpl<bool> for Value {
    open spec fn obeys_from_spec() -> bool {
        true
    }

    open spec fn from_spec(v: bool) -> Value {
        Value::Primitive(Primitive::Bit(v))
    }
}

impl From<u8> for Value {
    fn from(value: u8) -> (r: Self)
        ensures
            holds_primitive(r, PrimitiveType::U8, value as int),
    {
        Value::Primitive(Primitive::U8(value))
    }
}

impl vstd::std_specs::convert::FromSpecImpl<u8> for Value {
    open spec fn obeys_from_spec() -> bool {
        true
    }

    open spec fn from_spec(v: u8) -> Value {
        Value::Primitive(Primitive::U8(v))
    }
}

impl From<u16> for Value {
    fn from(value: u16) -> (r: Self)
        ensures
            holds_primitive(r, PrimitiveType::U16, value as int),
    {
        Value::Primitive(Primitive::U16(value))
    }
}

impl vstd::std_specs::convert::FromSpecImpl<u16> for Value {
    open spec fn obeys_from_spec() -> bool {
        true
    }

    open spec fn from_spec(v: u16) -> Value {
        Value::Primitive(Primitive::U16(v))
    }
}

impl From<u32> for Value {
    fn from(value: u32) -> (r: Self)
        ensures
            holds_primitive(r, PrimitiveType::U32, value as int),
    {
        Value::Primitive(Primitive::U32(value))
    }
}

impl vstd::std_specs::convert::FromSpecImpl<u32> for Value {
    open spec fn obeys_from_spec() -> bool {
        true
    }

    open spec fn from_spec(v: u32) -> Value {
        Value::Primitive(Primitive::U32(v))
    }
}

impl From<u64> for Value {
    fn from(value: u64) -> (r: Self)
        ensures
            holds_primitive(r, PrimitiveType::U64, value as int),
    {
        Value::Primitive(Primitive::U64(value))
    }
}

impl vstd::std_specs::convert::FromSpecImpl<u64> for Value {
    open spec fn obeys_from_spec() -> bool {
        true
    }

    open spec fn from_spec(v: u64) -> Value {
        Value::Primitive(Primitive::U64(v))
    }
}

impl From<u128> for Value {
    fn from(value: u128) -> (r: Self)
        ensures
            holds_primitive(r, PrimitiveType::U128, value as int),
    {
        Value::Primitive(Primitive::U128(value))
    }
}

impl vstd::std_specs::convert::FromSpecImpl<u128> for Value {
    open spec fn obeys_from_spec() -> bool {
        true
    }

    open spec fn from_spec(v: u128) -> Value {
        Value::Primitive(Primitive::U128(v))
    }
}

impl<T: StaticPrimitiveType + Copy, const N: usize> From<[T; N]> for Value {
    fn from(value: [T; N]) -> (r: Self)
        ensures
            r matches Value::Array(a) && a.ty() == T::type_spec() && a.elems() == value@.map_values(
                |e: T| e.to_primitive(),
            ),
    {
        Value::Array(Array::from_array(value))
    }
}

impl<T: StaticPrimitiveType + Copy, const N: usize> vstd::std_specs::convert::FromSpecImpl<[T; N]> for Value {
    open spec fn obeys_from_spec() -> bool {
        false
    }

    open spec fn from_spec(v: [T; N]) -> Value {
        vstd::pervasive::arbitrary()
    }
}

impl ValueType {
    /// The text the type is displayed as: the primitive's name, or
    /// `[name; len]` for an array.
    pub open spec fn text_spec(self) -> Seq<char> {
        match self {
            ValueType::Primitive(p) => p.name_spec(),
            ValueType::Array { ty, len } => seq!['['] + ty.name_spec() + seq![';', ' '] + crate::text::decimal(
                len as nat,
            ) + seq![']'],
        }
    }

    /// Returns the text the type is displayed as.
    pub fn to_string(&self) -> (r: String)
        ensures
            r@ == self.text_spec(),
    {
        match self {
            ValueType::Primitive(p) => p.name().to_owned(),
            ValueType::Array { ty, len } => crate::text::array_text(ty.name(), *len),
        }
    }
}

impl TryFrom<Primitive> for bool {
    type Error = ValueConvertError;

    fn try_from(primitive: Primitive) -> (r: Result<bool, ValueConvertError>) {
        match primitive {
            Primitive::Bit(value) => Ok(value),
            _ => Err(
                ValueConvertError::new(
                    ValueType::Primitive(PrimitiveType::Bit),
                    ValueType::Primitive(primitive.primitive_type()),
                ),
            ),
        }
    }
}

impl vstd::std_specs::convert::TryFromSpecImpl<Primitive> for bool {
    open spec fn obeys_try_from_spec() -> bool {
        true
    }

    open spec fn try_from_spec(primitive: Primitive) -> Result<bool, ValueConvertError> {
        match primitive {
            Primitive::Bit(value) => Ok(value),
            _ => Err(
                ValueConvertError::of(
                    ValueType::Primitive(PrimitiveType::Bit),
                    ValueType::Primitive(primitive.ty()),
                ),
            ),
        }
    }
}

impl TryFrom<Value> for bool {
    type Error = ValueConvertError;

    fn try_from(value: Value) -> (r: Result<bool, ValueConvertError>) {
        match value {
            Value::Primitive(Primitive::Bit(v)) => Ok(v),
            Value::Primitive(p) => Err(
                ValueConvertError::new(
                    ValueType::Primitive(PrimitiveType::Bit),
                    ValueType::Primitive(p.primitive_type()),
                ),
            ),
            _ => Err(
                ValueConvertError::new(ValueType::Primitive(PrimitiveType::Bit), value.value_type()),
            ),
        }
    }
}

impl vstd::std_specs::convert::TryFromSpecImpl<Value> for bool {
    open spec fn obeys_try_from_spec() -> bool {
        true
    }

    open spec fn try_from_spec(value: Value) -> Result<bool, ValueConvertError> {
        match value {
            Value::Primitive(p) => <bool as vstd::std_specs::convert::TryFromSpec<Primitive>>::try_from_spec(p),
            _ => Err(ValueConvertError::of(ValueType::Primitive(PrimitiveType::Bit), value.ty())),
        }
    }
}

impl TryFrom<Primitive> for u8 {
    type Error = ValueConvertError;

    fn try_from(primitive: Primitive) -> (r: Result<u8, ValueConvertError>) {
        match primitive {
            Primitive::U8(value) => Ok(value),
            _ => Err(
                ValueConvertError::new(
                    ValueType::Primitive(PrimitiveType::U8),
                    ValueType::Primitive(primitive.primitive_type()),
                ),
            ),
        }
    }
}

impl vstd::std_specs::convert::TryFromSpecImpl<Primitive> for u8 {
    open spec fn obeys_try_from_spec() -> bool {
        true
    }

    open spec fn try_from_spec(primitive: Primitive) -> Result<u8, ValueConvertError> {
        match primitive {
            Primitive::U8(value) => Ok(value),
            _ => Err(
                ValueConvertError::of(
                    ValueType::Primitive(PrimitiveType::U8),
                    ValueType::Primitive(primitive.ty()),
                ),
            ),
        }
    }
}

impl TryFrom<Value> for u8 {
    type Error = ValueConvertError;

    fn try_from(value: Value) -> (r: Result<u8, ValueConvertError>) {
        match value {
            Value::Primitive(Primitive::U8(v)) => Ok(v),
            Value::Primitive(p) => Err(
                ValueConvertError::new(
                    ValueType::Primitive(PrimitiveType::U8),
                    ValueType::Primitive(p.primitive_type()),
                ),
            ),
            _ => Err(
                ValueConvertError::new(ValueType::Primitive(PrimitiveType::U8), value.value_type()),
            ),
        }
    }
}

impl vstd::std_specs::convert::TryFromSpecImpl<Value> for u8 {
    open spec fn obeys_try_from_spec() -> bool {
        true
    }

    open spec fn try_from_spec(value: Value) -> Result<u8, ValueConvertError> {
        match value {
            Value::Primitive(p) => <u8 as vstd::std_specs::convert::TryFromSpec<Primitive>>::try_from_spec(p),
            _ => Err(ValueConvertError::of(ValueType::Primitive(PrimitiveType::U8), value.ty())),
        }
    }
}

impl TryFrom<Primitive> for u16 {
    type Error = ValueConvertError;

    fn try_from(primitive: Primitive) -> (r: Result<u16, ValueConvertError>) {
        match primitive {
            Primitive::U16(value) => Ok(value),
            _ => Err(
                ValueConvertError::new(
                    ValueType::Primitive(PrimitiveType::U16),
                    ValueType::Primitive(primitive.primitive_type()),
                ),
            ),
        }
    }
}

impl vstd::std_specs::convert::TryFromSpecImpl<Primitive> for u16 {
    open spec fn obeys_try_from_spec() -> bool {
        true
    }

    open spec fn try_from_spec(primitive: Primitive) -> Result<u16, ValueConvertError> {
        match primitive {
            Primitive::U16(value) => Ok(value),
            _ => Err(
                ValueConvertError::of(
                    ValueType::Primitive(PrimitiveType::U16),
                    ValueType::Primitive(primitive.ty()),
                ),
            ),
        }
    }
}

impl TryFrom<Value> for u16 {
    type Error = ValueConvertError;

    fn try_from(value: Value) -> (r: Result<u16, ValueConvertError>) {
        match value {
            Value::Primitive(Primitive::U16(v)) => Ok(v),
            Value::Primitive(p) => Err(
                ValueConvertError::new(
                    ValueType::Primitive(PrimitiveType::U16),
                    ValueType::Primitive(p.primitive_type()),
                ),
            ),
            _ => Err(
                ValueConvertError::new(ValueType::Primitive(PrimitiveType::U16), value.value_type()),
            ),
        }
    }
}

impl vstd::std_specs::convert::TryFromSpecImpl<Value> for u16 {
    open spec fn obeys_try_from_spec() -> bool {
        true
    }

    open spec fn try_from_spec(value: Value) -> Result<u16, ValueConvertError> {
        match value {
            Value::Primitive(p) => <u16 as vstd::std_specs::convert::TryFromSpec<Primitive>>::try_from_spec(p),
            _ => Err(ValueConvertError::of(ValueType::Primitive(PrimitiveType::U16), value.ty())),
        }
    }
}

impl TryFrom<Primitive> for u32 {
    type Error = ValueConvertError;

    fn try_from(primitive: Primitive) -> (r: Result<u32, ValueConvertError>) {
        match primitive {
            Primitive::U32(value) => Ok(value),
            _ => Err(
                ValueConvertError::new(
                    ValueType::Primitive(PrimitiveType::U32),
                    ValueType::Primitive(primitive.primitive_type()),
                ),
            ),
        }
    }
}

impl vstd::std_specs::convert::TryFromSpecImpl<Primitive> for u32 {
    open spec fn obeys_try_from_spec() -> bool {
        true
    }

    open spec fn try_from_spec(primitive: Primitive) -> Result<u32, ValueConvertError> {
        match primitive {
            Primitive::U32(value) => Ok(value),
            _ => Err(
                ValueConvertError::of(
                    ValueType::Primitive(PrimitiveType::U32),
                    ValueType::Primitive(primitive.ty()),
                ),
            ),
        }
    }
}

impl TryFrom<Value> for u32 {
    type Error = ValueConvertError;

    fn try_from(value: Value) -> (r: Result<u32, ValueConvertError>) {
        match value {
            Value::Primitive(Primitive::U32(v)) => Ok(v),
            Value::Primitive(p) => Err(
                ValueConvertError::new(
                    ValueType::Primitive(PrimitiveType::U32),
                    ValueType::Primitive(p.primitive_type()),
                ),
            ),
            _ => Err(
                ValueConvertError::new(ValueType::Primitive(PrimitiveType::U32), value.value_type()),
            ),
        }
    }
}

impl vstd::std_specs::convert::TryFromSpecImpl<Value> for u32 {
    open spec fn obeys_try_from_spec() -> bool {
        true
    }

    open spec fn try_from_spec(value: Value) -> Result<u32, ValueConvertError> {
        match value {
            Value::Primitive(p) => <u32 as vstd::std_specs::convert::TryFromSpec<Primitive>>::try_from_spec(p),
            _ => Err(ValueConvertError::of(ValueType::Primitive(PrimitiveType::U32), value.ty())),
        }
    }
}

impl TryFrom<Primitive> for u64 {
    type Error = ValueConvertError;

    fn try_from(primitive: Primitive) -> (r: Result<u64, ValueConvertError>) {
        match primitive {
            Primitive::U64(value) => Ok(value),
            _ => Err(
                ValueConvertError::new(
                    ValueType::Primitive(PrimitiveType::U64),
                    ValueType::Primitive(primitive.primitive_type()),
                ),
            ),
        }
    }
}

impl vstd::std_specs::convert::TryFromSpecImpl<Primitive> for u64 {
    open spec fn obeys_try_from_spec() -> bool {
        true
    }

    open spec fn try_from_spec(primitive: Primitive) -> Result<u64, ValueConvertError> {
        match primitive {
            Primitive::U64(value) => Ok(value),
            _ => Err(
                ValueConvertError::of(
                    ValueType::Primitive(PrimitiveType::U64),
                    ValueType::Primitive(primitive.ty()),
                ),
            ),
        }
    }
}

impl TryFrom<Value> for u64 {
    type Error = ValueConvertError;

    fn try_from(value: Value) -> (r: Result<u64, ValueConvertError>) {
        match value {
            Value::Primitive(Primitive::U64(v)) => Ok(v),
            Value::Primitive(p) => Err(
                ValueConvertError::new(
                    ValueType::Primitive(PrimitiveType::U64),
                    ValueType::Primitive(p.primitive_type()),
                ),
            ),
            _ => Err(
                ValueConvertError::new(ValueType::Primitive(PrimitiveType::U64), value.value_type()),
            ),
        }
    }
}

impl vstd::std_specs::convert::TryFromSpecImpl<Value> for u64 {
    open spec fn obeys_try_from_spec() -> bool {
        true
    }

    open spec fn try_from_spec(value: Value) -> Result<u64, ValueConvertError> {
        match value {
            Value::Primitive(p) => <u64 as vstd::std_specs::convert::TryFromSpec<Primitive>>::try_from_spec(p),
            _ => Err(ValueConvertError::of(ValueType::Primitive(PrimitiveType::U64), value.ty())),
        }
    }
}

impl TryFrom<Primitive> for u128 {
    type Error = ValueConvertError;

    fn try_from(primitive: Primitive) -> (r: Result<u128, ValueConvertError>) {
        match primitive {
            Primitive::U128(value) => Ok(value),
            _ => Err(
                ValueConvertError::new(
                    ValueType::Primitive(PrimitiveType::U128),
                    ValueType::Primitive(primitive.primitive_type()),
                ),
            ),
        }
    }
}

impl vstd::std_specs::convert::TryFromSpecImpl<Primitive> for u128 {
    open spec fn obeys_try_from_spec() -> bool {
        true
    }

    open spec fn try_from_spec(primitive: Primitive) -> Result<u128, ValueConvertError> {
        match primitive {
            Primitive::U128(value) => Ok(value),
            _ => Err(
                ValueConvertError::of(
                    ValueType::Primitive(PrimitiveType::U128),
                    ValueType::Primitive(primitive.ty()),
                ),
            ),
        }
    }
}

impl TryFrom<Value> for u128 {
    type Error = ValueConvertError;

    fn try_from(value: Value) -> (r: Result<u128, ValueConvertError>) {
        match value {
            Value::Primitive(Primitive::U128(v)) => Ok(v),
            Value::Primitive(p) => Err(
                ValueConvertError::new(
                    ValueType::Primitive(PrimitiveType::U128),
                    ValueType::Primitive(p.primitive_type()),
                ),
            ),
            _ => Err(
                ValueConvertError::new(ValueType::Primitive(PrimitiveType::U128), value.value_type()),
            ),
        }
    }
}

impl vstd::std_specs::convert::TryFromSpecImpl<Value> for u128 {
    open spec fn obeys_try_from_spec() -> bool {
        true
    }

    open spec fn try_from_spec(value: Value) -> Result<u128, ValueConvertError> {
        match value {
            Value::Primitive(p) => <u128 as vstd::std_specs::convert::TryFromSpec<Primitive>>::try_from_spec(p),
            _ => Err(ValueConvertError::of(ValueType::Primitive(PrimitiveType::U128), value.ty())),
        }
    }
}

/// The `bool` contents of elements of type `Bit`.
pub open spec fn bool_elems(elems: Seq<Primitive>) -> Seq<bool> {
    elems.map_values(
        |p: Primitive|
            match p {
                Primitive::Bit(x) => x,
                _ => false,
            },
    )
}

/// The `u8` contents of elements of type `U8`.
pub open spec fn u8_elems(elems: Seq<Primitive>) -> Seq<u8> {
    elems.map_values(
        |p: Primitive|
            match p {
                Primitive::U8(x) => x,
                _ => 0u8,
            },
    )
}

/// The `u16` contents of elements of type `U16`.
pub open spec fn u16_elems(elems: Seq<Primitive>) -> Seq<u16> {
    elems.map_values(
        |p: Primitive|
            match p {
                Primitive::U16(x) => x,
                _ => 0u16,
            },
    )
}

/// The `u32` contents of elements of type `U32`.
pub open spec fn u32_elems(elems: Seq<Primitive>) -> Seq<u32> {
    elems.map_values(
        |p: Primitive|
            match p {
                Primitive::U32(x) => x,
                _ => 0u32,
            },
    )
}

/// The `u64` contents of elements of type `U64`.
pub open spec fn u64_elems(elems: Seq<Primitive>) -> Seq<u64> {
    elems.map_values(
        |p: Primitive|
            match p {
                Primitive::U64(x) => x,
                _ => 0u64,
            },
    )
}

/// The `u128` contents of elements of type `U128`.
pub open spec fn u128_elems(elems: Seq<Primitive>) -> Seq<u128> {
    elems.map_values(
        |p: Primitive|
            match p {
                Primitive::U128(x) => x,
                _ => 0u128,
            },
    )
}

impl<const N: usize> TryFrom<Value> for [bool; N] {
    type Error = ValueConvertError;

    fn try_from(value: Value) -> (r: Result<[bool; N], ValueConvertError>) {
        match value {
            Value::Array(array) => {
                let ty = array.elem_type();
                if ty != PrimitiveType::Bit {
                    return Err(
                        ValueConvertError::new(ValueType::Primitive(PrimitiveType::Bit), ValueType::Primitive(ty)),
                    );
                }
                if array.len() != N {
                    return Err(
                        ValueConvertError::new(ValueType::Array { ty: PrimitiveType::Bit, len: N }, array.value_type()),
                    );
                }
                let elems = array.as_slice();
                let ghost target = bool_elems(array.elems());
                let mut out = [false; N];
                let mut i: usize = 0;
                while i < N
                    invariant
                        i <= N,
                        elems@.len() == N,
                        elems@ == array.elems(),
                        all_of_type(elems@, PrimitiveType::Bit),
                        target.len() == N,
                        forall|j: int| 0 <= j < N ==> #[trigger] target[j] == match elems@[j] {
                            Primitive::Bit(x) => x,
                            _ => false,
                        },
                        forall|j: int| 0 <= j < i ==> #[trigger] out@[j] == target[j],
                    decreases N - i,
                {
                    match elems[i] {
                        Primitive::Bit(x) => {
                            out[i] = x;
                        },
                        _ => {
                            proof {
                                assert(elems@[i as int].ty() == PrimitiveType::Bit);
                            }
                        },
                    }
                    i = i + 1;
                }
                proof {
                    assert(out@ =~= target);
                    assert(exists|c: [bool; N]| c@ == target);
                    let c = choose|c: [bool; N]| c@ == target;
                    assert forall|j: int| 0 <= j < N implies c[j] == out[j] by {
                        vstd::array::lemma_array_index(c, j);
                        vstd::array::lemma_array_index(out, j);
                    }
                    vstd::array::axiom_array_ext_equal(c, out);
                    assert(c =~= out);
                }
                Ok(out)
            },
            _ => Err(
                ValueConvertError::new(ValueType::Array { ty: PrimitiveType::Bit, len: N }, value.value_type()),
            ),
        }
    }
}

impl<const N: usize> vstd::std_specs::convert::TryFromSpecImpl<Value> for [bool; N] {
    open spec fn obeys_try_from_spec() -> bool {
        true
    }

    open spec fn try_from_spec(value: Value) -> Result<[bool; N], ValueConvertError> {
        match value {
            Value::Array(a) => if a.ty() != PrimitiveType::Bit {
                Err(ValueConvertError::of(ValueType::Primitive(PrimitiveType::Bit), ValueType::Primitive(a.ty())))
            } else if a.elems().len() != N {
                Err(ValueConvertError::of(ValueType::Array { ty: PrimitiveType::Bit, len: N }, value.ty()))
            } else {
                Ok(
                    choose|c: [bool; N]|
                        c@ == bool_elems(a.elems()),
                )
            },
            _ => Err(ValueConvertError::of(ValueType::Array { ty: PrimitiveType::Bit, len: N }, value.ty())),
        }
    }
}

impl<const N: usize> TryFrom<Value> for [u8; N] {
    type Error = ValueConvertError;

    fn try_from(value: Value) -> (r: Result<[u8; N], ValueConvertError>) {
        match value {
            Value::Array(array) => {
                let ty = array.elem_type();
                if ty != PrimitiveType::U8 {
                    return Err(
                        ValueConvertError::new(ValueType::Primitive(PrimitiveType::U8), ValueType::Primitive(ty)),
                    );
                }
                if array.len() != N {
                    return Err(
                        ValueConvertError::new(ValueType::Array { ty: PrimitiveType::U8, len: N }, array.value_type()),
                    );
                }
                let elems = array.as_slice();
                let ghost target = u8_elems(array.elems());
                let mut out = [0u8; N];
                let mut i: usize = 0;
                while i < N
                    invariant
                        i <= N,
                        elems@.len() == N,
                        elems@ == array.elems(),
                        all_of_type(elems@, PrimitiveType::U8),
                        target.len() == N,
                        forall|j: int| 0 <= j < N ==> #[trigger] target[j] == match elems@[j] {
                            Primitive::U8(x) => x,
                            _ => 0u8,
                        },
                        forall|j: int| 0 <= j < i ==> #[trigger] out@[j] == target[j],
                    decreases N - i,
                {
                    match elems[i] {
                        Primitive::U8(x) => {
                            out[i] = x;
                        },
                        _ => {
                            proof {
                                assert(elems@[i as int].ty() == PrimitiveType::U8);
                            }
                        },
                    }
                    i = i + 1;
                }
                proof {
                    assert(out@ =~= target);
                    assert(exists|c: [u8; N]| c@ == target);
                    let c = choose|c: [u8; N]| c@ == target;
                    assert forall|j: int| 0 <= j < N implies c[j] == out[j] by {
                        vstd::array::lemma_array_index(c, j);
                        vstd::array::lemma_array_index(out, j);
                    }
                    vstd::array::axiom_array_ext_equal(c, out);
                    assert(c =~= out);
                }
                Ok(out)
            },
            _ => Err(
                ValueConvertError::new(ValueType::Array { ty: PrimitiveType::U8, len: N }, value.value_type()),
            ),
        }
    }
}

impl<const N: usize> vstd::std_specs::convert::TryFromSpecImpl<Value> for [u8; N] {
    open spec fn obeys_try_from_spec() -> bool {
        true
    }

    open spec fn try_from_spec(value: Value) -> Result<[u8; N], ValueConvertError> {
        match value {
            Value::Array(a) => if a.ty() != PrimitiveType::U8 {
                Err(ValueConvertError::of(ValueType::Primitive(PrimitiveType::U8), ValueType::Primitive(a.ty())))
            } else if a.elems().len() != N {
                Err(ValueConvertError::of(ValueType::Array { ty: PrimitiveType::U8, len: N }, value.ty()))
            } else {
                Ok(
                    choose|c: [u8; N]|
                        c@ == u8_elems(a.elems()),
                )
            },
            _ => Err(ValueConvertError::of(ValueType::Array { ty: PrimitiveType::U8, len: N }, value.ty())),
        }
    }
}

impl<const N: usize> TryFrom<Value> for [u16; N] {
    type Error = ValueConvertError;

    fn try_from(value: Value) -> (r: Result<[u16; N], ValueConvertError>) {
        match value {
            Value::Array(array) => {
                let ty = array.elem_type();
                if ty != PrimitiveType::U16 {
                    return Err(
                        ValueConvertError::new(ValueType::Primitive(PrimitiveType::U16), ValueType::Primitive(ty)),
                    );
                }
                if array.len() != N {
                    return Err(
                        ValueConvertError::new(ValueType::Array { ty: PrimitiveType::U16, len: N }, array.value_type()),
                    );
                }
                let elems = array.as_slice();
                let ghost target = u16_elems(array.elems());
                let mut out = [0u16; N];
                let mut i: usize = 0;
                while i < N
                    invariant
                        i <= N,
                        elems@.len() == N,
                        elems@ == array.elems(),
                        all_of_type(elems@, PrimitiveType::U16),
                        target.len() == N,
                        forall|j: int| 0 <= j < N ==> #[trigger] target[j] == match elems@[j] {
                            Primitive::U16(x) => x,
                            _ => 0u16,
                        },
                        forall|j: int| 0 <= j < i ==> #[trigger] out@[j] == target[j],
                    decreases N - i,
                {
                    match elems[i] {
                        Primitive::U16(x) => {
                            out[i] = x;
                        },
                        _ => {
                            proof {
                                assert(elems@[i as int].ty() == PrimitiveType::U16);
                            }
                        },
                    }
                    i = i + 1;
                }
                proof {
                    assert(out@ =~= target);
                    assert(exists|c: [u16; N]| c@ == target);
                    let c = choose|c: [u16; N]| c@ == target;
                    assert forall|j: int| 0 <= j < N implies c[j] == out[j] by {
                        vstd::array::lemma_array_index(c, j);
                        vstd::array::lemma_array_index(out, j);
                    }
                    vstd::array::axiom_array_ext_equal(c, out);
                    assert(c =~= out);
                }
                Ok(out)
            },
            _ => Err(
                ValueConvertError::new(ValueType::Array { ty: PrimitiveType::U16, len: N }, value.value_type()),
            ),
        }
    }
}

impl<const N: usize> vstd::std_specs::convert::TryFromSpecImpl<Value> for [u16; N] {
    open spec fn obeys_try_from_spec() -> bool {
        true
    }

    open spec fn try_from_spec(value: Value) -> Result<[u16; N], ValueConvertError> {
        match value {
            Value::Array(a) => if a.ty() != PrimitiveType::U16 {
                Err(ValueConvertError::of(ValueType::Primitive(PrimitiveType::U16), ValueType::Primitive(a.ty())))
            } else if a.elems().len() != N {
                Err(ValueConvertError::of(ValueType::Array { ty: PrimitiveType::U16, len: N }, value.ty()))
            } else {
                Ok(
                    choose|c: [u16; N]|
                        c@ == u16_elems(a.elems()),
                )
            },
            _ => Err(ValueConvertError::of(ValueType::Array { ty: PrimitiveType::U16, len: N }, value.ty())),
        }
    }
}

impl<const N: usize> TryFrom<Value> for [u32; N] {
    type Error = ValueConvertError;

    fn try_from(value: Value) -> (r: Result<[u32; N], ValueConvertError>) {
        match value {
            Value::Array(array) => {
                let ty = array.elem_type();
                if ty != PrimitiveType::U32 {
                    return Err(
                        ValueConvertError::new(ValueType::Primitive(PrimitiveType::U32), ValueType::Primitive(ty)),
                    );
                }
                if array.len() != N {
                    return Err(
                        ValueConvertError::new(ValueType::Array { ty: PrimitiveType::U32, len: N }, array.value_type()),
                    );
                }
                let elems = array.as_slice();
                let ghost target = u32_elems(array.elems());
                let mut out = [0u32; N];
                let mut i: usize = 0;
                while i < N
                    invariant
                        i <= N,
                        elems@.len() == N,
                        elems@ == array.elems(),
                        all_of_type(elems@, PrimitiveType::U32),
                        target.len() == N,
                        forall|j: int| 0 <= j < N ==> #[trigger] target[j] == match elems@[j] {
                            Primitive::U32(x) => x,
                            _ => 0u32,
                        },
                        forall|j: int| 0 <= j < i ==> #[trigger] out@[j] == target[j],
                    decreases N - i,
                {
                    match elems[i] {
                        Primitive::U32(x) => {
                            out[i] = x;
                        },
                        _ => {
                            proof {
                                assert(elems@[i as int].ty() == PrimitiveType::U32);
                            }
                        },
                    }
                    i = i + 1;
                }
                proof {
                    assert(out@ =~= target);
                    assert(exists|c: [u32; N]| c@ == target);
                    let c = choose|c: [u32; N]| c@ == target;
                    assert forall|j: int| 0 <= j < N implies c[j] == out[j] by {
                        vstd::array::lemma_array_index(c, j);
                        vstd::array::lemma_array_index(out, j);
                    }
                    vstd::array::axiom_array_ext_equal(c, out);
                    assert(c =~= out);
                }
                Ok(out)
            },
            _ => Err(
                ValueConvertError::new(ValueType::Array { ty: PrimitiveType::U32, len: N }, value.value_type()),
            ),
        }
    }
}

impl<const N: usize> vstd::std_specs::convert::TryFromSpecImpl<Value> for [u32; N] {
    open spec fn obeys_try_from_spec() -> bool {
        true
    }

    open spec fn try_from_spec(value: Value) -> Result<[u32; N], ValueConvertError> {
        match value {
            Value::Array(a) => if a.ty() != PrimitiveType::U32 {
                Err(ValueConvertError::of(ValueType::Primitive(PrimitiveType::U32), ValueType::Primitive(a.ty())))
            } else if a.elems().len() != N {
                Err(ValueConvertError::of(ValueType::Array { ty: PrimitiveType::U32, len: N }, value.ty()))
            } else {
                Ok(
                    choose|c: [u32; N]|
                        c@ == u32_elems(a.elems()),
                )
            },
            _ => Err(ValueConvertError::of(ValueType::Array { ty: PrimitiveType::U32, len: N }, value.ty())),
        }
    }
}

impl<const N: usize> TryFrom<Value> for [u64; N] {
    type Error = ValueConvertError;

    fn try_from(value: Value) -> (r: Result<[u64; N], ValueConvertError>) {
        match value {
            Value::Array(array) => {
                let ty = array.elem_type();
                if ty != PrimitiveType::U64 {
                    return Err(
                        ValueConvertError::new(ValueType::Primitive(PrimitiveType::U64), ValueType::Primitive(ty)),
                    );
                }
                if array.len() != N {
                    return Err(
                        ValueConvertError::new(ValueType::Array { ty: PrimitiveType::U64, len: N }, array.value_type()),
                    );
                }
                let elems = array.as_slice();
                let ghost target = u64_elems(array.elems());
                let mut out = [0u64; N];
                let mut i: usize = 0;
                while i < N
                    invariant
                        i <= N,
                        elems@.len() == N,
                        elems@ == array.elems(),
                        all_of_type(elems@, PrimitiveType::U64),
                        target.len() == N,
                        forall|j: int| 0 <= j < N ==> #[trigger] target[j] == match elems@[j] {
                            Primitive::U64(x) => x,
                            _ => 0u64,
                        },
                        forall|j: int| 0 <= j < i ==> #[trigger] out@[j] == target[j],
                    decreases N - i,
                {
                    match elems[i] {
                        Primitive::U64(x) => {
                            out[i] = x;
                        },
                        _ => {
                            proof {
                                assert(elems@[i as int].ty() == PrimitiveType::U64);
                            }
                        },
                    }
                    i = i + 1;
                }
                proof {
                    assert(out@ =~= target);
                    assert(exists|c: [u64; N]| c@ == target);
                    let c = choose|c: [u64; N]| c@ == target;
                    assert forall|j: int| 0 <= j < N implies c[j] == out[j] by {
                        vstd::array::lemma_array_index(c, j);
                        vstd::array::lemma_array_index(out, j);
                    }
                    vstd::array::axiom_array_ext_equal(c, out);
                    assert(c =~= out);
                }
                Ok(out)
            },
            _ => Err(
                ValueConvertError::new(ValueType::Array { ty: PrimitiveType::U64, len: N }, value.value_type()),
            ),
        }
    }
}

impl<const N: usize> vstd::std_specs::convert::TryFromSpecImpl<Value> for [u64; N] {
    open spec fn obeys_try_from_spec() -> bool {
        true
    }

    open spec fn try_from_spec(value: Value) -> Result<[u64; N], ValueConvertError> {
        match value {
            Value::Array(a) => if a.ty() != PrimitiveType::U64 {
                Err(ValueConvertError::of(ValueType::Primitive(PrimitiveType::U64), ValueType::Primitive(a.ty())))
            } else if a.elems().len() != N {
                Err(ValueConvertError::of(ValueType::Array { ty: PrimitiveType::U64, len: N }, value.ty()))
            } else {
                Ok(
                    choose|c: [u64; N]|
                        c@ == u64_elems(a.elems()),
                )
            },
            _ => Err(ValueConvertError::of(ValueType::Array { ty: PrimitiveType::U64, len: N }, value.ty())),
        }
    }
}

impl<const N: usize> TryFrom<Value> for [u128; N] {
    type Error = ValueConvertError;

    fn try_from(value: Value) -> (r: Result<[u128; N], ValueConvertError>) {
        match value {
            Value::Array(array) => {
                let ty = array.elem_type();
                if ty != PrimitiveType::U128 {
                    return Err(
                        ValueConvertError::new(ValueType::Primitive(PrimitiveType::U128), ValueType::Primitive(ty)),
                    );
                }
                if array.len() != N {
                    return Err(
                        ValueConvertError::new(ValueType::Array { ty: PrimitiveType::U128, len: N }, array.value_type()),
                    );
                }
                let elems = array.as_slice();
                let ghost target = u128_elems(array.elems());
                let mut out = [0u128; N];
                let mut i: usize = 0;
                while i < N
                    invariant
                        i <= N,
                        elems@.len() == N,
                        elems@ == array.elems(),
                        all_of_type(elems@, PrimitiveType::U128),
                        target.len() == N,
                        forall|j: int| 0 <= j < N ==> #[trigger] target[j] == match elems@[j] {
                            Primitive::U128(x) => x,
                            _ => 0u128,
                        },
                        forall|j: int| 0 <= j < i ==> #[trigger] out@[j] == target[j],
                    decreases N - i,
                {
                    match elems[i] {
                        Primitive::U128(x) => {
                            out[i] = x;
                        },
                        _ => {
                            proof {
                                assert(elems@[i as int].ty() == PrimitiveType::U128);
                            }
                        },
                    }
                    i = i + 1;
                }
                proof {
                    assert(out@ =~= target);
                    assert(exists|c: [u128; N]| c@ == target);
                    let c = choose|c: [u128; N]| c@ == target;
                    assert forall|j: int| 0 <= j < N implies c[j] == out[j] by {
                        vstd::array::lemma_array_index(c, j);
                        vstd::array::lemma_array_index(out, j);
                    }
                    vstd::array::axiom_array_ext_equal(c, out);
                    assert(c =~= out);
                }
                Ok(out)
            },
            _ => Err(
                ValueConvertError::new(ValueType::Array { ty: PrimitiveType::U128, len: N }, value.value_type()),
            ),
        }
    }
}

impl<const N: usize> vstd::std_specs::convert::TryFromSpecImpl<Value> for [u128; N] {
    open spec fn obeys_try_from_spec() -> bool {
        true
    }

    open spec fn try_from_spec(value: Value) -> Result<[u128; N], ValueConvertError> {
        match value {
            Value::Array(a) => if a.ty() != PrimitiveType::U128 {
                Err(ValueConvertError::of(ValueType::Primitive(PrimitiveType::U128), ValueType::Primitive(a.ty())))
            } else if a.elems().len() != N {
                Err(ValueConvertError::of(ValueType::Array { ty: PrimitiveType::U128, len: N }, value.ty()))
            } else {
                Ok(
                    choose|c: [u128; N]|
                        c@ == u128_elems(a.elems()),
                )
            },
            _ => Err(ValueConvertError::of(ValueType::Array { ty: PrimitiveType::U128, len: N }, value.ty())),
        }
    }
}

impl ValueType {
    /// Draws a random value of this type.
    pub fn random(&self, rng: &mut StdRng) -> (r: Value)
        ensures
            r.ty() == *self,
    {
        match self {
            ValueType::Primitive(p) => Value::Primitive(p.random(rng)),
            ValueType::Array { ty, len } => Value::Array(Array::random(*ty, *len, rng)),
        }
    }
}

} // verus!
