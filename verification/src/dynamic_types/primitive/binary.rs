//! Binary primitive types.

use vstd::array::array_fill_for_copy_types;
use vstd::prelude::*;
use vstd::std_specs::cmp::PartialEqSpecImpl;

use super::{PrimitiveType, StaticPrimitiveType};
use crate::bits::{
    is_lsb0_of, lsb0_value, u128_from_lsb0, u128_into_lsb0, u16_from_lsb0, u16_into_lsb0,
    u32_from_lsb0, u32_into_lsb0, u64_from_lsb0, u64_into_lsb0, u8_from_lsb0, u8_into_lsb0,
};

verus! {

/// A type with a bit length.
pub trait BitLength {
    /// The bit length, as a number.
    spec fn bit_len(&self) -> nat;

    /// Returns the bit length.
    fn bit_length(&self) -> (r: usize)
        requires
            self.bit_len() <= usize::MAX,
        ensures
            r == self.bit_len(),
    ;
}

/// A type with a static bit length.
pub trait StaticBitLength {
    /// The bit length.
    const BIT_LENGTH: usize;
}

/// A binary type.
#[derive(Debug, Clone, Copy, Eq, Hash)]
pub enum BinaryType {
    /// A bit.
    Bit,
    /// An unsigned 8-bit integer.
    U8,
    /// An unsigned 16-bit integer.
    U16,
    /// An unsigned 32-bit integer.
    U32,
    /// An unsigned 64-bit integer.
    U64,
    /// An unsigned 128-bit integer.
    U128,
}

impl BinaryType {
    /// The number of bits of a value of the type.
    pub open spec fn width(self) -> nat {
        match self {
            BinaryType::Bit => 1,
            BinaryType::U8 => 8,
            BinaryType::U16 => 16,
            BinaryType::U32 => 32,
            BinaryType::U64 => 64,
            BinaryType::U128 => 128,
        }
    }

    /// The displayed name of the type.
    pub open spec fn name_spec(self) -> Seq<char> {
        match self {
            BinaryType::Bit => "Bit"@,
            BinaryType::U8 => "U8"@,
            BinaryType::U16 => "U16"@,
            BinaryType::U32 => "U32"@,
            BinaryType::U64 => "U64"@,
            BinaryType::U128 => "U128"@,
        }
    }

    /// Returns the name of the type.
    pub fn name(&self) -> (s: &'static str)
        ensures
            s@ == self.name_spec(),
    {
        match self {
            BinaryType::Bit => "Bit",
            BinaryType::U8 => "U8",
            BinaryType::U16 => "U16",
            BinaryType::U32 => "U32",
            BinaryType::U64 => "U64",
            BinaryType::U128 => "U128",
        }
    }
}

impl PartialEq for BinaryType {
    fn eq(&self, other: &Self) -> (r: bool) {
        match (self, other) {
            (BinaryType::Bit, BinaryType::Bit) => true,
            (BinaryType::U8, BinaryType::U8) => true,
            (BinaryType::U16, BinaryType::U16) => true,
            (BinaryType::U32, BinaryType::U32) => true,
            (BinaryType::U64, BinaryType::U64) => true,
            (BinaryType::U128, BinaryType::U128) => true,
            _ => false,
        }
    }
}

impl PartialEqSpecImpl for BinaryType {
    open spec fn obeys_eq_spec() -> bool {
        true
    }

    open spec fn eq_spec(&self, other: &Self) -> bool {
        *self == *other
    }
}

/// Binary types compare as they are.
pub proof fn lemma_binary_type_eq()
    ensures
        vstd::laws_eq::obeys_concrete_eq::<BinaryType>(),
{
    reveal(vstd::laws_eq::obeys_concrete_eq);
}

impl BitLength for BinaryType {
    open spec fn bit_len(&self) -> nat {
        self.width()
    }

    fn bit_length(&self) -> (r: usize) {
        match self {
            BinaryType::Bit => 1,
            BinaryType::U8 => 8,
            BinaryType::U16 => 16,
            BinaryType::U32 => 32,
            BinaryType::U64 => 64,
            BinaryType::U128 => 128,
        }
    }
}

/// A binary value.
#[derive(Debug, Clone, Copy, PartialEq, Eq, Hash, Structural)]
pub enum Value {
    /// A bit.
    Bit(bool),
    /// An unsigned 8-bit integer.
    U8(u8),
    /// An unsigned 16-bit integer.
    U16(u16),
    /// An unsigned 32-bit integer.
    U32(u32),
    /// An unsigned 64-bit integer.
    U64(u64),
    /// An unsigned 128-bit integer.
    U128(u128),
}

/// Copies an array of bits into a vector.
fn array_to_vec<const N: usize>(a: &[bool; N]) -> (v: Vec<bool>)
    ensures
        v@ == a@,
{
    let mut v: Vec<bool> = Vec::new();
    let mut i: usize = 0;
    while i < N
        invariant
            i <= N,
            a@.len() == N,
            v@ == a@.subrange(0, i as int),
        decreases N - i,
    {
        v.push(a[i]);
        i = i + 1;
    }
    assert(v@ =~= a@);
    v
}

/// Copies a vector of exactly `N` bits into an array.
fn vec_to_array<const N: usize>(v: &Vec<bool>) -> (a: [bool; N])
    requires
        v@.len() == N,
    ensures
        a@ == v@,
{
    let mut a: [bool; N] = array_fill_for_copy_types(false);
    let mut i: usize = 0;
    while i < N
        invariant
            i <= N,
            v@.len() == N,
            a@.len() == N,
            forall|j: int| 0 <= j < i ==> a@[j] == v@[j],
        decreases N - i,
    {
        a.set(i, v[i]);
        i = i + 1;
    }
    assert(a@ =~= v@);
    a
}

impl Value {
    /// The value as a number; a bit is 0 or 1.
    pub open spec fn as_int(self) -> int {
        match self {
            Value::Bit(b) => if b { 1 } else { 0 },
            Value::U8(v) => v as int,
            Value::U16(v) => v as int,
            Value::U32(v) => v as int,
            Value::U64(v) => v as int,
            Value::U128(v) => v as int,
        }
    }

    /// Converts from a bit.
    pub fn from_bit(bit: bool) -> (r: Self)
        ensures
            r == Value::Bit(bit),
    {
        Value::Bit(bit)
    }

    /// Converts from bits in Lsb0 order to a `u8`.
    pub fn from_u8(bits: [bool; 8]) -> (r: Self)
        ensures
            r matches Value::U8(v) && v as int == lsb0_value(bits@),
    {
        Value::U8(u8_from_lsb0(array_to_vec(&bits)))
    }

    /// Converts from bits in Lsb0 order to a `u16`.
    pub fn from_u16(bits: [bool; 16]) -> (r: Self)
        ensures
            r matches Value::U16(v) && v as int == lsb0_value(bits@),
    {
        Value::U16(u16_from_lsb0(array_to_vec(&bits)))
    }

    /// Converts from bits in Lsb0 order to a `u32`.
    pub fn from_u32(bits: [bool; 32]) -> (r: Self)
        ensures
            r matches Value::U32(v) && v as int == lsb0_value(bits@),
    {
        Value::U32(u32_from_lsb0(array_to_vec(&bits)))
    }

    /// Converts from bits in Lsb0 order to a `u64`.
    pub fn from_u64(bits: [bool; 64]) -> (r: Self)
        ensures
            r matches Value::U64(v) && v as int == lsb0_value(bits@),
    {
        Value::U64(u64_from_lsb0(array_to_vec(&bits)))
    }

    /// Converts from bits in Lsb0 order to a `u128`.
    pub fn from_u128(bits: [bool; 128]) -> (r: Self)
        ensures
            r matches Value::U128(v) && v as int == lsb0_value(bits@),
    {
        Value::U128(u128_from_lsb0(array_to_vec(&bits)))
    }

    /// Converts a bit value to its bit.
    pub fn into_bit(self) -> (r: bool)
        requires
            self is Bit,
        ensures
            self == Value::Bit(r),
    {
        match self {
            Value::Bit(value) => value,
            _ => false,
        }
    }

    /// Converts a `u8` value to its bits in Lsb0 order.
    pub fn into_u8(self) -> (r: [bool; 8])
        requires
            self is U8,
        ensures
            is_lsb0_of(r@, self.as_int(), 8),
    {
        match self {
            Value::U8(value) => vec_to_array(&u8_into_lsb0(value)),
            _ => [false; 8],
        }
    }

    /// Converts a `u16` value to its bits in Lsb0 order.
    pub fn into_u16(self) -> (r: [bool; 16])
        requires
            self is U16,
        ensures
            is_lsb0_of(r@, self.as_int(), 16),
    {
        match self {
            Value::U16(value) => vec_to_array(&u16_into_lsb0(value)),
            _ => [false; 16],
        }
    }

    /// Converts a `u32` value to its bits in Lsb0 order.
    pub fn into_u32(self) -> (r: [bool; 32])
        requires
            self is U32,
        ensures
            is_lsb0_of(r@, self.as_int(), 32),
    {
        match self {
            Value::U32(value) => vec_to_array(&u32_into_lsb0(value)),
            _ => [false; 32],
        }
    }

    /// Converts a `u64` value to its bits in Lsb0 order.
    pub fn into_u64(self) -> (r: [bool; 64])
        requires
            self is U64,
        ensures
            is_lsb0_of(r@, self.as_int(), 64),
    {
        match self {
            Value::U64(value) => vec_to_array(&u64_into_lsb0(value)),
            _ => [false; 64],
        }
    }

    /// Converts a `u128` value to its bits in Lsb0 order.
    pub fn into_u128(self) -> (r: [bool; 128])
        requires
            self is U128,
        ensures
            is_lsb0_of(r@, self.as_int(), 128),
    {
        match self {
            Value::U128(value) => vec_to_array(&u128_into_lsb0(value)),
            _ => [false; 128],
        }
    }
}

impl PrimitiveType for Value {
    type Type = BinaryType;

    open spec fn type_of(&self) -> BinaryType {
        match self {
            Value::Bit(_) => BinaryType::Bit,
            Value::U8(_) => BinaryType::U8,
            Value::U16(_) => BinaryType::U16,
            Value::U32(_) => BinaryType::U32,
            Value::U64(_) => BinaryType::U64,
            Value::U128(_) => BinaryType::U128,
        }
    }

    fn primitive_type(&self) -> (r: BinaryType) {
        match self {
            Value::Bit(_) => BinaryType::Bit,
            Value::U8(_) => BinaryType::U8,
            Value::U16(_) => BinaryType::U16,
            Value::U32(_) => BinaryType::U32,
            Value::U64(_) => BinaryType::U64,
            Value::U128(_) => BinaryType::U128,
        }
    }
}

impl BitLength for Value {
    open spec fn bit_len(&self) -> nat {
        self.type_of().width()
    }

    fn bit_length(&self) -> (r: usize) {
        match self {
            Value::Bit(_) => 1,
            Value::U8(_) => 8,
            Value::U16(_) => 16,
            Value::U32(_) => 32,
            Value::U64(_) => 64,
            Value::U128(_) => 128,
        }
    }
}

impl StaticBitLength for bool {
    const BIT_LENGTH: usize = 1;
}

impl StaticBitLength for u8 {
    const BIT_LENGTH: usize = 8;
}

impl StaticBitLength for u16 {
    const BIT_LENGTH: usize = 16;
}

impl StaticBitLength for u32 {
    const BIT_LENGTH: usize = 32;
}

impl StaticBitLength for u64 {
    const BIT_LENGTH: usize = 64;
}

impl StaticBitLength for u128 {
    const BIT_LENGTH: usize = 128;
}

impl PrimitiveType for bool {
    type Type = BinaryType;

    open spec fn type_of(&self) -> BinaryType {
        BinaryType::Bit
    }

    fn primitive_type(&self) -> (r: BinaryType) {
        BinaryType::Bit
    }
}

impl StaticPrimitiveType for bool {
    const TYPE: BinaryType = BinaryType::Bit;
}

impl PrimitiveType for u8 {
    type Type = BinaryType;

    open spec fn type_of(&self) -> BinaryType {
        BinaryType::U8
    }

    fn primitive_type(&self) -> (r: BinaryType) {
        BinaryType::U8
    }
}

impl StaticPrimitiveType for u8 {
    const TYPE: BinaryType = BinaryType::U8;
}

impl PrimitiveType for u16 {
    type Type = BinaryType;

    open spec fn type_of(&self) -> BinaryType {
        BinaryType::U16
    }

    fn primitive_type(&self) -> (r: BinaryType) {
        BinaryType::U16
    }
}

impl StaticPrimitiveType for u16 {
    const TYPE: BinaryType = BinaryType::U16;
}

impl PrimitiveType for u32 {
    type Type = BinaryType;

    open spec fn type_of(&self) -> BinaryType {
        BinaryType::U32
    }

    fn primitive_type(&self) -> (r: BinaryType) {
        BinaryType::U32
    }
}

impl StaticPrimitiveType for u32 {
    const TYPE: BinaryType = BinaryType::U32;
}

impl PrimitiveType for u64 {
    type Type = BinaryType;

    open spec fn type_of(&self) -> BinaryType {
        BinaryType::U64
    }

    fn primitive_type(&self) -> (r: BinaryType) {
        BinaryType::U64
    }
}

impl StaticPrimitiveType for u64 {
    const TYPE: BinaryType = BinaryType::U64;
}

impl PrimitiveType for u128 {
    type Type = BinaryType;

    open spec fn type_of(&self) -> BinaryType {
        BinaryType::U128
    }

    fn primitive_type(&self) -> (r: BinaryType) {
        BinaryType::U128
    }
}

impl StaticPrimitiveType for u128 {
    const TYPE: BinaryType = BinaryType::U128;
}

} // verus!
