//! Primitive binary types and values.

use rand::rngs::StdRng;
use vstd::prelude::*;

use crate::binary_types::{BitLength, StaticBitLength, StaticPrimitiveType, ValueType};
use crate::bits::{
    is_lsb0_of, is_msb0_of, reverse_bits, u128_into_lsb0, u16_into_lsb0, u32_into_lsb0,
    u64_into_lsb0, u8_into_lsb0,
};

verus! {

/// A primitive type.
#[derive(Debug, Clone, Copy, PartialEq, Eq, Hash, Structural)]
pub enum PrimitiveType {
    /// A bit.
    Bit,
    /// An unsigned 8-bit integer.
    U8,
    /// An unsigned 16-bit integer.
    U16,
    /// An unsigned 32-bit integer.
    U32,
    /// An unsigned 64-bit integer.
    U64,
    /// An unsigned 128-bit integer.
    U128,
}

impl PrimitiveType {
    /// The number of bits of a value of this type.
    pub open spec fn width(self) -> nat {
        match self {
            PrimitiveType::Bit => 1,
            PrimitiveType::U8 => 8,
            PrimitiveType::U16 => 16,
            PrimitiveType::U32 => 32,
            PrimitiveType::U64 => 64,
            PrimitiveType::U128 => 128,
        }
    }

    /// Returns the name of the type, as it is displayed.
    pub fn name(&self) -> (s: &'static str)
        ensures
            s@ == self.name_spec(),
    {
        match self {
            PrimitiveType::Bit => "Bit",
            PrimitiveType::U8 => "U8",
            PrimitiveType::U16 => "U16",
            PrimitiveType::U32 => "U32",
            PrimitiveType::U64 => "U64",
            PrimitiveType::U128 => "U128",
        }
    }

    /// The displayed name of the type.
    pub open spec fn name_spec(self) -> Seq<char> {
        match self {
            PrimitiveType::Bit => "Bit"@,
            PrimitiveType::U8 => "U8"@,
            PrimitiveType::U16 => "U16"@,
            PrimitiveType::U32 => "U32"@,
            PrimitiveType::U64 => "U64"@,
            PrimitiveType::U128 => "U128"@,
        }
    }
}

impl BitLength for PrimitiveType {
    open spec fn bit_len(&self) -> int {
        self.width() as int
    }

    fn bit_length(&self) -> (r: usize) {
        match self {
            PrimitiveType::Bit => 1,
            PrimitiveType::U8 => 8,
            PrimitiveType::U16 => 16,
            PrimitiveType::U32 => 32,
            PrimitiveType::U64 => 64,
            PrimitiveType::U128 => 128,
        }
    }
}

impl From<PrimitiveType> for ValueType {
    fn from(primitive_type: PrimitiveType) -> (r: Self)
        ensures
            r == ValueType::Primitive(primitive_type),
    {
        ValueType::Primitive(primitive_type)
    }
}

impl vstd::std_specs::convert::FromSpecImpl<PrimitiveType> for ValueType {
    open spec fn obeys_from_spec() -> bool {
        true
    }

    open spec fn from_spec(v: PrimitiveType) -> ValueType {
        ValueType::Primitive(v)
    }
}

/// A primitive value.
#[derive(Debug, Clone, Copy, PartialEq, Eq, Hash, Structural)]
pub enum Primitive {
    /// A bit.
    Bit(bool),
    /// An unsigned 8-bit integer.
    U8(u8),
    /// An unsigned 16-bit integer.
    U16(u16),
    /// An unsigned 32-bit integer.
    U32(u32),
    /// An unsigned 64-bit integer.
    U64(u64),
    /// An unsigned 128-bit integer.
    U128(u128),
}

impl Primitive {
    /// The type of the value.
    pub open spec fn ty(self) -> PrimitiveType {
        match self {
            Primitive::Bit(_) => PrimitiveType::Bit,
            Primitive::U8(_) => PrimitiveType::U8,
            Primitive::U16(_) => PrimitiveType::U16,
            Primitive::U32(_) => PrimitiveType::U32,
            Primitive::U64(_) => PrimitiveType::U64,
            Primitive::U128(_) => PrimitiveType::U128,
        }
    }

    /// The value as a number; a bit is 0 or 1.
    pub open spec fn as_int(self) -> int {
        match self {
            Primitive::Bit(b) => if b { 1 } else { 0 },
            Primitive::U8(v) => v as int,
            Primitive::U16(v) => v as int,
            Primitive::U32(v) => v as int,
            Primitive::U64(v) => v as int,
            Primitive::U128(v) => v as int,
        }
    }

    /// Returns the primitive type.
    pub fn primitive_type(&self) -> (r: PrimitiveType)
        ensures
            r == self.ty(),
    {
        match self {
            Primitive::Bit(_) => PrimitiveType::Bit,
            Primitive::U8(_) => PrimitiveType::U8,
            Primitive::U16(_) => PrimitiveType::U16,
            Primitive::U32(_) => PrimitiveType::U32,
            Primitive::U64(_) => PrimitiveType::U64,
            Primitive::U128(_) => PrimitiveType::U128,
        }
    }

    /// Converts the value into its bits, least significant first.
    pub fn into_lsb0_vec(self) -> (bits: Vec<bool>)
        ensures
            is_lsb0_of(bits@, self.as_int(), self.ty().width()),
    {
        match self {
            Primitive::Bit(v) => {
                let bits = vec![v];
                assert(bits@.drop_first() =~= Seq::<bool>::empty());
                assert(crate::bits::lsb0_value(bits@.drop_first()) == 0);
                bits
            },
            Primitive::U8(v) => u8_into_lsb0(v),
            Primitive::U16(v) => u16_into_lsb0(v),
            Primitive::U32(v) => u32_into_lsb0(v),
            Primitive::U64(v) => u64_into_lsb0(v),
            Primitive::U128(v) => u128_into_lsb0(v),
        }
    }

    /// Converts the value into its bits, most significant first.
    pub fn into_msb0_vec(self) -> (bits: Vec<bool>)
        ensures
            is_msb0_of(bits@, self.as_int(), self.ty().width()),
    {
        let lsb0 = self.into_lsb0_vec();
        let bits = reverse_bits(lsb0);
        assert(bits@.reverse() =~= lsb0@);
        bits
    }
}

impl BitLength for Primitive {
    open spec fn bit_len(&self) -> int {
        self.ty().width() as int
    }

    fn bit_length(&self) -> (r: usize) {
        match self {
            Primitive::Bit(_) => 1,
            Primitive::U8(_) => 8,
            Primitive::U16(_) => 16,
            Primitive::U32(_) => 32,
            Primitive::U64(_) => 64,
            Primitive::U128(_) => 128,
        }
    }
}

impl StaticBitLength for bool {
    const BIT_LENGTH: usize = 1;
}

impl StaticBitLength for u8 {
    const BIT_LENGTH: usize = 8;
}

impl StaticBitLength for u16 {
    const BIT_LENGTH: usize = 16;
}

impl StaticBitLength for u32 {
    const BIT_LENGTH: usize = 32;
}

impl StaticBitLength for u64 {
    const BIT_LENGTH: usize = 64;
}

impl StaticBitLength for u128 {
    const BIT_LENGTH: usize = 128;
}

impl StaticPrimitiveType for bool {
    const TYPE: PrimitiveType = PrimitiveType::Bit;

    open spec fn type_spec() -> PrimitiveType {
        PrimitiveType::Bit
    }

    fn static_type() -> (r: PrimitiveType) {
        PrimitiveType::Bit
    }

    open spec fn to_primitive(self) -> Primitive {
        Primitive::Bit(self)
    }

    fn into_primitive(self) -> (p: Primitive) {
        Primitive::Bit(self)
    }
}

impl StaticPrimitiveType for u8 {
    const TYPE: PrimitiveType = PrimitiveType::U8;

    open spec fn type_spec() -> PrimitiveType {
        PrimitiveType::U8
    }

    fn static_type() -> (r: PrimitiveType) {
        PrimitiveType::U8
    }

    open spec fn to_primitive(self) -> Primitive {
        Primitive::U8(self)
    }

    fn into_primitive(self) -> (p: Primitive) {
        Primitive::U8(self)
    }
}

impl StaticPrimitiveType for u16 {
    const TYPE: PrimitiveType = PrimitiveType::U16;

    open spec fn type_spec() -> PrimitiveType {
        PrimitiveType::U16
    }

    fn static_type() -> (r: PrimitiveType) {
        PrimitiveType::U16
    }

    open spec fn to_primitive(self) -> Primitive {
        Primitive::U16(self)
    }

    fn into_primitive(self) -> (p: Primitive) {
        Primitive::U16(self)
    }
}

impl StaticPrimitiveType for u32 {
    const TYPE: PrimitiveType = PrimitiveType::U32;

    open spec fn type_spec() -> PrimitiveType {
        PrimitiveType::U32
    }

    fn static_type() -> (r: PrimitiveType) {
        PrimitiveType::U32
    }

    open spec fn to_primitive(self) -> Primitive {
        Primitive::U32(self)
    }

    fn into_primitive(self) -> (p: Primitive) {
        Primitive::U32(self)
    }
}

impl StaticPrimitiveType for u64 {
    const TYPE: PrimitiveType = PrimitiveType::U64;

    open spec fn type_spec() -> PrimitiveType {
        PrimitiveType::U64
    }

    fn static_type() -> (r: PrimitiveType) {
        PrimitiveType::U64
    }

    open spec fn to_primitive(self) -> Primitive {
        Primitive::U64(self)
    }

    fn into_primitive(self) -> (p: Primitive) {
        Primitive::U64(self)
    }
}

impl StaticPrimitiveType for u128 {
    const TYPE: PrimitiveType = PrimitiveType::U128;

    open spec fn type_spec() -> PrimitiveType {
        PrimitiveType::U128
    }

    fn static_type() -> (r: PrimitiveType) {
        PrimitiveType::U128
    }

    open spec fn to_primitive(self) -> Primitive {
        Primitive::U128(self)
    }

    fn into_primitive(self) -> (p: Primitive) {
        Primitive::U128(self)
    }
}

impl From<bool> for Primitive {
    fn from(value: bool) -> (r: Self)
        ensures
            r.ty() == PrimitiveType::Bit,
            r.as_int() == (if value { 1int } else { 0int }),
    {
        Primitive::Bit(value)
    }
}

impl vstd::std_specs::convert::FromSpecImpl<bool> for Primitive {
    open spec fn obeys_from_spec() -> bool {
        true
    }

    open spec fn from_spec(v: bool) -> Primitive {
        Primitive::Bit(v)
    }
}

impl From<u8> for Primitive {
    fn from(value: u8) -> (r: Self)
        ensures
            r.ty() == PrimitiveType::U8,
            r.as_int() == value as int,
    {
        Primitive::U8(value)
    }
}

impl vstd::std_specs::convert::FromSpecImpl<u8> for Primitive {
    open spec fn obeys_from_spec() -> bool {
        true
    }

    open spec fn from_spec(v: u8) -> Primitive {
        Primitive::U8(v)
    }
}

impl From<u16> for Primitive {
    fn from(value: u16) -> (r: Self)
        ensures
            r.ty() == PrimitiveType::U16,
            r.as_int() == value as int,
    {
        Primitive::U16(value)
    }
}

impl vstd::std_specs::convert::FromSpecImpl<u16> for Primitive {
    open spec fn obeys_from_spec() -> bool {
        true
    }

    open spec fn from_spec(v: u16) -> Primitive {
        Primitive::U16(v)
    }
}

impl From<u32> for Primitive {
    fn from(value: u32) -> (r: Self)
        ensures
            r.ty() == PrimitiveType::U32,
            r.as_int() == value as int,
    {
        Primitive::U32(value)
    }
}

impl vstd::std_specs::convert::FromSpecImpl<u32> for Primitive {
    open spec fn obeys_from_spec() -> bool {
        true
    }

    open spec fn from_spec(v: u32) -> Primitive {
        Primitive::U32(v)
    }
}

impl From<u64> for Primitive {
    fn from(value: u64) -> (r: Self)
        ensures
            r.ty() == PrimitiveType::U64,
            r.as_int() == value as int,
    {
        Primitive::U64(value)
    }
}

impl vstd::std_specs::convert::FromSpecImpl<u64> for Primitive {
    open spec fn obeys_from_spec() -> bool {
        true
    }

    open spec fn from_spec(v: u64) -> Primitive {
        Primitive::U64(v)
    }
}

impl From<u128> for Primitive {
    fn from(value: u128) -> (r: Self)
        ensures
            r.ty() == PrimitiveType::U128,
            r.as_int() == value as int,
    {
        Primitive::U128(value)
    }
}

impl vstd::std_specs::convert::FromSpecImpl<u128> for Primitive {
    open spec fn obeys_from_spec() -> bool {
        true
    }

    open spec fn from_spec(v: u128) -> Primitive {
        Primitive::U128(v)
    }
}

impl PrimitiveType {
    /// Draws a random value of this type.
    pub fn random(&self, rng: &mut StdRng) -> (r: Primitive)
        ensures
            r.ty() == *self,
    {
        match self {
            PrimitiveType::Bit => Primitive::Bit(crate::random::random_bool(rng)),
            PrimitiveType::U8 => Primitive::U8(crate::random::random_u8(rng)),
            PrimitiveType::U16 => Primitive::U16(crate::random::random_u16(rng)),
            PrimitiveType::U32 => Primitive::U32(crate::random::random_u32(rng)),
            PrimitiveType::U64 => Primitive::U64(crate::random::random_u64(rng)),
            PrimitiveType::U128 => Primitive::U128(crate::random::random_block(rng)),
        }
    }
}

} // verus!
