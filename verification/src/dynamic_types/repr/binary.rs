//! Binary representations: primitives kept one bit per memory cell, least
//! significant bit first.

use vstd::prelude::*;

use super::{all_fresh, all_present, distinct, unchanged_outside, Repr};
use crate::bits::{
    lsb0_value, u128_from_lsb0, u128_into_lsb0, u16_from_lsb0, u16_into_lsb0, u32_from_lsb0,
    u32_into_lsb0, u64_from_lsb0, u64_into_lsb0, u8_from_lsb0, u8_into_lsb0,
};
use crate::dynamic_types::primitive::binary::{BinaryType, BitLength, Value};
use crate::dynamic_types::primitive::PrimitiveType;
use crate::dynamic_types::{Memory, MemoryAlloc, MemoryGet, MemoryMut};

verus! {

/// The value of type `ty` whose bits, least significant first, are `bits`.
pub open spec fn value_of_bits(ty: BinaryType, bits: Seq<bool>) -> Value {
    match ty {
        BinaryType::Bit => Value::Bit(bits[0]),
        BinaryType::U8 => Value::U8(lsb0_value(bits) as u8),
        BinaryType::U16 => Value::U16(lsb0_value(bits) as u16),
        BinaryType::U32 => Value::U32(lsb0_value(bits) as u32),
        BinaryType::U64 => Value::U64(lsb0_value(bits) as u64),
        BinaryType::U128 => Value::U128(lsb0_value(bits) as u128),
    }
}

/// The bits that `mem` holds under `ids`, in order.
pub open spec fn bits_at<M: Memory<Type = bool>>(mem: &M, ids: Seq<M::Id>) -> Seq<bool> {
    Seq::new(ids.len(), |i: int| mem.slot(ids[i])->0)
}

/// The bits of a value, least significant first.
fn value_bits(value: Value) -> (bits: Vec<bool>)
    ensures
        bits@.len() == value.type_of().width(),
        value_of_bits(value.type_of(), bits@) == value,
{
    match value {
        Value::Bit(b) => {
            let bits = vec![b];
            bits
        },
        Value::U8(v) => u8_into_lsb0(v),
        Value::U16(v) => u16_into_lsb0(v),
        Value::U32(v) => u32_into_lsb0(v),
        Value::U64(v) => u64_into_lsb0(v),
        Value::U128(v) => u128_into_lsb0(v),
    }
}

/// The value of type `ty` made of `bits`.
fn bits_value(ty: BinaryType, bits: Vec<bool>) -> (value: Value)
    requires
        bits@.len() == ty.width(),
    ensures
        value == value_of_bits(ty, bits@),
{
    match ty {
        BinaryType::Bit => Value::Bit(bits[0]),
        BinaryType::U8 => Value::U8(u8_from_lsb0(bits)),
        BinaryType::U16 => Value::U16(u16_from_lsb0(bits)),
        BinaryType::U32 => Value::U32(u32_from_lsb0(bits)),
        BinaryType::U64 => Value::U64(u64_from_lsb0(bits)),
        BinaryType::U128 => Value::U128(u128_from_lsb0(bits)),
    }
}

/// A primitive representation: the memory identifiers of the bits of a value
/// of a binary type, least significant first.
#[derive(Debug)]
pub struct BinaryRepr<Id> {
    ty: BinaryType,
    ids: Vec<Id>,
}

impl<Id> BinaryRepr<Id> {
    #[verifier::type_invariant]
    spec fn inv(self) -> bool {
        self.ids@.len() == self.ty.width()
    }

    /// The binary type represented.
    pub closed spec fn ty(&self) -> BinaryType {
        self.ty
    }

    /// The memory identifiers of the bits, least significant first.
    pub closed spec fn id_seq(&self) -> Seq<Id> {
        self.ids@
    }

    /// Tries to create a representation from memory ids, returning `None` if
    /// the number of ids does not match the bit length of the type.
    pub fn try_from_ids(ty: BinaryType, ids: Vec<Id>) -> (r: Option<Self>)
        ensures
            r is Some <==> ids@.len() == ty.width(),
            r matches Some(repr) ==> repr.ty() == ty && repr.id_seq() == ids@,
    {
        if ids.len() == ty.bit_length() {
            Some(BinaryRepr { ty, ids })
        } else {
            None
        }
    }

    /// Returns an iterator over the memory ids.
    pub fn iter(&self) -> (r: PrimitiveIter<'_, Id>)
        ensures
            r.remaining() == self.id_seq(),
    {
        PrimitiveIter { ids: self.ids.as_slice(), pos: 0 }
    }

    /// Returns the memory ids, least significant bit first.
    pub fn ids(&self) -> (r: &[Id])
        ensures
            r@ == self.id_seq(),
            r@.len() == self.ty().width(),
    {
        proof {
            use_type_invariant(self);
        }
        self.ids.as_slice()
    }
}

impl<Id> PrimitiveType for BinaryRepr<Id> {
    type Type = BinaryType;

    open spec fn type_of(&self) -> BinaryType {
        self.ty()
    }

    fn primitive_type(&self) -> (r: BinaryType) {
        self.ty
    }
}

impl<Id> BitLength for BinaryRepr<Id> {
    open spec fn bit_len(&self) -> nat {
        self.ty().width()
    }

    fn bit_length(&self) -> (r: usize) {
        self.ty.bit_length()
    }
}

impl<Id, M: Memory<Id = Id, Type = bool>> Repr<Value, M> for BinaryRepr<Id> {
    type Type = BinaryType;

    open spec fn ids(&self) -> Seq<Id> {
        self.id_seq()
    }

    open spec fn read(&self, mem: &M) -> Option<Value> {
        if all_present(mem, self.id_seq()) {
            Some(value_of_bits(self.ty(), bits_at(mem, self.id_seq())))
        } else {
            None
        }
    }

    open spec fn fits(&self, value: Value) -> bool {
        value.type_of() == self.ty()
    }

    fn get(&self, mem: &M) -> (r: Option<Value>)
        where
            M: MemoryGet,
    {
        proof {
            use_type_invariant(self);
        }
        let mut bits: Vec<bool> = Vec::new();
        let mut i: usize = 0;
        while i < self.ids.len()
            invariant
                i <= self.ids@.len(),
                bits@ == bits_at(mem, self.ids@.subrange(0, i as int)),
                forall|j: int| 0 <= j < i ==> (#[trigger] mem.slot(self.ids@[j])) is Some,
            decreases self.ids.len() - i,
        {
            match mem.get(&self.ids[i]) {
                Some(b) => {
                    proof {
                        assert(bits@.push(*b) =~= bits_at(mem, self.ids@.subrange(0, i + 1)));
                    }
                    bits.push(*b);
                },
                None => {
                    proof {
                        assert(!all_present(mem, self.ids@));
                    }
                    return None;
                },
            }
            i = i + 1;
        }
        proof {
            assert(self.ids@.subrange(0, i as int) =~= self.ids@);
        }
        Some(bits_value(self.ty, bits))
    }

    fn set(&self, mem: &mut M, value: Value)
        where
            M: MemoryMut,
    {
        proof {
            use_type_invariant(self);
        }
        let bits = value_bits(value);
        let ghost start = *mem;
        let mut i: usize = 0;
        while i < self.ids.len()
            invariant
                i <= self.ids@.len(),
                bits@.len() == self.ids@.len(),
                all_present(mem, self.ids@),
                unchanged_outside(&start, mem, self.ids@),
                distinct(self.ids@) ==> forall|j: int|
                    0 <= j < i ==> #[trigger] mem.slot(self.ids@[j]) == Some(bits@[j]),
            decreases self.ids.len() - i,
        {
            let ghost before = *mem;
            proof {
                assert(mem.slot(self.ids@[i as int]) is Some);
            }
            mem.set(&self.ids[i], bits[i]);
            proof {
                assert forall|j: int| 0 <= j < self.ids@.len() implies (#[trigger] mem.slot(
                    self.ids@[j],
                )) is Some by {
                    if self.ids@[j] != self.ids@[i as int] {
                        assert(mem.slot(self.ids@[j]) == before.slot(self.ids@[j]));
                    }
                }
                assert forall|id: Id| !self.ids@.contains(id) implies #[trigger] mem.slot(id)
                    == start.slot(id) by {
                    if id == self.ids@[i as int] {
                        assert(self.ids@.contains(id));
                    }
                }
                if distinct(self.ids@) {
                    assert forall|j: int| 0 <= j < i + 1 implies #[trigger] mem.slot(self.ids@[j])
                        == Some(bits@[j]) by {
                        if j < i {
                            assert(self.ids@[j] != self.ids@[i as int]);
                        }
                    }
                }
            }
            i = i + 1;
        }
        proof {
            if distinct(self.ids@) {
                assert(bits_at(mem, self.ids@) =~= bits@);
            }
        }
    }

    fn allocate(mem: &mut M, value: Value) -> (r: Self)
        where
            M: MemoryAlloc,
    {
        let ty = value.primitive_type();
        let bits = value_bits(value);
        let ghost start = *mem;
        let mut ids: Vec<Id> = Vec::new();
        let mut i: usize = 0;
        while i < bits.len()
            invariant
                i <= bits@.len(),
                ids@.len() == i,
                all_fresh(&start, ids@),
                distinct(ids@),
                unchanged_outside(&start, mem, ids@),
                forall|j: int| 0 <= j < i ==> #[trigger] mem.slot(ids@[j]) == Some(bits@[j]),
            decreases bits.len() - i,
        {
            let ghost before = *mem;
            let ghost prev = ids@;
            let id = mem.allocate(bits[i]);
            proof {
                assert(!prev.contains(id)) by {
                    if prev.contains(id) {
                        let j = choose|j: int| 0 <= j < prev.len() && prev[j] == id;
                        assert(before.slot(prev[j]) == Some(bits@[j]));
                    }
                }
                assert(start.slot(id) is None);
            }
            ids.push(id);
            proof {
                assert forall|j: int| 0 <= j < i + 1 implies #[trigger] mem.slot(ids@[j]) == Some(
                    bits@[j],
                ) by {
                    if j < i {
                        assert(ids@[j] == prev[j]);
                        assert(prev[j] != id);
                    }
                }
                assert forall|id2: Id| !ids@.contains(id2) implies #[trigger] mem.slot(id2)
                    == start.slot(id2) by {
                    assert(!prev.contains(id2)) by {
                        if prev.contains(id2) {
                            let j = choose|j: int| 0 <= j < prev.len() && prev[j] == id2;
                            assert(ids@[j] == id2);
                        }
                    }
                    if id2 == id {
                        assert(ids@[i as int] == id);
                    }
                }
                assert forall|a: int, b: int|
                    0 <= a < ids@.len() && 0 <= b < ids@.len() && a != b implies ids@[a] != ids@[b] by {
                    if a == i {
                        assert(prev.contains(ids@[b]));
                    } else if b == i {
                        assert(prev.contains(ids@[a]));
                    }
                }
            }
            i = i + 1;
        }
        let r = BinaryRepr { ty, ids };
        proof {
            assert(bits_at(mem, r.ids@) =~= bits@);
        }
        r
    }
}

/// An iterator over the memory ids of a primitive representation.
pub struct PrimitiveIter<'a, Id> {
    ids: &'a [Id],
    pos: usize,
}

impl<'a, Id> PrimitiveIter<'a, Id> {
    #[verifier::type_invariant]
    spec fn inv(self) -> bool {
        self.pos <= self.ids@.len()
    }

    /// The ids still to come.
    pub closed spec fn remaining(&self) -> Seq<Id> {
        self.ids@.subrange(self.pos as int, self.ids@.len() as int)
    }

    /// Returns the next memory id, if any.
    pub fn next(&mut self) -> (r: Option<&'a Id>)
        ensures
            old(self).remaining().len() == 0 ==> r is None && final(self).remaining() == old(
                self,
            ).remaining(),
            old(self).remaining().len() > 0 ==> r == Some(&old(self).remaining()[0])
                && final(self).remaining() == old(self).remaining().drop_first(),
    {
        proof {
            use_type_invariant(&*self);
        }
        if self.pos < self.ids.len() {
            let id = &self.ids[self.pos];
            let ghost rem = self.remaining();
            self.pos = self.pos + 1;
            proof {
                assert(self.remaining() =~= rem.drop_first());
            }
            Some(id)
        } else {
            None
        }
    }
}

/// A bit representation: the memory id of one bit.
#[derive(Debug, Clone, Copy)]
pub struct Bit<Id>(Id);

impl<Id> Bit<Id> {
    /// The memory id of the bit.
    pub closed spec fn id_spec(&self) -> Id {
        self.0
    }

    /// Creates a new bit representation.
    pub fn new(id: Id) -> (r: Self)
        ensures
            r.id_spec() == id,
    {
        Bit(id)
    }

    /// Returns the primitive type.
    pub fn primitive_type(&self) -> (r: BinaryType)
        ensures
            r == BinaryType::Bit,
    {
        BinaryType::Bit
    }

    /// Returns the underlying memory id.
    pub fn into_inner(self) -> (r: Id)
        ensures
            r == self.id_spec(),
    {
        self.0
    }

    /// Returns a reference to the underlying memory id.
    pub fn id(&self) -> (r: &Id)
        ensures
            *r == self.id_spec(),
    {
        &self.0
    }

    /// Returns a mutable reference to the underlying memory id.
    pub fn id_mut(&mut self) -> (r: &mut Id)
        ensures
            *r == old(self).id_spec(),
            final(self).id_spec() == *final(r),
    {
        &mut self.0
    }
}

} // verus!
