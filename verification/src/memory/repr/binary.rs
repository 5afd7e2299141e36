//! Representations for values stored in bit-addressable memory: each bit of
//! a value is kept under its own identifier, least significant bit first.

use vstd::prelude::*;

use super::{all_fresh, all_present, distinct, unchanged_outside, Repr};
use crate::binary_types::collections::all_of_type;
use crate::binary_types::{Array, BitLength, Primitive, PrimitiveType, Value, ValueType};
use crate::bits::{
    lsb0_value, u128_from_lsb0, u16_from_lsb0, u32_from_lsb0, u64_from_lsb0, u8_from_lsb0,
};
use crate::memory::{Memory, MemoryMut};

verus! {

/// The primitive of type `ty` whose bits, least significant first, are `bits`.
pub open spec fn primitive_of_bits(ty: PrimitiveType, bits: Seq<bool>) -> Primitive {
    match ty {
        PrimitiveType::Bit => Primitive::Bit(bits[0]),
        PrimitiveType::U8 => Primitive::U8(lsb0_value(bits) as u8),
        PrimitiveType::U16 => Primitive::U16(lsb0_value(bits) as u16),
        PrimitiveType::U32 => Primitive::U32(lsb0_value(bits) as u32),
        PrimitiveType::U64 => Primitive::U64(lsb0_value(bits) as u64),
        PrimitiveType::U128 => Primitive::U128(lsb0_value(bits) as u128),
    }
}

/// The bits that `mem` holds under `ids`, in order.
pub open spec fn bits_at<M: Memory<bool>>(mem: &M, ids: Seq<M::Id>) -> Seq<bool> {
    Seq::new(ids.len(), |i: int| mem.slot(ids[i])->0)
}

/// Bits of the width of a type make distinct primitives when they differ.
proof fn lemma_primitive_of_bits_injective(ty: PrimitiveType, a: Seq<bool>, b: Seq<bool>)
    requires
        a.len() == ty.width(),
        b.len() == ty.width(),
        primitive_of_bits(ty, a) == primitive_of_bits(ty, b),
    ensures
        a == b,
{
    crate::bits::lemma_lsb0_bound(a);
    crate::bits::lemma_lsb0_bound(b);
    vstd::arithmetic::power2::lemma2_to64();
    vstd::arithmetic::power2::lemma2_to64_rest();
    vstd::arithmetic::power2::lemma_pow2_adds(64, 64);
    match ty {
        PrimitiveType::Bit => {
            assert(a =~= b);
        },
        _ => {
            crate::bits::lemma_lsb0_injective(a, b);
        },
    }
}

/// The primitive of type `ty` made of `bits`.
fn primitive_from_bits(ty: PrimitiveType, bits: Vec<bool>) -> (p: Primitive)
    requires
        bits@.len() == ty.width(),
    ensures
        p == primitive_of_bits(ty, bits@),
{
    match ty {
        PrimitiveType::Bit => Primitive::Bit(bits[0]),
        PrimitiveType::U8 => Primitive::U8(u8_from_lsb0(bits)),
        PrimitiveType::U16 => Primitive::U16(u16_from_lsb0(bits)),
        PrimitiveType::U32 => Primitive::U32(u32_from_lsb0(bits)),
        PrimitiveType::U64 => Primitive::U64(u64_from_lsb0(bits)),
        PrimitiveType::U128 => Primitive::U128(u128_from_lsb0(bits)),
    }
}

/// The bits of a primitive, least significant first.
fn primitive_bits(p: Primitive) -> (bits: Vec<bool>)
    ensures
        bits@.len() == p.ty().width(),
        primitive_of_bits(p.ty(), bits@) == p,
{
    let bits = p.into_lsb0_vec();
    proof {
        if p is Bit {
            assert(bits@.drop_first() =~= Seq::<bool>::empty());
        }
    }
    bits
}

/// Copies a slice of ids.
fn copy_ids<Id: Copy>(ids: &[Id]) -> (r: Vec<Id>)
    ensures
        r@ == ids@,
{
    let mut r: Vec<Id> = Vec::new();
    let mut i: usize = 0;
    while i < ids.len()
        invariant
            i <= ids@.len(),
            r@ == ids@.subrange(0, i as int),
        decreases ids.len() - i,
    {
        r.push(ids[i]);
        i = i + 1;
    }
    assert(r@ =~= ids@);
    r
}

/// A primitive representation: the memory ids of the bits of a value of a
/// primitive type, least significant first.
#[derive(Debug)]
pub struct PrimitiveRepr<Id> {
    ty: PrimitiveType,
    ids: Vec<Id>,
}

impl<Id> PrimitiveRepr<Id> {
    #[verifier::type_invariant]
    spec fn inv(self) -> bool {
        self.ids@.len() == self.ty.width()
    }

    /// The primitive type represented.
    pub closed spec fn ty(&self) -> PrimitiveType {
        self.ty
    }

    /// The memory ids of the bits, least significant first.
    pub closed spec fn id_seq(&self) -> Seq<Id> {
        self.ids@
    }

    /// `mem` holds `value` here.
    pub open spec fn holds_value<M: Memory<bool, Id = Id>>(&self, mem: &M, value: Primitive) -> bool {
        &&& self.id_seq().len() == self.ty().width()
        &&& all_present(mem, self.id_seq())
        &&& value == primitive_of_bits(self.ty(), bits_at(mem, self.id_seq()))
    }

    /// Tries to create a representation from memory ids, returning `None` if
    /// the number of ids does not match the bit length of the type.
    pub fn try_from_ids(ty: PrimitiveType, ids: Vec<Id>) -> (r: Option<Self>)
        ensures
            r is Some <==> ids@.len() == ty.width(),
            r matches Some(repr) ==> repr.ty() == ty && repr.id_seq() == ids@,
    {
        if ids.len() == ty.bit_length() {
            Some(PrimitiveRepr { ty, ids })
        } else {
            None
        }
    }

    /// Returns the primitive type.
    pub fn primitive_type(&self) -> (r: PrimitiveType)
        ensures
            r == self.ty(),
    {
        self.ty
    }

    /// Returns the memory ids, least significant bit first.
    pub fn ids(&self) -> (r: &[Id])
        ensures
            r@ == self.id_seq(),
            r@.len() == self.ty().width(),
    {
        proof {
            use_type_invariant(self);
        }
        self.ids.as_slice()
    }

    /// Returns an iterator over the memory ids.
    pub fn iter(&self) -> (r: PrimitiveIter<'_, Id>)
        ensures
            r.remaining() == self.id_seq(),
    {
        PrimitiveIter { ids: self.ids.as_slice(), pos: 0 }
    }

    /// Returns the bit length.
    pub fn bit_length(&self) -> (r: usize)
        ensures
            r == self.ty().width(),
    {
        self.ty.bit_length()
    }
}

impl<Id, M: Memory<bool, Id = Id>> Repr<bool, M> for PrimitiveRepr<Id> {
    type Value = Primitive;

    open spec fn ids(&self) -> Seq<Id> {
        self.id_seq()
    }

    open spec fn holds(&self, mem: &M, value: Primitive) -> bool {
        self.holds_value(mem, value)
    }

    open spec fn fits(&self, value: Primitive) -> bool {
        value.ty() == self.ty()
    }

    open spec fn writable(&self, value: Primitive) -> bool {
        value.ty() == self.ty()
    }

    fn get(&self, mem: &M) -> (r: Option<Primitive>) {
        proof {
            use_type_invariant(self);
        }
        let mut bits: Vec<bool> = Vec::new();
        let mut i: usize = 0;
        while i < self.ids.len()
            invariant
                i <= self.ids@.len(),
                bits@ == bits_at(mem, self.ids@.subrange(0, i as int)),
                forall|j: int| 0 <= j < i ==> (#[trigger] mem.slot(self.ids@[j])) is Some,
            decreases self.ids.len() - i,
        {
            match mem.get(&self.ids[i]) {
                Some(b) => {
                    proof {
                        assert(bits@.push(*b) =~= bits_at(mem, self.ids@.subrange(0, i + 1)));
                    }
                    bits.push(*b);
                },
                None => {
                    return None;
                },
            }
            i = i + 1;
        }
        proof {
            assert(self.ids@.subrange(0, i as int) =~= self.ids@);
        }
        Some(primitive_from_bits(self.ty, bits))
    }

    fn set(&self, mem: &mut M, value: Primitive)
        where
            M: MemoryMut<bool>,
    {
        proof {
            use_type_invariant(self);
        }
        let bits = primitive_bits(value);
        let ghost start = *mem;
        let mut i: usize = 0;
        while i < self.ids.len()
            invariant
                i <= self.ids@.len(),
                bits@.len() == self.ids@.len(),
                all_present(mem, self.ids@),
                unchanged_outside(&start, mem, self.ids@),
                distinct(self.ids@) ==> forall|j: int|
                    0 <= j < i ==> #[trigger] mem.slot(self.ids@[j]) == Some(bits@[j]),
            decreases self.ids.len() - i,
        {
            let ghost before = *mem;
            proof {
                assert(mem.slot(self.ids@[i as int]) is Some);
            }
            mem.set(&self.ids[i], bits[i]);
            proof {
                assert forall|j: int| 0 <= j < self.ids@.len() implies (#[trigger] mem.slot(
                    self.ids@[j],
                )) is Some by {
                    if self.ids@[j] != self.ids@[i as int] {
                        assert(mem.slot(self.ids@[j]) == before.slot(self.ids@[j]));
                    }
                }
                assert forall|id: Id| !self.ids@.contains(id) implies #[trigger] mem.slot(id)
                    == start.slot(id) by {
                    if id == self.ids@[i as int] {
                        assert(self.ids@.contains(id));
                    }
                }
                if distinct(self.ids@) {
                    assert forall|j: int| 0 <= j < i + 1 implies #[trigger] mem.slot(self.ids@[j])
                        == Some(bits@[j]) by {
                        if j < i {
                            assert(self.ids@[j] != self.ids@[i as int]);
                        }
                    }
                }
            }
            i = i + 1;
        }
        proof {
            if distinct(self.ids@) {
                assert(bits_at(mem, self.ids@) =~= bits@);
            }
        }
    }

    fn allocate(mem: &mut M, value: Primitive) -> (r: Self) {
        let ty = value.primitive_type();
        let bits = primitive_bits(value);
        let ghost start = *mem;
        let mut ids: Vec<Id> = Vec::new();
        let mut i: usize = 0;
        while i < bits.len()
            invariant
                i <= bits@.len(),
                ids@.len() == i,
                all_fresh(&start, ids@),
                distinct(ids@),
                unchanged_outside(&start, mem, ids@),
                forall|j: int| 0 <= j < i ==> #[trigger] mem.slot(ids@[j]) == Some(bits@[j]),
            decreases bits.len() - i,
        {
            let ghost before = *mem;
            let ghost prev = ids@;
            let id = mem.allocate(bits[i]);
            proof {
                assert(!prev.contains(id)) by {
                    if prev.contains(id) {
                        let j = choose|j: int| 0 <= j < prev.len() && prev[j] == id;
                        assert(before.slot(prev[j]) == Some(bits@[j]));
                    }
                }
                assert(start.slot(id) is None);
            }
            ids.push(id);
            proof {
                assert forall|j: int| 0 <= j < i + 1 implies #[trigger] mem.slot(ids@[j]) == Some(
                    bits@[j],
                ) by {
                    if j < i {
                        assert(ids@[j] == prev[j]);
                        assert(prev[j] != id);
                    }
                }
                assert forall|id2: Id| !ids@.contains(id2) implies #[trigger] mem.slot(id2)
                    == start.slot(id2) by {
                    assert(!prev.contains(id2)) by {
                        if prev.contains(id2) {
                            let j = choose|j: int| 0 <= j < prev.len() && prev[j] == id2;
                            assert(ids@[j] == id2);
                        }
                    }
                    if id2 == id {
                        assert(ids@[i as int] == id);
                    }
                }
                assert forall|a: int, b: int|
                    0 <= a < ids@.len() && 0 <= b < ids@.len() && a != b implies ids@[a] != ids@[b] by {
                    if a == i {
                        assert(prev.contains(ids@[b]));
                    } else if b == i {
                        assert(prev.contains(ids@[a]));
                    }
                }
            }
            i = i + 1;
        }
        let r = PrimitiveRepr { ty, ids };
        proof {
            assert(bits_at(mem, r.ids@) =~= bits@);
        }
        r
    }
}

/// An iterator over the memory ids of a primitive representation.
pub struct PrimitiveIter<'a, Id> {
    ids: &'a [Id],
    pos: usize,
}

impl<'a, Id> PrimitiveIter<'a, Id> {
    #[verifier::type_invariant]
    spec fn inv(self) -> bool {
        self.pos <= self.ids@.len()
    }

    /// The ids still to come.
    pub closed spec fn remaining(&self) -> Seq<Id> {
        self.ids@.subrange(self.pos as int, self.ids@.len() as int)
    }

    /// Returns the next memory id, if any.
    pub fn next(&mut self) -> (r: Option<&'a Id>)
        ensures
            old(self).remaining().len() == 0 ==> r is None && final(self).remaining() == old(
                self,
            ).remaining(),
            old(self).remaining().len() > 0 ==> r == Some(&old(self).remaining()[0])
                && final(self).remaining() == old(self).remaining().drop_first(),
    {
        proof {
            use_type_invariant(&*self);
        }
        if self.pos < self.ids.len() {
            let id = &self.ids[self.pos];
            let ghost rem = self.remaining();
            self.pos = self.pos + 1;
            proof {
                assert(self.remaining() =~= rem.drop_first());
            }
            Some(id)
        } else {
            None
        }
    }
}

/// A bit representation: the memory id of one bit.
#[derive(Debug, Clone, Copy)]
pub struct Bit<Id>(Id);

impl<Id> Bit<Id> {
    /// The memory id of the bit.
    pub closed spec fn id_spec(&self) -> Id {
        self.0
    }

    /// Creates a new bit representation.
    pub fn new(id: Id) -> (r: Self)
        ensures
            r.id_spec() == id,
    {
        Bit(id)
    }

    /// Returns the primitive type.
    pub fn primitive_type(&self) -> (r: PrimitiveType)
        ensures
            r == PrimitiveType::Bit,
    {
        PrimitiveType::Bit
    }

    /// Returns the underlying memory id.
    pub fn into_inner(self) -> (r: Id)
        ensures
            r == self.id_spec(),
    {
        self.0
    }

    /// Returns a reference to the underlying memory id.
    pub fn id(&self) -> (r: &Id)
        ensures
            *r == self.id_spec(),
    {
        &self.0
    }

    /// Returns a mutable reference to the underlying memory id.
    pub fn id_mut(&mut self) -> (r: &mut Id)
        ensures
            *r == old(self).id_spec(),
            final(self).id_spec() == *final(r),
    {
        &mut self.0
    }

    /// Gets the bit from memory, if its id holds one.
    pub fn get<M: Memory<bool, Id = Id>>(&self, mem: &M) -> (r: Option<bool>)
        ensures
            r == mem.slot(self.id_spec()),
    {
        match mem.get(&self.0) {
            Some(b) => Some(*b),
            None => None,
        }
    }

    /// Sets the bit in memory.
    pub fn set<M: MemoryMut<bool, Id = Id>>(&self, mem: &mut M, value: bool)
        requires
            old(mem).slot(self.id_spec()) is Some,
        ensures
            final(mem).slot(self.id_spec()) == Some(value),
            forall|j: Id| j != self.id_spec() ==> #[trigger] final(mem).slot(j) == old(mem).slot(j),
    {
        mem.set(&self.0, value);
    }

    /// Allocates the bit in memory.
    pub fn allocate<M: Memory<bool, Id = Id>>(mem: &mut M, value: bool) -> (r: Self)
        ensures
            old(mem).slot(r.id_spec()) is None,
            final(mem).slot(r.id_spec()) == Some(value),
            forall|j: Id| j != r.id_spec() ==> #[trigger] final(mem).slot(j) == old(mem).slot(j),
    {
        let id = mem.allocate(value);
        Bit(id)
    }
}

/// The memory ids of a sequence of primitive representations, one after the
/// other.
pub open spec fn flat_ids<Id>(elems: Seq<PrimitiveRepr<Id>>) -> Seq<Id>
    decreases elems.len(),
{
    if elems.len() == 0 {
        Seq::empty()
    } else {
        flat_ids(elems.drop_last()) + elems.last().id_seq()
    }
}

/// An id of an element is an id of the whole.
proof fn lemma_flat_contains<Id>(elems: Seq<PrimitiveRepr<Id>>, k: int, id: Id)
    requires
        0 <= k < elems.len(),
        elems[k].id_seq().contains(id),
    ensures
        flat_ids(elems).contains(id),
    decreases elems.len(),
{
    let rest = elems.drop_last();
    if k == elems.len() - 1 {
        let i = choose|i: int| 0 <= i < elems[k].id_seq().len() && elems[k].id_seq()[i] == id;
        assert(flat_ids(elems)[flat_ids(rest).len() + i] == id);
    } else {
        assert(rest[k] == elems[k]);
        lemma_flat_contains(rest, k, id);
        let i = choose|i: int| 0 <= i < flat_ids(rest).len() && flat_ids(rest)[i] == id;
        assert(flat_ids(elems)[i] == id);
    }
}

/// Every id of the whole is an id of an element.
proof fn lemma_flat_member<Id>(elems: Seq<PrimitiveRepr<Id>>, id: Id) -> (k: int)
    requires
        flat_ids(elems).contains(id),
    ensures
        0 <= k < elems.len(),
        elems[k].id_seq().contains(id),
    decreases elems.len(),
{
    let rest = elems.drop_last();
    let f = flat_ids(elems);
    let i = choose|i: int| 0 <= i < f.len() && f[i] == id;
    if i < flat_ids(rest).len() {
        assert(flat_ids(rest)[i] == id);
        let k = lemma_flat_member(rest, id);
        assert(rest[k] == elems[k]);
        k
    } else {
        let last = elems.len() - 1;
        assert(elems[last].id_seq()[i - flat_ids(rest).len()] == id);
        last
    }
}

/// When the whole has no repeated id, neither has an element, and no two
/// elements share an id.
proof fn lemma_flat_distinct<Id>(elems: Seq<PrimitiveRepr<Id>>)
    requires
        distinct(flat_ids(elems)),
    ensures
        forall|k: int| 0 <= k < elems.len() ==> distinct(#[trigger] elems[k].id_seq()),
        forall|k1: int, k2: int, id: Id|
            0 <= k1 < elems.len() && 0 <= k2 < elems.len() && k1 != k2 && #[trigger] elems[k1].id_seq().contains(id)
                ==> !#[trigger] elems[k2].id_seq().contains(id),
    decreases elems.len(),
{
    if elems.len() > 0 {
        let rest = elems.drop_last();
        let fr = flat_ids(rest);
        let last = elems.last().id_seq();
        let f = flat_ids(elems);
        assert(f == fr + last);
        assert(distinct(fr)) by {
            assert forall|i: int, j: int| 0 <= i < fr.len() && 0 <= j < fr.len() && i != j implies fr[i] != fr[j] by {
                assert(f[i] == fr[i] && f[j] == fr[j]);
            }
        }
        lemma_flat_distinct(rest);
        assert forall|k: int| 0 <= k < elems.len() implies distinct(#[trigger] elems[k].id_seq()) by {
            if k == elems.len() - 1 {
                assert forall|i: int, j: int| 0 <= i < last.len() && 0 <= j < last.len() && i != j implies last[i] != last[j] by {
                    assert(f[fr.len() + i] == last[i] && f[fr.len() + j] == last[j]);
                }
            } else {
                assert(rest[k] == elems[k]);
            }
        }
        assert forall|k1: int, k2: int, id: Id|
            0 <= k1 < elems.len() && 0 <= k2 < elems.len() && k1 != k2 && #[trigger] elems[k1].id_seq().contains(id)
            implies !#[trigger] elems[k2].id_seq().contains(id) by {
            let n = elems.len() - 1;
            if k1 < n && k2 < n {
                assert(rest[k1] == elems[k1] && rest[k2] == elems[k2]);
            } else {
                let (a, b) = if k1 == n { (k2, k1) } else { (k1, k2) };
                // `a` is an earlier element, `b` the last one.
                if elems[a].id_seq().contains(id) && elems[b].id_seq().contains(id) {
                    assert(rest[a] == elems[a]);
                    lemma_flat_contains(rest, a, id);
                    let i = choose|i: int| 0 <= i < fr.len() && fr[i] == id;
                    let j = choose|j: int| 0 <= j < last.len() && last[j] == id;
                    assert(f[i] == id && f[fr.len() + j] == id);
                }
            }
        }
    }
}

/// Two sequences without repeats and without common elements make one.
proof fn lemma_distinct_concat<Id>(a: Seq<Id>, b: Seq<Id>)
    requires
        distinct(a),
        distinct(b),
        forall|id: Id| a.contains(id) ==> !b.contains(id),
    ensures
        distinct(a + b),
{
    let c = a + b;
    assert forall|i: int, j: int| 0 <= i < c.len() && 0 <= j < c.len() && i != j implies c[i] != c[j] by {
        if i < a.len() && j >= a.len() {
            assert(a.contains(c[i]));
            assert(b.contains(c[j])) by { assert(b[j - a.len()] == c[j]); }
        } else if j < a.len() && i >= a.len() {
            assert(a.contains(c[j]));
            assert(b.contains(c[i])) by { assert(b[i - a.len()] == c[i]); }
        } else if i >= a.len() && j >= a.len() {
            assert(c[i] == b[i - a.len()] && c[j] == b[j - a.len()]);
        }
    }
}

/// A memory holds the same value at a representation whose ids it keeps.
proof fn lemma_holds_frame<Id, M: Memory<bool, Id = Id>>(repr: PrimitiveRepr<Id>, m1: &M, m2: &M, v: Primitive)
    requires
        repr.holds_value(m1, v),
        forall|i: int| 0 <= i < repr.id_seq().len() ==> m2.slot(#[trigger] repr.id_seq()[i]) == m1.slot(repr.id_seq()[i]),
    ensures
        repr.holds_value(m2, v),
{
    assert(bits_at(m1, repr.id_seq()) =~= bits_at(m2, repr.id_seq()));
    assert forall|i: int| 0 <= i < repr.id_seq().len() implies (#[trigger] m2.slot(repr.id_seq()[i])) is Some by {
        assert(m1.slot(repr.id_seq()[i]) is Some);
    }
}

/// The ids of all elements hold something exactly when the whole's do.
proof fn lemma_flat_present<Id, M: Memory<bool, Id = Id>>(mem: &M, elems: Seq<PrimitiveRepr<Id>>)
    ensures
        all_present(mem, flat_ids(elems)) <==> forall|k: int| 0 <= k < elems.len() ==> all_present(mem, #[trigger] elems[k].id_seq()),
{
    let f = flat_ids(elems);
    if all_present(mem, f) {
        assert forall|k: int| 0 <= k < elems.len() implies all_present(mem, #[trigger] elems[k].id_seq()) by {
            assert forall|i: int| 0 <= i < elems[k].id_seq().len() implies (#[trigger] mem.slot(elems[k].id_seq()[i])) is Some by {
                lemma_flat_contains(elems, k, elems[k].id_seq()[i]);
                let j = choose|j: int| 0 <= j < f.len() && f[j] == elems[k].id_seq()[i];
                assert(mem.slot(f[j]) is Some);
            }
        }
    }
    if forall|k: int| 0 <= k < elems.len() ==> all_present(mem, #[trigger] elems[k].id_seq()) {
        assert forall|i: int| 0 <= i < f.len() implies (#[trigger] mem.slot(f[i])) is Some by {
            assert(f.contains(f[i]));
            let k = lemma_flat_member(elems, f[i]);
            let j = choose|j: int| 0 <= j < elems[k].id_seq().len() && elems[k].id_seq()[j] == f[i];
            assert(all_present(mem, elems[k].id_seq()));
            assert(mem.slot(elems[k].id_seq()[j]) is Some);
        }
    }
}

/// An array representation: one primitive representation per element, all of
/// the element type.
#[derive(Debug)]
pub struct ArrayRepr<Id> {
    ty: PrimitiveType,
    elems: Vec<PrimitiveRepr<Id>>,
}

impl<Id> ArrayRepr<Id> {
    #[verifier::type_invariant]
    spec fn inv(self) -> bool {
        forall|k: int| 0 <= k < self.elems@.len() ==> (#[trigger] self.elems@[k]).ty() == self.ty
    }

    /// The element type.
    pub closed spec fn ty(&self) -> PrimitiveType {
        self.ty
    }

    /// The element representations.
    pub closed spec fn elem_seq(&self) -> Seq<PrimitiveRepr<Id>> {
        self.elems@
    }

    /// `mem` holds the array `value` here.
    pub open spec fn holds_array<M: Memory<bool, Id = Id>>(&self, mem: &M, value: Array) -> bool {
        &&& value.ty() == self.ty()
        &&& value.elems().len() == self.elem_seq().len()
        &&& forall|k: int| 0 <= k < self.elem_seq().len() ==> (#[trigger] self.elem_seq()[k]).holds_value(mem, value.elems()[k])
    }

    /// Tries to create a representation of `len` elements of type `ty` from
    /// memory ids, returning `None` if the number of ids is not `len` times
    /// the bit length of the type.
    pub fn try_from_ids(ty: PrimitiveType, len: usize, ids: Vec<Id>) -> (r: Option<Self>)
        ensures
            r is Some <==> ids@.len() == len * ty.width(),
            r matches Some(repr) ==> repr.ty() == ty && repr.elem_seq().len() == len && flat_ids(repr.elem_seq()) == ids@,
            r matches Some(repr) ==> forall|j: int|
                0 <= j < len ==> (#[trigger] repr.elem_seq()[j]).ty() == ty && repr.elem_seq()[j].id_seq()
                    == ids@.subrange(j * ty.width(), (j + 1) * ty.width()),
    {
        let w = ty.bit_length();
        let n = ids.len();
        if n / w != len || n % w != 0 {
            proof {
                if n == len * w {
                    vstd::arithmetic::div_mod::lemma_fundamental_div_mod_converse(n as int, w as int, len as int, 0);
                }
            }
            return None;
        }
        proof {
            vstd::arithmetic::div_mod::lemma_fundamental_div_mod(n as int, w as int);
            assert(n == len * w) by (nonlinear_arith) requires n == w * (n / w) + n % w, n / w == len, n % w == 0;
        }
        // Split the ids into chunks of `w`, from the back.
        let mut rest = ids;
        let ghost all = rest@;
        let mut rev: Vec<PrimitiveRepr<Id>> = Vec::new();
        let mut k: usize = 0;
        while k < len
            invariant
                k <= len,
                w == ty.width(),
                w > 0,
                n == len * w,
                all.len() == n,
                rest@ == all.subrange(0, ((len - k) * w) as int),
                rev@.len() == k,
                forall|j: int| 0 <= j < k ==> (#[trigger] rev@[j]).ty() == ty,
                forall|j: int| 0 <= j < k ==> (#[trigger] rev@[j]).id_seq() == all.subrange(((len - 1 - j) * w) as int, ((len - j) * w) as int),
            decreases len - k,
        {
            proof {
                assert((len - k) * w == (len - k - 1) * w + w) by (nonlinear_arith);
                assert((len - k - 1) * w >= 0) by (nonlinear_arith) requires len - k - 1 >= 0, w > 0;
            }
            let at = rest.len() - w;
            let chunk = rest.split_off(at);
            let repr = PrimitiveRepr { ty, ids: chunk };
            rev.push(repr);
            k = k + 1;
        }
        let mut elems: Vec<PrimitiveRepr<Id>> = Vec::new();
        let ghost rv = rev@;
        proof {
            assert(elems@.len() == 0);
            assert(elems@.len() * w == 0) by (nonlinear_arith)
                requires
                    elems@.len() == 0,
            ;
            assert(flat_ids(elems@) =~= all.subrange(0, 0));
        }
        while rev.len() > 0
            invariant
                rev@.len() + elems@.len() == len,
                rev@ == rv.subrange(0, rev@.len() as int),
                rv.len() == len,
                forall|j: int| 0 <= j < len ==> (#[trigger] rv[j]).ty() == ty,
                forall|j: int| 0 <= j < elems@.len() ==> #[trigger] elems@[j] == rv[len - 1 - j],
                flat_ids(elems@) == all.subrange(0, (elems@.len() * w) as int),
                w == ty.width(),
                n == len * w,
                all.len() == n,
                forall|j: int| 0 <= j < len ==> (#[trigger] rv[j]).id_seq() == all.subrange(((len - 1 - j) * w) as int, ((len - j) * w) as int),
            decreases rev.len(),
        {
            let e = rev.pop().unwrap();
            let ghost m = elems@.len();
            proof {
                assert(e == rv[len - 1 - m]);
                let j = len - 1 - m;
                assert(len - 1 - j == m);
                assert(len - j == m + 1);
                assert(e.id_seq() == all.subrange((m * w) as int, ((m + 1) * w) as int));
                assert((m + 1) * w == m * w + w) by (nonlinear_arith);
                assert((m + 1) * w <= n) by (nonlinear_arith) requires m + 1 <= len, n == len * w, w > 0;
            }
            let ghost old_elems = elems@;
            elems.push(e);
            proof {
                assert(elems@.drop_last() =~= old_elems);
                assert(elems@.last() == e);
                assert(flat_ids(elems@) == flat_ids(old_elems) + e.id_seq());
                assert(flat_ids(old_elems) == all.subrange(0, (m * w) as int));
                assert(flat_ids(elems@) =~= all.subrange(0, ((m + 1) * w) as int));
            }
        }
        proof {
            assert(all.subrange(0, (len * w) as int) =~= all);
            assert forall|j: int| 0 <= j < len implies (#[trigger] elems@[j]).ty() == ty && elems@[j].id_seq()
                == all.subrange(j * w, (j + 1) * w) by {
                assert(elems@[j] == rv[len - 1 - j]);
                assert(len - 1 - (len - 1 - j) == j);
                assert(len - (len - 1 - j) == j + 1);
            }
        }
        Some(ArrayRepr { ty, elems })
    }

    /// Returns the element type.
    pub fn elem_type(&self) -> (r: PrimitiveType)
        ensures
            r == self.ty(),
    {
        self.ty
    }

    /// Returns the number of elements.
    pub fn len(&self) -> (r: usize)
        ensures
            r == self.elem_seq().len(),
    {
        self.elems.len()
    }

    /// Returns `true` if the array is empty.
    pub fn is_empty(&self) -> (r: bool)
        ensures
            r == (self.elem_seq().len() == 0),
    {
        self.elems.len() == 0
    }

    /// Returns the elements as a slice.
    pub fn as_slice(&self) -> (r: &[PrimitiveRepr<Id>])
        ensures
            r@ == self.elem_seq(),
    {
        self.elems.as_slice()
    }
}

/// The primitive made of bits has the type it was made for.
proof fn lemma_primitive_of_bits_ty(ty: PrimitiveType, bits: Seq<bool>)
    ensures
        primitive_of_bits(ty, bits).ty() == ty,
{
}

impl<Id, M: Memory<bool, Id = Id>> Repr<bool, M> for ArrayRepr<Id> {
    type Value = Array;

    open spec fn ids(&self) -> Seq<Id> {
        flat_ids(self.elem_seq())
    }

    open spec fn holds(&self, mem: &M, value: Array) -> bool {
        self.holds_array(mem, value)
    }

    open spec fn fits(&self, value: Array) -> bool {
        value.ty() == self.ty() && value.elems().len() == self.elem_seq().len()
    }

    open spec fn writable(&self, value: Array) -> bool {
        value.ty() == self.ty() || value.elems().len() == 0 || self.elem_seq().len() == 0
    }

    fn get(&self, mem: &M) -> (r: Option<Array>) {
        proof {
            use_type_invariant(self);
            lemma_flat_present(mem, self.elems@);
        }
        let mut vals: Vec<Primitive> = Vec::new();
        let mut k: usize = 0;
        while k < self.elems.len()
            invariant
                k <= self.elems@.len(),
                vals@.len() == k,
                forall|j: int| 0 <= j < self.elems@.len() ==> (#[trigger] self.elems@[j]).ty() == self.ty,
                forall|j: int| 0 <= j < k ==> all_present(mem, (#[trigger] self.elems@[j]).id_seq()),
                forall|j: int| 0 <= j < k ==> (#[trigger] self.elems@[j]).holds_value(mem, vals@[j]),
                forall|j: int| 0 <= j < k ==> (#[trigger] vals@[j]).ty() == self.ty,
            decreases self.elems.len() - k,
        {
            match self.elems[k].get(mem) {
                Some(p) => {
                    proof {
                        lemma_primitive_of_bits_ty(self.ty, bits_at(mem, self.elems@[k as int].id_seq()));
                    }
                    vals.push(p);
                },
                None => {
                    proof {
                        assert(!all_present(mem, self.elems@[k as int].id_seq()));
                        lemma_flat_present(mem, self.elems@);
                    }
                    return None;
                },
            }
            k = k + 1;
        }
        let ghost vs = vals@;
        match Array::new_with_type(self.ty, vals) {
            Ok(a) => {
                proof {
                    assert(a.elems() == vs);
                }
                Some(a)
            },
            Err(_) => None,
        }
    }

    fn set(&self, mem: &mut M, value: Array)
        where
            M: MemoryMut<bool>,
        ensures
            distinct(flat_ids(self.elem_seq())) ==> forall|j: int|
                0 <= j < self.elem_seq().len() && 0 <= j < value.elems().len() ==> (
                #[trigger] self.elem_seq()[j]).holds_value(final(mem), value.elems()[j]),
    {
        proof {
            use_type_invariant(self);
        }
        let vals = value.as_slice();
        let n = if self.elems.len() < vals.len() { self.elems.len() } else { vals.len() };
        let ghost start = *mem;
        let ghost flat = flat_ids(self.elems@);
        proof {
            if distinct(flat) {
                lemma_flat_distinct(self.elems@);
            }
        }
        let mut k: usize = 0;
        while k < n
            invariant
                k <= n,
                n <= self.elems@.len(),
                n <= vals@.len(),
                vals@ == value.elems(),
                all_of_type(vals@, value.ty()),
                n > 0 ==> value.ty() == self.ty,
                flat == flat_ids(self.elems@),
                forall|j: int| 0 <= j < self.elems@.len() ==> (#[trigger] self.elems@[j]).ty() == self.ty,
                all_present(mem, flat),
                unchanged_outside(&start, mem, flat),
                distinct(flat) ==> forall|j: int| 0 <= j < self.elems@.len() ==> distinct(#[trigger] self.elems@[j].id_seq()),
                distinct(flat) ==> forall|k1: int, k2: int, id: Id|
                    0 <= k1 < self.elems@.len() && 0 <= k2 < self.elems@.len() && k1 != k2 && #[trigger] self.elems@[k1].id_seq().contains(id)
                        ==> !#[trigger] self.elems@[k2].id_seq().contains(id),
                distinct(flat) ==> forall|j: int| 0 <= j < k ==> (#[trigger] self.elems@[j]).holds_value(mem, vals@[j]),
            decreases n - k,
        {
            let p = vals[k];
            let ghost before = *mem;
            let ghost e = self.elems@[k as int];
            proof {
                lemma_flat_present(&before, self.elems@);
                assert(all_present(&before, e.id_seq()));
                assert(p.ty() == value.ty());
            }
            self.elems[k].set(mem, p);
            proof {
                assert forall|i: int| 0 <= i < flat.len() implies (#[trigger] mem.slot(flat[i])) is Some by {
                    if !e.id_seq().contains(flat[i]) {
                        assert(mem.slot(flat[i]) == before.slot(flat[i]));
                    } else {
                        let j = choose|j: int| 0 <= j < e.id_seq().len() && e.id_seq()[j] == flat[i];
                        assert(all_present(mem, e.id_seq()));
                        assert(mem.slot(e.id_seq()[j]) is Some);
                    }
                }
                assert forall|id: Id| !flat.contains(id) implies #[trigger] mem.slot(id) == start.slot(id) by {
                    if e.id_seq().contains(id) {
                        lemma_flat_contains(self.elems@, k as int, id);
                    }
                }
                if distinct(flat) {
                    assert forall|j: int| 0 <= j < k + 1 implies (#[trigger] self.elems@[j]).holds_value(mem, vals@[j]) by {
                        if j < k {
                            let ej = self.elems@[j];
                            assert forall|i: int| 0 <= i < ej.id_seq().len() implies mem.slot(#[trigger] ej.id_seq()[i]) == before.slot(ej.id_seq()[i]) by {
                                assert(ej.id_seq().contains(ej.id_seq()[i]));
                                assert(!e.id_seq().contains(ej.id_seq()[i]));
                            }
                            lemma_holds_frame(ej, &before, mem, vals@[j]);
                        }
                    }
                }
            }
            k = k + 1;
        }
    }

    fn allocate(mem: &mut M, value: Array) -> (r: Self) {
        let ty = value.elem_type();
        let vals = value.as_slice();
        let ghost start = *mem;
        let mut elems: Vec<PrimitiveRepr<Id>> = Vec::new();
        let mut k: usize = 0;
        while k < vals.len()
            invariant
                k <= vals@.len(),
                vals@ == value.elems(),
                ty == value.ty(),
                all_of_type(vals@, ty),
                elems@.len() == k,
                forall|j: int| 0 <= j < k ==> (#[trigger] elems@[j]).ty() == ty,
                forall|j: int| 0 <= j < k ==> (#[trigger] elems@[j]).holds_value(mem, vals@[j]),
                all_fresh(&start, flat_ids(elems@)),
                distinct(flat_ids(elems@)),
                all_present(mem, flat_ids(elems@)),
                unchanged_outside(&start, mem, flat_ids(elems@)),
            decreases vals.len() - k,
        {
            let ghost before = *mem;
            let ghost old_elems = elems@;
            let ghost flat = flat_ids(old_elems);
            let r = PrimitiveRepr::allocate(mem, vals[k]);
            let ghost rid = r.id_seq();
            proof {
                assert(Repr::<bool, M>::ids(&r) == rid);
                // The new ids held nothing, while the old ones held something.
                assert forall|id: Id| flat.contains(id) implies !rid.contains(id) by {
                    if rid.contains(id) {
                        let i = choose|i: int| 0 <= i < flat.len() && flat[i] == id;
                        let j = choose|j: int| 0 <= j < rid.len() && rid[j] == id;
                        assert(before.slot(flat[i]) is Some);
                        assert(before.slot(rid[j]) is None);
                    }
                }
                lemma_distinct_concat(flat, rid);
            }
            elems.push(r);
            proof {
                let nf = flat_ids(elems@);
                assert(elems@.drop_last() =~= old_elems);
                assert(nf == flat + rid);
                assert forall|i: int| 0 <= i < nf.len() implies (#[trigger] start.slot(nf[i])) is None by {
                    if i < flat.len() {
                        assert(nf[i] == flat[i]);
                    } else {
                        let j = i - flat.len();
                        assert(nf[i] == rid[j]);
                        assert(!flat.contains(rid[j]));
                        assert(before.slot(rid[j]) is None);
                    }
                }
                assert forall|i: int| 0 <= i < nf.len() implies (#[trigger] mem.slot(nf[i])) is Some by {
                    if i < flat.len() {
                        assert(nf[i] == flat[i]);
                        assert(flat.contains(flat[i]));
                        assert(!rid.contains(flat[i]));
                        assert(before.slot(flat[i]) is Some);
                    } else {
                        assert(nf[i] == rid[i - flat.len()]);
                    }
                }
                assert forall|id: Id| !nf.contains(id) implies #[trigger] mem.slot(id) == start.slot(id) by {
                    if flat.contains(id) {
                        let i = choose|i: int| 0 <= i < flat.len() && flat[i] == id;
                        assert(nf[i] == id);
                    }
                    if rid.contains(id) {
                        let j = choose|j: int| 0 <= j < rid.len() && rid[j] == id;
                        assert(nf[flat.len() + j] == id);
                    }
                }
                assert forall|j: int| 0 <= j < k + 1 implies (#[trigger] elems@[j]).holds_value(mem, vals@[j]) by {
                    if j < k {
                        let ej = elems@[j];
                        assert(ej == old_elems[j]);
                        assert forall|i: int| 0 <= i < ej.id_seq().len() implies mem.slot(#[trigger] ej.id_seq()[i]) == before.slot(ej.id_seq()[i]) by {
                            lemma_flat_contains(old_elems, j, ej.id_seq()[i]);
                            assert(ej.id_seq().contains(ej.id_seq()[i]));
                            assert(!rid.contains(ej.id_seq()[i]));
                        }
                        lemma_holds_frame(ej, &before, mem, vals@[j]);
                    }
                }
            }
            k = k + 1;
        }
        ArrayRepr { ty, elems }
    }
}

impl<Id> ArrayRepr<Id> {
    /// Reverses the order of the elements.
    pub fn reverse(&mut self)
        ensures
            final(self).ty() == old(self).ty(),
            final(self).elem_seq() == old(self).elem_seq().reverse(),
    {
        proof {
            use_type_invariant(&*self);
        }
        let ty = self.ty;
        let mut elems: Vec<PrimitiveRepr<Id>> = Vec::new();
        std::mem::swap(&mut elems, &mut self.elems);
        let ghost orig = elems@;
        let mut r: Vec<PrimitiveRepr<Id>> = Vec::new();
        while elems.len() > 0
            invariant
                elems@ == orig.subrange(0, elems@.len() as int),
                r@.len() + elems@.len() == orig.len(),
                forall|i: int| 0 <= i < r@.len() ==> r@[i] == orig[orig.len() - 1 - i],
                forall|i: int| 0 <= i < orig.len() ==> (#[trigger] orig[i]).ty() == ty,
            decreases elems.len(),
        {
            let x = elems.pop().unwrap();
            r.push(x);
        }
        assert(r@ =~= orig.reverse());
        *self = ArrayRepr { ty, elems: r };
    }

    /// Converts the representation into its elements, checking that there are
    /// `len` of them, of type `ty`.
    pub fn try_into_elems(self, ty: PrimitiveType, len: usize) -> (r: Result<Vec<PrimitiveRepr<Id>>, ArrayConvertError>)
        ensures
            r is Ok <==> (self.elem_seq().len() == len && self.ty() == ty),
            r matches Ok(elems) ==> elems@ == self.elem_seq(),
    {
        if self.elems.len() != len {
            return Err(ArrayConvertError);
        }
        if self.ty != ty {
            return Err(ArrayConvertError);
        }
        Ok(self.elems)
    }
}

/// Failed to convert an array representation to another representation.
#[derive(Debug, Clone, Copy, PartialEq, Eq, Structural)]
pub struct ArrayConvertError;

impl ArrayConvertError {
    /// Returns the description of the error.
    pub fn message(&self) -> (s: &'static str)
        ensures
            s@ == "failed to convert array repr to another representation"@,
    {
        "failed to convert array repr to another representation"
    }
}

/// A value representation.
#[derive(Debug)]
pub enum ValueRepr<Id> {
    /// A primitive value.
    Primitive(PrimitiveRepr<Id>),
    /// An array value.
    Array(ArrayRepr<Id>),
}

impl<Id> ValueRepr<Id> {
    /// The type of the value represented.
    pub open spec fn ty(&self) -> ValueType {
        match self {
            ValueRepr::Primitive(p) => ValueType::Primitive(p.ty()),
            ValueRepr::Array(a) => ValueType::Array { ty: a.ty(), len: a.elem_seq().len() as usize },
        }
    }

    /// Tries to create a representation of a value of type `ty` from memory
    /// ids, returning `None` if the number of ids does not match the type.
    pub fn try_from_ids(ty: ValueType, ids: Vec<Id>) -> (r: Option<Self>)
        ensures
            match ty {
                ValueType::Primitive(p) => (r is Some <==> ids@.len() == p.width()),
                ValueType::Array { ty: p, len } => (r is Some <==> ids@.len() == len * p.width()),
            },
            r matches Some(repr) ==> repr.ty() == ty,
            r matches Some(repr) ==> repr.value_ids() == ids@,
            r matches Some(repr) ==> match (ty, repr) {
                (ValueType::Array { ty: p, len }, ValueRepr::Array(a)) => forall|j: int|
                    0 <= j < len ==> (#[trigger] a.elem_seq()[j]).id_seq() == ids@.subrange(
                        j * p.width(),
                        (j + 1) * p.width(),
                    ),
                _ => true,
            },
    {
        match ty {
            ValueType::Primitive(p) => match PrimitiveRepr::try_from_ids(p, ids) {
                Some(repr) => Some(ValueRepr::Primitive(repr)),
                None => None,
            },
            ValueType::Array { ty: p, len } => match ArrayRepr::try_from_ids(p, len, ids) {
                Some(repr) => Some(ValueRepr::Array(repr)),
                None => None,
            },
        }
    }

    /// The memory ids of the value's bits, element after element.
    pub open spec fn value_ids(&self) -> Seq<Id> {
        match self {
            ValueRepr::Primitive(p) => p.id_seq(),
            ValueRepr::Array(a) => flat_ids(a.elem_seq()),
        }
    }

    /// Returns the memory ids of the value's bits, element after element.
    pub fn ids_vec(&self) -> (r: Vec<Id>)
        where
            Id: Copy,
        ensures
            r@ == self.value_ids(),
    {
        match self {
            ValueRepr::Primitive(p) => copy_ids(p.ids()),
            ValueRepr::Array(a) => {
                let elems = a.as_slice();
                let mut out: Vec<Id> = Vec::new();
                let mut k: usize = 0;
                while k < elems.len()
                    invariant
                        k <= elems@.len(),
                        elems@ == a.elem_seq(),
                        out@ == flat_ids(elems@.subrange(0, k as int)),
                    decreases elems.len() - k,
                {
                    let ids = copy_ids(elems[k].ids());
                    let ghost before = out@;
                    let mut ids = ids;
                    out.append(&mut ids);
                    proof {
                        let s = elems@.subrange(0, k + 1);
                        assert(s.drop_last() =~= elems@.subrange(0, k as int));
                        assert(s.last() == elems@[k as int]);
                    }
                    k = k + 1;
                }
                proof {
                    assert(elems@.subrange(0, k as int) =~= elems@);
                }
                out
            },
        }
    }

    /// Returns the value type.
    pub fn value_type(&self) -> (r: ValueType)
        ensures
            r == self.ty(),
            self matches ValueRepr::Array(a) ==> a.elem_seq().len() <= usize::MAX,
    {
        match self {
            ValueRepr::Primitive(p) => ValueType::Primitive(p.primitive_type()),
            ValueRepr::Array(a) => ValueType::Array { ty: a.elem_type(), len: a.len() },
        }
    }

    /// Returns `true` if the representation is a primitive value.
    pub fn is_primitive(&self) -> (r: bool)
        ensures
            r == (self is Primitive),
    {
        match self {
            ValueRepr::Primitive(_) => true,
            ValueRepr::Array(_) => false,
        }
    }

    /// Returns `true` if the representation is an array value.
    pub fn is_array(&self) -> (r: bool)
        ensures
            r == (self is Array),
    {
        match self {
            ValueRepr::Primitive(_) => false,
            ValueRepr::Array(_) => true,
        }
    }
}

impl<Id, M: Memory<bool, Id = Id>> Repr<bool, M> for ValueRepr<Id> {
    type Value = Value;

    open spec fn ids(&self) -> Seq<Id> {
        match self {
            ValueRepr::Primitive(p) => Repr::<bool, M>::ids(p),
            ValueRepr::Array(a) => Repr::<bool, M>::ids(a),
        }
    }

    open spec fn holds(&self, mem: &M, value: Value) -> bool {
        match (self, value) {
            (ValueRepr::Primitive(r), Value::Primitive(p)) => r.holds_value(mem, p),
            (ValueRepr::Array(r), Value::Array(a)) => r.holds_array(mem, a),
            _ => false,
        }
    }

    open spec fn fits(&self, value: Value) -> bool {
        match (self, value) {
            (ValueRepr::Primitive(r), Value::Primitive(p)) => Repr::<bool, M>::fits(r, p),
            (ValueRepr::Array(r), Value::Array(a)) => Repr::<bool, M>::fits(r, a),
            _ => false,
        }
    }

    open spec fn writable(&self, value: Value) -> bool {
        match (self, value) {
            (ValueRepr::Primitive(r), Value::Primitive(p)) => Repr::<bool, M>::writable(r, p),
            (ValueRepr::Array(r), Value::Array(a)) => Repr::<bool, M>::writable(r, a),
            _ => false,
        }
    }

    fn get(&self, mem: &M) -> (r: Option<Value>) {
        match self {
            ValueRepr::Primitive(repr) => match repr.get(mem) {
                Some(p) => Some(Value::Primitive(p)),
                None => None,
            },
            ValueRepr::Array(repr) => match repr.get(mem) {
                Some(a) => Some(Value::Array(a)),
                None => None,
            },
        }
    }

    fn set(&self, mem: &mut M, value: Value)
        where
            M: MemoryMut<bool>,
    {
        match (self, value) {
            (ValueRepr::Primitive(repr), Value::Primitive(p)) => repr.set(mem, p),
            (ValueRepr::Array(repr), Value::Array(a)) => repr.set(mem, a),
            _ => {},
        }
    }

    fn allocate(mem: &mut M, value: Value) -> (r: Self) {
        match value {
            Value::Primitive(p) => ValueRepr::Primitive(PrimitiveRepr::allocate(mem, p)),
            Value::Array(a) => ValueRepr::Array(ArrayRepr::allocate(mem, a)),
        }
    }
}

/// Two values with the same type and contents: primitives equal, arrays of
/// one element type with the same elements.
pub open spec fn same_value(v: Value, w: Value) -> bool {
    match (v, w) {
        (Value::Primitive(p), Value::Primitive(q)) => p == q,
        (Value::Array(a), Value::Array(b)) => a.ty() == b.ty() && a.elems() == b.elems(),
        _ => false,
    }
}

/// A memory holds one value at a representation: what `get` reads back is
/// what `set` wrote or `allocate` stored there.
pub proof fn lemma_holds_unique<Id, M: Memory<bool, Id = Id>>(repr: ValueRepr<Id>, mem: &M, v: Value, w: Value)
    requires
        Repr::<bool, M>::holds(&repr, mem, v),
        Repr::<bool, M>::holds(&repr, mem, w),
    ensures
        same_value(v, w),
{
    match (repr, v, w) {
        (ValueRepr::Array(r), Value::Array(a), Value::Array(b)) => {
            assert forall|k: int| 0 <= k < a.elems().len() implies a.elems()[k] == b.elems()[k] by {
                assert(r.elem_seq()[k].holds_value(mem, a.elems()[k]));
                assert(r.elem_seq()[k].holds_value(mem, b.elems()[k]));
            }
            assert(a.elems() =~= b.elems());
        },
        _ => {},
    }
}

/// Memories that hold one value at a representation hold the same bits under
/// its ids.
pub proof fn lemma_holds_same_bits<Id, M: Memory<bool, Id = Id>>(repr: ValueRepr<Id>, m1: &M, m2: &M, v: Value)
    requires
        Repr::<bool, M>::holds(&repr, m1, v),
        Repr::<bool, M>::holds(&repr, m2, v),
    ensures
        forall|id: Id| #[trigger] repr.value_ids().contains(id) ==> m1.slot(id) == m2.slot(id),
{
    match (repr, v) {
        (ValueRepr::Primitive(r), Value::Primitive(p)) => {
            lemma_primitive_same_bits(r, m1, m2, p);
        },
        (ValueRepr::Array(r), Value::Array(a)) => {
            assert forall|id: Id| #[trigger] repr.value_ids().contains(id) implies m1.slot(id) == m2.slot(id) by {
                let k = lemma_flat_member(r.elem_seq(), id);
                lemma_primitive_same_bits(r.elem_seq()[k], m1, m2, a.elems()[k]);
            }
        },
        _ => {},
    }
}

/// Memories that hold one primitive at a representation hold the same bits
/// under its ids.
proof fn lemma_primitive_same_bits<Id, M: Memory<bool, Id = Id>>(repr: PrimitiveRepr<Id>, m1: &M, m2: &M, p: Primitive)
    requires
        repr.holds_value(m1, p),
        repr.holds_value(m2, p),
    ensures
        forall|id: Id| #[trigger] repr.id_seq().contains(id) ==> m1.slot(id) == m2.slot(id),
{
    let ids = repr.id_seq();
    lemma_primitive_of_bits_injective(repr.ty(), bits_at(m1, ids), bits_at(m2, ids));
    assert forall|id: Id| #[trigger] ids.contains(id) implies m1.slot(id) == m2.slot(id) by {
        let i = choose|i: int| 0 <= i < ids.len() && ids[i] == id;
        assert(bits_at(m1, ids)[i] == bits_at(m2, ids)[i]);
        assert(m1.slot(ids[i]) is Some && m2.slot(ids[i]) is Some);
    }
}

/// A memory that keeps the slots of a representation's ids holds there what
/// it held before.
pub proof fn lemma_value_holds_frame<Id, M: Memory<bool, Id = Id>>(repr: ValueRepr<Id>, m1: &M, m2: &M, v: Value)
    requires
        Repr::<bool, M>::holds(&repr, m1, v),
        forall|id: Id| #[trigger] repr.value_ids().contains(id) ==> m2.slot(id) == m1.slot(id),
    ensures
        Repr::<bool, M>::holds(&repr, m2, v),
{
    match (repr, v) {
        (ValueRepr::Primitive(r), Value::Primitive(p)) => {
            assert forall|i: int| 0 <= i < r.id_seq().len() implies m2.slot(#[trigger] r.id_seq()[i]) == m1.slot(r.id_seq()[i]) by {
                assert(repr.value_ids().contains(r.id_seq()[i]));
            }
            lemma_holds_frame(r, m1, m2, p);
        },
        (ValueRepr::Array(r), Value::Array(a)) => {
            assert forall|k: int| 0 <= k < r.elem_seq().len() implies (#[trigger] r.elem_seq()[k]).holds_value(m2, a.elems()[k]) by {
                let e = r.elem_seq()[k];
                assert forall|i: int| 0 <= i < e.id_seq().len() implies m2.slot(#[trigger] e.id_seq()[i]) == m1.slot(e.id_seq()[i]) by {
                    assert(e.id_seq().contains(e.id_seq()[i]));
                    lemma_flat_contains(r.elem_seq(), k, e.id_seq()[i]);
                    assert(repr.value_ids() == flat_ids(r.elem_seq()));
                    assert(repr.value_ids().contains(e.id_seq()[i]));
                }
                lemma_holds_frame(e, m1, m2, a.elems()[k]);
            }
        },
        _ => {},
    }
}

/// Elements without repeated ids and without common ids make a whole without
/// repeated ids.
proof fn lemma_flat_distinct_converse<Id>(elems: Seq<PrimitiveRepr<Id>>)
    requires
        forall|k: int| 0 <= k < elems.len() ==> distinct(#[trigger] elems[k].id_seq()),
        forall|k1: int, k2: int, id: Id|
            0 <= k1 < elems.len() && 0 <= k2 < elems.len() && k1 != k2 && #[trigger] elems[k1].id_seq().contains(id)
                ==> !#[trigger] elems[k2].id_seq().contains(id),
    ensures
        distinct(flat_ids(elems)),
    decreases elems.len(),
{
    if elems.len() > 0 {
        let rest = elems.drop_last();
        let n = elems.len() - 1;
        assert forall|k: int| 0 <= k < rest.len() implies distinct(#[trigger] rest[k].id_seq()) by {
            assert(rest[k] == elems[k]);
        }
        assert forall|k1: int, k2: int, id: Id|
            0 <= k1 < rest.len() && 0 <= k2 < rest.len() && k1 != k2 && #[trigger] rest[k1].id_seq().contains(id)
                implies !#[trigger] rest[k2].id_seq().contains(id) by {
            assert(rest[k1] == elems[k1] && rest[k2] == elems[k2]);
        }
        lemma_flat_distinct_converse(rest);
        assert(distinct(elems[n].id_seq()));
        assert forall|id: Id| flat_ids(rest).contains(id) implies !elems.last().id_seq().contains(id) by {
            let k = lemma_flat_member(rest, id);
            assert(rest[k] == elems[k]);
            assert(elems[k].id_seq().contains(id));
        }
        lemma_distinct_concat(flat_ids(rest), elems.last().id_seq());
    }
}

/// Reversing the elements of an array representation keeps its ids, and
/// keeps them free of repeats.
pub proof fn lemma_reverse_ids<Id>(elems: Seq<PrimitiveRepr<Id>>)
    ensures
        forall|id: Id| #[trigger] flat_ids(elems.reverse()).contains(id) <==> flat_ids(elems).contains(id),
        distinct(flat_ids(elems)) ==> distinct(flat_ids(elems.reverse())),
{
    let r = elems.reverse();
    assert forall|id: Id| #[trigger] flat_ids(r).contains(id) <==> flat_ids(elems).contains(id) by {
        if flat_ids(r).contains(id) {
            let k = lemma_flat_member(r, id);
            assert(r[k] == elems[elems.len() - 1 - k]);
            lemma_flat_contains(elems, elems.len() - 1 - k, id);
        }
        if flat_ids(elems).contains(id) {
            let k = lemma_flat_member(elems, id);
            assert(r[elems.len() - 1 - k] == elems[k]);
            lemma_flat_contains(r, elems.len() - 1 - k, id);
        }
    }
    if distinct(flat_ids(elems)) {
        lemma_flat_distinct(elems);
        assert forall|k: int| 0 <= k < r.len() implies distinct(#[trigger] r[k].id_seq()) by {
            assert(r[k] == elems[elems.len() - 1 - k]);
        }
        assert forall|k1: int, k2: int, id: Id|
            0 <= k1 < r.len() && 0 <= k2 < r.len() && k1 != k2 && #[trigger] r[k1].id_seq().contains(id)
                implies !#[trigger] r[k2].id_seq().contains(id) by {
            assert(r[k1] == elems[elems.len() - 1 - k1]);
            assert(r[k2] == elems[elems.len() - 1 - k2]);
        }
        lemma_flat_distinct_converse(r);
    }
}

} // verus!
