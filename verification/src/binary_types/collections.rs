//! Arrays of primitive values of one type.

use rand::rngs::StdRng;
use vstd::prelude::*;

use crate::binary_types::{BitLength, Primitive, PrimitiveType, StaticPrimitiveType, ValueType};
use crate::bits::{is_lsb0_of, is_msb0_of};

verus! {

/// What went wrong when building an [`Array`].
#[derive(Debug, Clone, Copy, PartialEq, Eq, Structural)]
pub enum ErrorKind {
    /// Elements have different types.
    InconsistentType,
    /// There was no element to take the type from.
    UnknownType,
}

impl ErrorKind {
    /// Returns the message that describes the error.
    pub fn message(&self) -> (s: &'static str)
        ensures
            s@ == self.message_spec(),
    {
        match self {
            ErrorKind::InconsistentType => "elements have inconsistent types",
            ErrorKind::UnknownType => "could not determine the type of elements",
        }
    }

    /// The message that describes the error.
    pub open spec fn message_spec(self) -> Seq<char> {
        match self {
            ErrorKind::InconsistentType => "elements have inconsistent types"@,
            ErrorKind::UnknownType => "could not determine the type of elements"@,
        }
    }
}

/// An error for [`Array`].
#[derive(Debug)]
pub struct ArrayError {
    kind: ErrorKind,
}

impl ArrayError {
    /// The kind of the error.
    pub closed spec fn kind_spec(self) -> ErrorKind {
        self.kind
    }

    /// Returns the kind of the error.
    pub fn kind(&self) -> (k: ErrorKind)
        ensures
            k == self.kind_spec(),
    {
        self.kind
    }
}

/// An array of primitives which all have the element type.
#[derive(Debug, PartialEq, Eq, Hash)]
pub struct Array {
    /// Type of elements.
    ty: PrimitiveType,
    /// Elements.
    elems: Vec<Primitive>,
}

/// Every element of `elems` has type `ty`.
pub open spec fn all_of_type(elems: Seq<Primitive>, ty: PrimitiveType) -> bool {
    forall|i: int| 0 <= i < elems.len() ==> (#[trigger] elems[i]).ty() == ty
}

impl Array {
    /// The element type.
    pub closed spec fn ty(self) -> PrimitiveType {
        self.ty
    }

    /// The elements.
    pub closed spec fn elems(self) -> Seq<Primitive> {
        self.elems@
    }

    #[verifier::type_invariant]
    spec fn inv(self) -> bool {
        all_of_type(self.elems@, self.ty)
    }

    /// `bits` holds the bits of every element of `elems`, element after element,
    /// each in `w` bits; within an element most significant first if `msb`,
    /// least significant first otherwise.
    pub open spec fn flat_bits_ok(elems: Seq<Primitive>, w: nat, bits: Seq<bool>, msb: bool) -> bool {
        &&& bits.len() == elems.len() * w
        &&& forall|k: int|
            0 <= k < elems.len() ==> {
                let chunk = #[trigger] bits.subrange(k * w, (k + 1) * w);
                if msb {
                    is_msb0_of(chunk, elems[k].as_int(), w)
                } else {
                    is_lsb0_of(chunk, elems[k].as_int(), w)
                }
            }
    }

    /// Creates a new array.
    pub fn new<T: StaticPrimitiveType>(elems: Vec<T>) -> (r: Self)
        ensures
            r.ty() == T::type_spec(),
            r.elems() == elems@.map_values(|e: T| e.to_primitive()),
    {
        let mut elems = elems;
        let ghost orig = elems@;
        let mut rev: Vec<Primitive> = Vec::new();
        while elems.len() > 0
            invariant
                elems@ == orig.subrange(0, elems@.len() as int),
                rev@.len() + elems@.len() == orig.len(),
                forall|i: int|
                    0 <= i < rev@.len() ==> rev@[i] == orig[orig.len() - 1 - i].to_primitive(),
                all_of_type(rev@, T::type_spec()),
            decreases elems.len(),
        {
            let e = elems.pop().unwrap();
            let p = e.into_primitive();
            rev.push(p);
        }
        let mut out: Vec<Primitive> = Vec::new();
        while rev.len() > 0
            invariant
                out@.len() + rev@.len() == orig.len(),
                forall|i: int|
                    0 <= i < rev@.len() ==> rev@[i] == orig[orig.len() - 1 - i].to_primitive(),
                forall|i: int| 0 <= i < out@.len() ==> out@[i] == orig[i].to_primitive(),
                all_of_type(rev@, T::type_spec()),
                all_of_type(out@, T::type_spec()),
            decreases rev.len(),
        {
            let p = rev.pop().unwrap();
            out.push(p);
        }
        assert(out@ =~= orig.map_values(|e: T| e.to_primitive()));
        Self { ty: T::static_type(), elems: out }
    }

    /// Creates a new array with a specific type.
    pub fn new_with_type(ty: PrimitiveType, elems: Vec<Primitive>) -> (r: Result<Self, ArrayError>)
        ensures
            all_of_type(elems@, ty) ==> (r matches Ok(a) && a.ty() == ty && a.elems() == elems@),
            !all_of_type(elems@, ty) ==> (r matches Err(e) && e.kind_spec()
                == ErrorKind::InconsistentType),
    {
        if all_have_type(&elems, ty) {
            Ok(Self { ty, elems })
        } else {
            Err(ArrayError { kind: ErrorKind::InconsistentType })
        }
    }

    /// The result of building an array from `elems`, taking the element type
    /// from the first element.
    pub closed spec fn from_vec_spec(elems: Vec<Primitive>) -> Result<Array, ArrayError> {
        if elems@.len() == 0 {
            Err(ArrayError { kind: ErrorKind::UnknownType })
        } else if all_of_type(elems@, elems@[0].ty()) {
            Ok(Array { ty: elems@[0].ty(), elems })
        } else {
            Err(ArrayError { kind: ErrorKind::InconsistentType })
        }
    }

    /// Creates a new array from a vector of elements, taking the element type
    /// from the first element.
    pub fn try_from_vec(elems: Vec<Primitive>) -> (r: Result<Self, ArrayError>)
        ensures
            r == Array::from_vec_spec(elems),
            elems@.len() == 0 ==> (r matches Err(e) && e.kind_spec() == ErrorKind::UnknownType),
            elems@.len() > 0 && all_of_type(elems@, elems@[0].ty()) ==> (r matches Ok(a) && a.ty()
                == elems@[0].ty() && a.elems() == elems@),
            elems@.len() > 0 && !all_of_type(elems@, elems@[0].ty()) ==> (r matches Err(e)
                && e.kind_spec() == ErrorKind::InconsistentType),
    {
        if elems.len() == 0 {
            return Err(ArrayError { kind: ErrorKind::UnknownType });
        }
        let ty = elems[0].primitive_type();
        if all_have_type(&elems, ty) {
            Ok(Self { ty, elems })
        } else {
            Err(ArrayError { kind: ErrorKind::InconsistentType })
        }
    }

    /// Returns the length of the array.
    pub fn len(&self) -> (r: usize)
        ensures
            r == self.elems().len(),
    {
        self.elems.len()
    }

    /// Returns `true` if the array is empty.
    pub fn is_empty(&self) -> (r: bool)
        ensures
            r == (self.elems().len() == 0),
    {
        self.elems.len() == 0
    }

    /// Returns the type of elements.
    pub fn elem_type(&self) -> (r: PrimitiveType)
        ensures
            r == self.ty(),
    {
        self.ty
    }

    /// Returns the value type.
    pub fn value_type(&self) -> (r: ValueType)
        ensures
            r == (ValueType::Array { ty: self.ty(), len: self.elems().len() as usize }),
    {
        ValueType::Array { ty: self.ty, len: self.elems.len() }
    }

    /// Returns a reference to the element at the given index.
    pub fn get(&self, index: usize) -> (r: Option<&Primitive>)
        ensures
            index < self.elems().len() ==> r == Some(&self.elems()[index as int]),
            index >= self.elems().len() ==> r is None,
            r matches Some(p) ==> p.ty() == self.ty(),
    {
        proof {
            use_type_invariant(self);
        }
        if index < self.elems.len() {
            Some(&self.elems[index])
        } else {
            None
        }
    }

    /// Returns the elements as a slice.
    pub fn as_slice(&self) -> (r: &[Primitive])
        ensures
            r@ == self.elems(),
            all_of_type(r@, self.ty()),
    {
        proof {
            use_type_invariant(self);
        }
        self.elems.as_slice()
    }

    /// Returns an iterator over the elements.
    pub fn iter(&self) -> (r: std::slice::Iter<'_, Primitive>)
        ensures
            vstd::std_specs::iter::IteratorSpec::remaining(&r) == self.elems().as_ref(),
    {
        broadcast use vstd::std_specs::slice::axiom_spec_slice_iter;
        self.elems.iter()
    }

    /// The vector of elements the array holds.
    pub closed spec fn elems_vec(self) -> Vec<Primitive> {
        self.elems
    }

    /// Returns the elements, consuming the array.
    pub fn into_vec(self) -> (r: Vec<Primitive>)
        ensures
            r == self.elems_vec(),
            r@ == self.elems(),
            all_of_type(r@, self.ty()),
    {
        proof {
            use_type_invariant(&self);
        }
        self.elems
    }

    /// Converts the array into bits, element after element, each least
    /// significant bit first.
    pub fn into_lsb0_vec(self) -> (bits: Vec<bool>)
        requires
            self.bit_len() <= usize::MAX,
        ensures
            Array::flat_bits_ok(self.elems(), self.ty().width(), bits@, false),
    {
        self.into_bits(false)
    }

    /// Converts the array into bits, element after element, each most
    /// significant bit first.
    pub fn into_msb0_vec(self) -> (bits: Vec<bool>)
        requires
            self.bit_len() <= usize::MAX,
        ensures
            Array::flat_bits_ok(self.elems(), self.ty().width(), bits@, true),
    {
        self.into_bits(true)
    }

    fn into_bits(self, msb: bool) -> (bits: Vec<bool>)
        requires
            self.bit_len() <= usize::MAX,
        ensures
            Array::flat_bits_ok(self.elems(), self.ty().width(), bits@, msb),
    {
        proof {
            use_type_invariant(&self);
        }
        let ghost w = self.ty.width();
        let ghost es = self.elems@;
        let mut bits: Vec<bool> = Vec::new();
        let mut i: usize = 0;
        while i < self.elems.len()
            invariant
                0 <= i <= es.len(),
                es == self.elems@,
                w == self.ty.width(),
                all_of_type(es, self.ty),
                bits@.len() == i * w,
                forall|k: int|
                    0 <= k < i ==> {
                        let chunk = #[trigger] bits@.subrange(k * w, (k + 1) * w);
                        if msb {
                            is_msb0_of(chunk, es[k].as_int(), w)
                        } else {
                            is_lsb0_of(chunk, es[k].as_int(), w)
                        }
                    },
            decreases es.len() - i,
        {
            let e = self.elems[i];
            assert(e.ty() == self.ty);
            let mut chunk = if msb {
                e.into_msb0_vec()
            } else {
                e.into_lsb0_vec()
            };
            let ghost old_bits = bits@;
            let ghost c = chunk@;
            bits.append(&mut chunk);
            proof {
                assert(bits@ == old_bits + c);
                assert forall|k: int| 0 <= k < i + 1 implies {
                    let chunk = #[trigger] bits@.subrange(k * w, (k + 1) * w);
                    if msb {
                        is_msb0_of(chunk, es[k].as_int(), w)
                    } else {
                        is_lsb0_of(chunk, es[k].as_int(), w)
                    }
                } by {
                    if k < i {
                        assert((k + 1) * w <= i * w) by (nonlinear_arith)
                            requires k + 1 <= i;
                        assert(0 <= k * w) by (nonlinear_arith)
                            requires 0 <= k;
                        assert(bits@.subrange(k * w, (k + 1) * w) =~= old_bits.subrange(
                            k * w,
                            (k + 1) * w,
                        ));
                    } else {
                        assert(k * w == i * w);
                        assert((k + 1) * w == i * w + w) by (nonlinear_arith)
                            requires k == i;
                        assert(bits@.subrange(k * w, (k + 1) * w) =~= c);
                    }
                }
                assert((i + 1) * w == i * w + w) by (nonlinear_arith);
            }
            i = i + 1;
        }
        bits
    }
}

impl Clone for Array {
    fn clone(&self) -> (r: Self)
        ensures
            r.ty() == self.ty(),
            r.elems() == self.elems(),
    {
        proof {
            use_type_invariant(self);
        }
        let mut elems: Vec<Primitive> = Vec::new();
        let mut i: usize = 0;
        while i < self.elems.len()
            invariant
                0 <= i <= self.elems@.len(),
                elems@ == self.elems@.subrange(0, i as int),
            decreases self.elems@.len() - i,
        {
            elems.push(self.elems[i]);
            i = i + 1;
        }
        assert(elems@ =~= self.elems@);
        Array { ty: self.ty, elems }
    }
}

impl BitLength for Array {
    open spec fn bit_len(&self) -> int {
        (self.ty().width() * self.elems().len()) as int
    }

    fn bit_length(&self) -> (r: usize) {
        self.ty.bit_length() * self.elems.len()
    }
}

fn all_have_type(elems: &Vec<Primitive>, ty: PrimitiveType) -> (r: bool)
    ensures
        r == all_of_type(elems@, ty),
{
    let mut i: usize = 0;
    while i < elems.len()
        invariant
            0 <= i <= elems@.len(),
            all_of_type(elems@.subrange(0, i as int), ty),
        decreases elems@.len() - i,
    {
        if elems[i].primitive_type() != ty {
            assert(elems@[i as int].ty() != ty);
            return false;
        }
        assert(elems@.subrange(0, i + 1) =~= elems@.subrange(0, i as int).push(elems@[i as int]));
        i = i + 1;
    }
    assert(elems@.subrange(0, i as int) =~= elems@);
    true
}

impl Array {
    /// Creates a new array from the elements of a fixed-size array.
    pub fn from_array<T: StaticPrimitiveType + Copy, const N: usize>(elems: [T; N]) -> (r: Self)
        ensures
            r.ty() == T::type_spec(),
            r.elems() == elems@.map_values(|e: T| e.to_primitive()),
    {
        let mut v: Vec<T> = Vec::new();
        let mut i: usize = 0;
        while i < N
            invariant
                i <= N,
                elems@.len() == N,
                v@ == elems@.subrange(0, i as int),
            decreases N - i,
        {
            v.push(elems[i]);
            i = i + 1;
        }
        assert(v@ =~= elems@);
        Array::new(v)
    }
}

impl<T: StaticPrimitiveType + Copy, const N: usize> From<[T; N]> for Array {
    fn from(value: [T; N]) -> (r: Self)
        ensures
            r.ty() == T::type_spec(),
            r.elems() == value@.map_values(|e: T| e.to_primitive()),
    {
        Array::from_array(value)
    }
}

impl<T: StaticPrimitiveType + Copy, const N: usize> vstd::std_specs::convert::FromSpecImpl<[T; N]> for Array {
    open spec fn obeys_from_spec() -> bool {
        false
    }

    open spec fn from_spec(v: [T; N]) -> Array {
        vstd::pervasive::arbitrary()
    }
}

impl TryFrom<Vec<Primitive>> for Array {
    type Error = ArrayError;

    fn try_from(value: Vec<Primitive>) -> (r: Result<Array, ArrayError>) {
        Array::try_from_vec(value)
    }
}

impl vstd::std_specs::convert::TryFromSpecImpl<Vec<Primitive>> for Array {
    open spec fn obeys_try_from_spec() -> bool {
        true
    }

    open spec fn try_from_spec(value: Vec<Primitive>) -> Result<Array, ArrayError> {
        Array::from_vec_spec(value)
    }
}

impl From<Array> for Vec<Primitive> {
    fn from(value: Array) -> (r: Vec<Primitive>)
        ensures
            r@ == value.elems(),
    {
        value.into_vec()
    }
}

impl vstd::std_specs::convert::FromSpecImpl<Array> for Vec<Primitive> {
    open spec fn obeys_from_spec() -> bool {
        true
    }

    open spec fn from_spec(value: Array) -> Vec<Primitive> {
        value.elems_vec()
    }
}

impl Array {
    /// Creates an array of `len` random elements of type `ty`.
    pub fn random(ty: PrimitiveType, len: usize, rng: &mut StdRng) -> (r: Self)
        ensures
            r.ty() == ty,
            r.elems().len() == len,
    {
        let mut elems: Vec<Primitive> = Vec::new();
        let mut i: usize = 0;
        while i < len
            invariant
                i <= len,
                elems@.len() == i,
                all_of_type(elems@, ty),
            decreases len - i,
        {
            elems.push(ty.random(rng));
            i = i + 1;
        }
        Array { ty, elems }
    }
}

} // verus!
