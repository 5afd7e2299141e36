//! Arrays of primitives of one type.

use vstd::laws_eq::obeys_concrete_eq;
use vstd::prelude::*;

use crate::dynamic_types::primitive::binary::BinaryType;
use crate::dynamic_types::primitive::PrimitiveType;

verus! {

/// Array elements have inconsistent types.
#[derive(Debug, Clone, Copy, PartialEq, Eq, Structural)]
pub struct InconsistentType;

impl InconsistentType {
    /// Returns the description of the error.
    pub fn message(&self) -> (s: &'static str)
        ensures
            s@ == "elements have an inconsistent type"@,
    {
        "elements have an inconsistent type"
    }
}

/// An array type.
#[derive(Debug, Clone, Copy, PartialEq)]
pub struct ArrayType<P> {
    ty: Option<P>,
    len: usize,
}

impl<P> ArrayType<P> {
    /// The element type, or `None` for the type of empty arrays.
    pub closed spec fn elem_type(&self) -> Option<P> {
        self.ty
    }

    /// The length of the array.
    pub closed spec fn len_spec(&self) -> usize {
        self.len
    }

    /// Creates a new array type.
    pub fn new(ty: P, len: usize) -> (r: Self)
        ensures
            r.elem_type() == Some(ty),
            r.len_spec() == len,
    {
        ArrayType { ty: Some(ty), len }
    }

    /// Creates a new empty array type.
    pub fn new_empty() -> (r: Self)
        ensures
            r.elem_type() is None,
            r.len_spec() == 0,
    {
        ArrayType { ty: None, len: 0 }
    }

    /// Returns the length of the array.
    pub fn len(&self) -> (r: usize)
        ensures
            r == self.len_spec(),
    {
        self.len
    }
}

impl<P> Default for ArrayType<P> {
    /// The type of empty arrays, as `new_empty` gives.
    fn default() -> (r: Self)
        ensures
            r.elem_type() is None,
            r.len_spec() == 0,
    {
        ArrayType { ty: None, len: 0 }
    }
}

impl<P: Copy> ArrayType<P> {
    /// Returns the element type.
    pub fn primitive_type(&self) -> (r: Option<P>)
        ensures
            r == self.elem_type(),
    {
        self.ty
    }
}

/// All the elements have the same primitive type.
pub open spec fn consistent<P: PrimitiveType>(elems: Seq<P>) -> bool {
    forall|i: int, j: int|
        0 <= i < elems.len() && 0 <= j < elems.len() ==> #[trigger] elems[i].type_of()
            == #[trigger] elems[j].type_of()
}

/// Compares two primitive types.
fn same_type<P: PrimitiveType>(a: &P::Type, b: &P::Type) -> (r: bool)
    requires
        obeys_concrete_eq::<P::Type>(),
    ensures
        r == (*a == *b),
{
    proof {
        reveal(obeys_concrete_eq);
    }
    *a == *b
}

/// An array whose elements all have the same primitive type.
#[derive(Debug)]
pub struct Array<P> {
    elems: Vec<P>,
}

impl<P> Array<P> {
    /// The elements.
    pub closed spec fn elems(&self) -> Seq<P> {
        self.elems@
    }

    /// Returns the elements of the array.
    pub fn into_inner(self) -> (r: Vec<P>)
        ensures
            r@ == self.elems(),
    {
        self.elems
    }

    /// Returns the length of the array.
    pub fn len(&self) -> (r: usize)
        ensures
            r == self.elems().len(),
    {
        self.elems.len()
    }

    /// Returns `true` if the array is empty.
    pub fn is_empty(&self) -> (r: bool)
        ensures
            r == (self.elems().len() == 0),
    {
        self.elems.len() == 0
    }

    /// Returns the element at the given index, or `None` if the index is out of bounds.
    pub fn get(&self, index: usize) -> (r: Option<&P>)
        ensures
            index < self.elems().len() ==> r == Some(&self.elems()[index as int]),
            index >= self.elems().len() ==> r is None,
    {
        if index < self.elems.len() {
            Some(&self.elems[index])
        } else {
            None
        }
    }

    /// Returns the array as a slice.
    pub fn as_slice(&self) -> (r: &[P])
        ensures
            r@ == self.elems(),
    {
        self.elems.as_slice()
    }
}

impl<P> Default for Array<P> {
    fn default() -> (r: Self)
        ensures
            r.elems().len() == 0,
    {
        Array { elems: Vec::new() }
    }
}

impl<P: PrimitiveType> Array<P> {
    /// The elements all have one type.
    pub open spec fn wf(&self) -> bool {
        consistent(self.elems())
    }

    /// Creates a new array, failing if the elements have different types.
    pub fn new(elems: Vec<P>) -> (r: Result<Self, InconsistentType>)
        requires
            obeys_concrete_eq::<P::Type>(),
        ensures
            r is Ok <==> consistent(elems@),
            r matches Ok(a) ==> a.elems() == elems@ && a.wf(),
    {
        if elems.len() == 0 {
            return Ok(Array { elems });
        }
        let ty = elems[0].primitive_type();
        let mut i: usize = 1;
        while i < elems.len()
            invariant
                obeys_concrete_eq::<P::Type>(),
                1 <= i <= elems@.len(),
                ty == elems@[0].type_of(),
                forall|j: int| 0 <= j < i ==> (#[trigger] elems@[j]).type_of() == ty,
            decreases elems.len() - i,
        {
            let t = elems[i].primitive_type();
            if !same_type::<P>(&t, &ty) {
                proof {
                    assert(!(elems@[i as int].type_of() == elems@[0].type_of()));
                }
                return Err(InconsistentType);
            }
            i = i + 1;
        }
        Ok(Array { elems })
    }

    /// Returns the primitive type of the elements, or `None` if the array is empty.
    pub fn primitive_type(&self) -> (r: Option<P::Type>)
        ensures
            self.elems().len() == 0 ==> r is None,
            self.elems().len() > 0 ==> r == Some(self.elems()[0].type_of()),
    {
        if self.elems.len() == 0 {
            None
        } else {
            Some(self.elems[0].primitive_type())
        }
    }

    /// Returns the array type.
    pub fn array_type(&self) -> (r: ArrayType<P::Type>)
        ensures
            self.elems().len() == 0 ==> r.elem_type() is None && r.len_spec() == 0,
            self.elems().len() > 0 ==> r.elem_type() == Some(self.elems()[0].type_of())
                && r.len_spec() == self.elems().len(),
    {
        match self.primitive_type() {
            Some(ty) => ArrayType::new(ty, self.elems.len()),
            None => ArrayType::new_empty(),
        }
    }

    /// Reverses the array in place.
    pub fn reverse(&mut self)
        requires
            old(self).wf(),
        ensures
            final(self).elems() == old(self).elems().reverse(),
            final(self).wf(),
    {
        let mut elems: Vec<P> = Vec::new();
        std::mem::swap(&mut elems, &mut self.elems);
        let ghost orig = elems@;
        let mut r: Vec<P> = Vec::new();
        while elems.len() > 0
            invariant
                elems@ == orig.subrange(0, elems@.len() as int),
                r@.len() + elems@.len() == orig.len(),
                forall|i: int| 0 <= i < r@.len() ==> r@[i] == orig[orig.len() - 1 - i],
            decreases elems.len(),
        {
            let x = elems.pop().unwrap();
            r.push(x);
        }
        proof {
            assert(r@ =~= orig.reverse());
            assert forall|i: int, j: int|
                0 <= i < r@.len() && 0 <= j < r@.len() implies #[trigger] r@[i].type_of()
                == #[trigger] r@[j].type_of() by {
                assert(r@[i] == orig[orig.len() - 1 - i]);
                assert(r@[j] == orig[orig.len() - 1 - j]);
            }
        }
        self.elems = r;
    }

    /// Appends a value to the array. Returns an error, and leaves the array
    /// unchanged, if the value has a different type than the other elements.
    pub fn append(&mut self, value: P) -> (r: Result<(), InconsistentType>)
        requires
            old(self).wf(),
            obeys_concrete_eq::<P::Type>(),
        ensures
            final(self).wf(),
            r is Ok <==> (old(self).elems().len() == 0 || value.type_of() == old(
                self,
            ).elems()[0].type_of()),
            r is Ok ==> final(self).elems() == old(self).elems().push(value),
            r is Err ==> final(self).elems() == old(self).elems(),
    {
        match self.primitive_type() {
            Some(ty) => {
                let t = value.primitive_type();
                if same_type::<P>(&t, &ty) {
                    self.push_unchecked(value);
                    Ok(())
                } else {
                    Err(InconsistentType)
                }
            },
            None => {
                self.push_unchecked(value);
                Ok(())
            },
        }
    }

    /// Pushes a value of the elements' type.
    fn push_unchecked(&mut self, value: P)
        requires
            old(self).wf(),
            old(self).elems().len() == 0 || value.type_of() == old(self).elems()[0].type_of(),
        ensures
            final(self).wf(),
            final(self).elems() == old(self).elems().push(value),
    {
        let mut elems: Vec<P> = Vec::new();
        std::mem::swap(&mut elems, &mut self.elems);
        elems.push(value);
        proof {
            let s = elems@;
            assert forall|i: int, j: int|
                0 <= i < s.len() && 0 <= j < s.len() implies #[trigger] s[i].type_of()
                == #[trigger] s[j].type_of() by {
                if s.len() > 1 {
                    assert(s[i].type_of() == s[0].type_of());
                    assert(s[j].type_of() == s[0].type_of());
                }
            }
        }
        self.elems = elems;
    }

    /// Extends the array with the given values. Returns an error if a value
    /// has a different type than the elements before it; the values before
    /// that one have then been appended.
    pub fn extend(&mut self, values: Vec<P>) -> (r: Result<(), InconsistentType>)
        requires
            old(self).wf(),
            obeys_concrete_eq::<P::Type>(),
        ensures
            final(self).wf(),
            r is Ok <==> consistent(old(self).elems() + values@),
            r is Ok ==> final(self).elems() == old(self).elems() + values@,
            r is Err ==> ({
                let k = final(self).elems().len() - old(self).elems().len();
                &&& 0 <= k < values@.len()
                &&& final(self).elems() == old(self).elems() + values@.subrange(0, k)
                &&& !consistent(old(self).elems() + values@.subrange(0, k + 1))
            }),
    {
        let ghost start = self.elems@;
        let n = values.len();
        let ghost vals = values@;
        let mut rest = values;
        let mut rev: Vec<P> = Vec::new();
        while rest.len() > 0
            invariant
                rest@ == vals.subrange(0, rest@.len() as int),
                rev@.len() + rest@.len() == vals.len(),
                forall|j: int| 0 <= j < rev@.len() ==> rev@[j] == vals[vals.len() - 1 - j],
            decreases rest.len(),
        {
            let x = rest.pop().unwrap();
            rev.push(x);
        }
        let mut k: usize = 0;
        while rev.len() > 0
            invariant
                obeys_concrete_eq::<P::Type>(),
                start == old(self).elems(),
                vals == values@,
                self.wf(),
                k + rev@.len() == vals.len(),
                vals.len() == n,
                forall|j: int| 0 <= j < rev@.len() ==> rev@[j] == vals[vals.len() - 1 - j],
                self.elems() == start + vals.subrange(0, k as int),
                consistent(start + vals.subrange(0, k as int)),
            decreases rev.len(),
        {
            let v = rev.pop().unwrap();
            let ghost before = self.elems();
            match self.append(v) {
                Ok(()) => {
                    proof {
                        assert(self.elems() =~= start + vals.subrange(0, k + 1));
                    }
                    k = k + 1;
                },
                Err(e) => {
                    proof {
                        let s = start + vals.subrange(0, k + 1);
                        assert(s[s.len() - 1] == v);
                        assert(before.len() > 0);
                        assert(s[0] == before[0]);
                        assert(!(s[s.len() - 1].type_of() == s[0].type_of()));
                        assert(!consistent(s));
                        assert(!consistent(start + vals)) by {
                            let t = start + vals;
                            let last = s.len() - 1;
                            assert(t[last] == s[last]);
                            assert(t[0] == s[0]);
                            assert(t[last].type_of() != t[0].type_of());
                        }
                    }
                    return Err(e);
                },
            }
        }
        proof {
            assert(vals.subrange(0, k as int) =~= vals);
        }
        Ok(())
    }
}

/// The text an array type is displayed as: `[name; len]`, or `[]` for the
/// type of empty arrays.
pub open spec fn array_type_text(ty: Option<BinaryType>, len: usize) -> Seq<char> {
    match ty {
        Some(t) => seq!['['] + t.name_spec() + seq![';', ' '] + crate::text::decimal(len as nat) + seq![']'],
        None => seq!['[', ']'],
    }
}

impl ArrayType<BinaryType> {
    /// Returns the text the type is displayed as.
    pub fn to_string(&self) -> (r: String)
        ensures
            r@ == array_type_text(self.elem_type(), self.len_spec()),
    {
        match self.ty {
            Some(t) => crate::text::array_text(t.name(), self.len),
            None => {
                proof {
                    reveal_strlit("[]");
                }
                "[]".to_owned()
            },
        }
    }
}

} // verus!
