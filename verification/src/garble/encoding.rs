//! Encodings of bits: labels, the global offset, and encrypted rows.
//!
//! A label is a 128-bit block. The two labels of a wire differ by the global
//! offset `Delta` (Free-XOR), whose least significant bit is set, so that the
//! pointer bits (the least significant bits) of a wire's two labels differ
//! (point-and-permute).

use rand::rngs::StdRng;
use std::marker::PhantomData;
use vstd::prelude::*;

use crate::random::random_block;

verus! {

/// The pointer bit of a block: its least significant bit.
pub open spec fn pointer(block: u128) -> bool {
    block & 1 == 1
}

/// Global binary offset used by the Free-XOR technique to create label
/// pairs where W_1 = W_0 ^ Delta.
///
/// In accordance with the point-and-permute technique, the least significant
/// bit of Delta is set, so that the pointer bit of W_1 is that of W_0 flipped.
#[derive(Debug, Clone, Copy, PartialEq, Eq, Structural)]
pub struct Delta(u128);

impl Delta {
    #[verifier::type_invariant]
    spec fn inv(self) -> bool {
        pointer(self.0)
    }

    /// The offset as a block.
    pub closed spec fn block(self) -> u128 {
        self.0
    }

    /// Creates the offset from a block, setting its least significant bit.
    pub fn from_block(block: u128) -> (r: Self)
        ensures
            r.block() == block | 1,
            pointer(r.block()),
    {
        let b = block | 1;
        assert(pointer(b)) by (bit_vector)
            requires
                b == block | 1,
        ;
        Delta(b)
    }

    /// Samples a random offset.
    pub fn random(rng: &mut StdRng) -> (r: Self)
        ensures
            pointer(r.block()),
    {
        Delta::from_block(random_block(rng))
    }

    /// Returns the offset as a block; its least significant bit is set.
    pub fn into_inner(self) -> (r: u128)
        ensures
            r == self.block(),
            pointer(r),
    {
        proof {
            use_type_invariant(&self);
        }
        self.0
    }
}

/// The two labels of a wire have different pointer bits.
pub proof fn lemma_pointer_flips(label: u128, delta: Delta)
    requires
        pointer(delta.block()),
    ensures
        pointer(label ^ delta.block()) == !pointer(label),
{
    let d = delta.block();
    assert(pointer(label ^ d) == !pointer(label)) by (bit_vector)
        requires
            d & 1 == 1,
    ;
}

/// A label: the block that encodes one value of a wire.
#[derive(Debug, Clone, Copy, PartialEq, Eq, Structural)]
pub struct Label(u128);

impl Label {
    /// The label as a block.
    pub closed spec fn block(self) -> u128 {
        self.0
    }

    /// Creates a label from a block.
    pub fn new(block: u128) -> (r: Self)
        ensures
            r.block() == block,
    {
        Label(block)
    }

    /// Samples a random label.
    pub fn random(rng: &mut StdRng) -> (r: Self) {
        Label(random_block(rng))
    }

    /// Returns the label as a block.
    pub fn to_inner(&self) -> (r: u128)
        ensures
            r == self.block(),
    {
        self.0
    }

    /// Returns the label's pointer bit.
    pub fn pointer_bit(&self) -> (r: bool)
        ensures
            r == pointer(self.block()),
    {
        self.0 & 1 == 1
    }

    /// The label of the other value of the wire: this one offset by `delta`.
    pub fn xor_delta(&self, delta: &Delta) -> (r: Self)
        ensures
            r.block() == self.block() ^ delta.block(),
    {
        Label(self.0 ^ delta.0)
    }

    /// The XOR of two labels, by which Free-XOR evaluates an XOR gate.
    pub fn xor(&self, other: &Label) -> (r: Self)
        ensures
            r.block() == self.block() ^ other.block(),
    {
        Label(self.0 ^ other.0)
    }
}

/// An encrypted row of a garbled truth table.
#[derive(Debug, Clone, Copy, PartialEq, Eq, Structural)]
pub struct EncryptedRow(pub u128);

/// The states an encoding can be in.
pub trait Sealed {}

/// Bit state.
pub trait State: Sealed {}

/// Active encoding state: an encoded value which has been assigned.
#[derive(Debug, Clone, Copy, PartialEq, Eq, Structural)]
pub struct Active;

impl Sealed for Active {}

impl State for Active {}

/// Inactive encoding state: an encoded value which has not been assigned.
#[derive(Debug, Clone, Copy, PartialEq, Eq, Structural)]
pub struct Inactive;

impl Sealed for Inactive {}

impl State for Inactive {}

/// An encoded bit.
#[derive(Debug, Copy)]
pub struct Bit<S: State>(u128, PhantomData<S>);

impl<S: State> Clone for Bit<S> {
    fn clone(&self) -> (r: Self)
        ensures
            r.block() == self.block(),
    {
        Bit(self.0, PhantomData)
    }
}

impl<S: State> Bit<S> {
    /// The label of the encoded bit.
    pub closed spec fn block(self) -> u128 {
        self.0
    }

    /// Creates an encoded bit from its label.
    pub fn new(block: u128) -> (r: Self)
        ensures
            r.block() == block,
    {
        Bit(block, PhantomData)
    }

    /// Returns the label of the encoded bit.
    pub fn label(&self) -> (r: u128)
        ensures
            r == self.block(),
    {
        self.0
    }

    /// Returns the encoding's pointer bit, from the point-and-permute
    /// technique.
    pub fn pointer_bit(&self) -> (r: bool)
        ensures
            r == pointer(self.block()),
    {
        self.0 & 1 == 1
    }

    /// The XOR of two encoded bits.
    pub fn xor(&self, rhs: &Bit<S>) -> (r: Bit<S>)
        ensures
            r.block() == self.block() ^ rhs.block(),
    {
        Bit(self.0 ^ rhs.0, PhantomData)
    }
}

} // verus!
