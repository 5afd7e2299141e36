//! Bit decompositions of unsigned integers.
//!
//! Bits are read in least-significant-bit-first (Lsb0) or
//! most-significant-bit-first (Msb0) order. The decompositions themselves are
//! computed by `itybity`.

use itybity::{FromBitIterator, IntoBits};
use vstd::prelude::*;

verus! {

/// The number that a sequence of bits in Lsb0 order denotes.
pub open spec fn lsb0_value(bits: Seq<bool>) -> nat
    decreases bits.len(),
{
    if bits.len() == 0 {
        0
    } else {
        (if bits[0] { 1nat } else { 0nat }) + 2 * lsb0_value(bits.drop_first())
    }
}

/// `bits` is the Lsb0 decomposition of `v` into exactly `n` bits.
pub open spec fn is_lsb0_of(bits: Seq<bool>, v: int, n: nat) -> bool {
    bits.len() == n && lsb0_value(bits) == v
}

/// `bits` is the Msb0 decomposition of `v` into exactly `n` bits.
pub open spec fn is_msb0_of(bits: Seq<bool>, v: int, n: nat) -> bool {
    bits.len() == n && lsb0_value(bits.reverse()) == v
}

/// Two bit sequences of one length with the same value are equal.
pub proof fn lemma_lsb0_injective(a: Seq<bool>, b: Seq<bool>)
    requires
        a.len() == b.len(),
        lsb0_value(a) == lsb0_value(b),
    ensures
        a == b,
    decreases a.len(),
{
    if a.len() > 0 {
        assert(a[0] == b[0]) by {
            if a[0] != b[0] {
                // one side is odd, the other even
                assert((lsb0_value(a) as int) % 2 != (lsb0_value(b) as int) % 2);
            }
        }
        lemma_lsb0_injective(a.drop_first(), b.drop_first());
        assert(a =~= seq![a[0]] + a.drop_first());
        assert(b =~= seq![b[0]] + b.drop_first());
    } else {
        assert(a =~= b);
    }
}

/// The value of `n` bits is below 2 to the power `n`.
pub proof fn lemma_lsb0_bound(bits: Seq<bool>)
    ensures
        lsb0_value(bits) < vstd::arithmetic::power2::pow2(bits.len()),
    decreases bits.len(),
{
    if bits.len() > 0 {
        lemma_lsb0_bound(bits.drop_first());
        vstd::arithmetic::power2::lemma_pow2_unfold(bits.len());
    } else {
        vstd::arithmetic::power2::lemma2_to64();
    }
}

/// Lsb0 bits of a `u8`, computed by `itybity::IntoBits::into_lsb0_vec`: the
/// bits, lowest first, whose weighted sum is the value.
#[verifier::external_body]
pub(crate) fn u8_into_lsb0(v: u8) -> (bits: Vec<bool>)
    ensures
        is_lsb0_of(bits@, v as int, 8),
{
    v.into_lsb0_vec()
}

/// Lsb0 bits of a `u16`, computed by `itybity::IntoBits::into_lsb0_vec`.
#[verifier::external_body]
pub(crate) fn u16_into_lsb0(v: u16) -> (bits: Vec<bool>)
    ensures
        is_lsb0_of(bits@, v as int, 16),
{
    v.into_lsb0_vec()
}

/// Lsb0 bits of a `u32`, computed by `itybity::IntoBits::into_lsb0_vec`.
#[verifier::external_body]
pub(crate) fn u32_into_lsb0(v: u32) -> (bits: Vec<bool>)
    ensures
        is_lsb0_of(bits@, v as int, 32),
{
    v.into_lsb0_vec()
}

/// Lsb0 bits of a `u64`, computed by `itybity::IntoBits::into_lsb0_vec`.
#[verifier::external_body]
pub(crate) fn u64_into_lsb0(v: u64) -> (bits: Vec<bool>)
    ensures
        is_lsb0_of(bits@, v as int, 64),
{
    v.into_lsb0_vec()
}

/// Lsb0 bits of a `u128`, computed by `itybity::IntoBits::into_lsb0_vec`.
#[verifier::external_body]
pub(crate) fn u128_into_lsb0(v: u128) -> (bits: Vec<bool>)
    ensures
        is_lsb0_of(bits@, v as int, 128),
{
    v.into_lsb0_vec()
}

/// The integer whose Lsb0 bits are `bits`, computed by
/// `itybity::FromBitIterator::from_lsb0_iter` on exactly 8 bits.
#[verifier::external_body]
pub(crate) fn u8_from_lsb0(bits: Vec<bool>) -> (v: u8)
    requires
        bits@.len() == 8,
    ensures
        v as int == lsb0_value(bits@),
{
    u8::from_lsb0_iter(bits)
}

/// The integer whose Lsb0 bits are `bits`, computed by
/// `itybity::FromBitIterator::from_lsb0_iter` on exactly 16 bits.
#[verifier::external_body]
pub(crate) fn u16_from_lsb0(bits: Vec<bool>) -> (v: u16)
    requires
        bits@.len() == 16,
    ensures
        v as int == lsb0_value(bits@),
{
    u16::from_lsb0_iter(bits)
}

/// The integer whose Lsb0 bits are `bits`, computed by
/// `itybity::FromBitIterator::from_lsb0_iter` on exactly 32 bits.
#[verifier::external_body]
pub(crate) fn u32_from_lsb0(bits: Vec<bool>) -> (v: u32)
    requires
        bits@.len() == 32,
    ensures
        v as int == lsb0_value(bits@),
{
    u32::from_lsb0_iter(bits)
}

/// The integer whose Lsb0 bits are `bits`, computed by
/// `itybity::FromBitIterator::from_lsb0_iter` on exactly 64 bits.
#[verifier::external_body]
pub(crate) fn u64_from_lsb0(bits: Vec<bool>) -> (v: u64)
    requires
        bits@.len() == 64,
    ensures
        v as int == lsb0_value(bits@),
{
    u64::from_lsb0_iter(bits)
}

/// The integer whose Lsb0 bits are `bits`, computed by
/// `itybity::FromBitIterator::from_lsb0_iter` on exactly 128 bits.
#[verifier::external_body]
pub(crate) fn u128_from_lsb0(bits: Vec<bool>) -> (v: u128)
    requires
        bits@.len() == 128,
    ensures
        v as int == lsb0_value(bits@),
{
    u128::from_lsb0_iter(bits)
}

/// Reverses a sequence of bits.
pub fn reverse_bits(bits: Vec<bool>) -> (r: Vec<bool>)
    ensures
        r@ == bits@.reverse(),
{
    let mut bits = bits;
    let ghost orig = bits@;
    let mut r: Vec<bool> = Vec::new();
    while bits.len() > 0
        invariant
            bits@ == orig.subrange(0, bits@.len() as int),
            r@.len() + bits@.len() == orig.len(),
            forall|i: int| 0 <= i < r@.len() ==> r@[i] == orig[orig.len() - 1 - i],
        decreases bits.len(),
    {
        let b = bits.pop().unwrap();
        r.push(b);
    }
    assert(r@ =~= orig.reverse());
    r
}

} // verus!
