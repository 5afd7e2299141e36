//! Random values, drawn by `rand` from a `StdRng`. Nothing is claimed of
//! the values drawn: they are the generator's.

use rand::rngs::StdRng;
use rand::Rng;
use vstd::prelude::*;

verus! {

/// The random number generator used to sample values.
#[verifier::external_type_specification]
#[verifier::external_body]
pub struct ExStdRng(StdRng);

/// A uniformly random block, drawn by `rand::Rng::gen::<u128>`.
#[verifier::external_body]
pub(crate) fn random_block(rng: &mut StdRng) -> (r: u128) {
    rng.gen::<u128>()
}

/// A uniformly random bit, drawn by `rand::Rng::gen::<bool>`.
#[verifier::external_body]
pub(crate) fn random_bool(rng: &mut StdRng) -> (r: bool) {
    rng.gen::<bool>()
}

/// A uniformly random `u8`, drawn by `rand::Rng::gen::<u8>`.
#[verifier::external_body]
pub(crate) fn random_u8(rng: &mut StdRng) -> (r: u8) {
    rng.gen::<u8>()
}

/// A uniformly random `u16`, drawn by `rand::Rng::gen::<u16>`.
#[verifier::external_body]
pub(crate) fn random_u16(rng: &mut StdRng) -> (r: u16) {
    rng.gen::<u16>()
}

/// A uniformly random `u32`, drawn by `rand::Rng::gen::<u32>`.
#[verifier::external_body]
pub(crate) fn random_u32(rng: &mut StdRng) -> (r: u32) {
    rng.gen::<u32>()
}

/// A uniformly random `u64`, drawn by `rand::Rng::gen::<u64>`.
#[verifier::external_body]
pub(crate) fn random_u64(rng: &mut StdRng) -> (r: u64) {
    rng.gen::<u64>()
}

} // verus!
