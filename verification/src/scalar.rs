use vstd::prelude::*;

verus! {

/// A double-precision number carried by its IEEE-754 bit pattern.
///
/// The library stores, copies and compares such numbers but never computes
/// with them, so it keeps their 64 bits; callers convert with
/// `f64::to_bits` and `f64::from_bits`.
#[derive(Clone, Copy, Debug, PartialEq, Eq, Hash)]
pub struct Scalar {
    pub bits: u64,
}

/// The bit pattern of `0.0`.
pub const ZERO_BITS: u64 = 0u64;

/// The bit pattern of `1.0`.
pub const ONE_BITS: u64 = 0x3ff0_0000_0000_0000u64;

impl Scalar {
    /// The number with the given bit pattern.
    pub fn from_bits(bits: u64) -> (r: Scalar)
        ensures
            r.bits == bits,
    {
        Scalar { bits }
    }

    /// Its bit pattern.
    pub fn to_bits(&self) -> (r: u64)
        ensures
            r == self.bits,
    {
        self.bits
    }

    /// `0.0`.
    pub fn zero() -> (r: Scalar)
        ensures
            r.bits == ZERO_BITS,
    {
        Scalar { bits: ZERO_BITS }
    }

    /// `1.0`.
    pub fn one() -> (r: Scalar)
        ensures
            r.bits == ONE_BITS,
    {
        Scalar { bits: ONE_BITS }
    }
}

} // verus!
