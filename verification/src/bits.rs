//! Conversions between the float types and their raw bit patterns.

use vstd::prelude::*;

verus! {

/// Construction of a float type from its raw bit pattern.
pub trait FpFromBits: Sized + View<V = nat> {
    type Bits;

    /// Whether `bits` fits the format: the padding bits of the storage
    /// integer above it are clear.
    spec fn bits_accepted(bits: Self::Bits) -> bool;

    /// The value of `bits` as a natural number.
    spec fn bits_value(bits: Self::Bits) -> nat;

    /// Returns the float whose bit pattern is `bits`.
    fn from_bits(bits: Self::Bits) -> (r: Self)
        requires
            Self::bits_accepted(bits),
        ensures
            r@ == Self::bits_value(bits),
    ;
}

/// Access to the raw bit pattern of a float type.
pub trait FpToBits: Sized + View<V = nat> {
    type Bits;

    /// The value of `bits` as a natural number.
    spec fn to_bits_value(bits: Self::Bits) -> nat;

    /// Returns the bit pattern of `self`.
    fn to_bits(self) -> (r: Self::Bits)
        ensures
            Self::to_bits_value(r) == self@,
    ;
}

} // verus!
