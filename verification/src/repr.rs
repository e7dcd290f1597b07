//! The layout constants and distinguished values of each float type.

use vstd::arithmetic::power2::pow2;
use vstd::prelude::*;

use crate::format::FloatFormat;

verus! {

/// The bit layout of a float type, with its distinguished values.
pub trait FpRepr: Sized + Copy + View<V = nat> {
    type Bits;

    const BITS: u32;
    const SIGN_BITS: u32;
    const EXPONENT_BITS: u32;
    const SIGNIFICAND_BITS: u32;

    const EXPONENT_MAX: Self::Bits;
    const EXPONENT_BIAS: Self::Bits;

    const SIGN_MASK: Self::Bits;
    const EXPONENT_MASK: Self::Bits;
    const SIGNIFICAND_MASK: Self::Bits;

    const IMPLICIT_BIT: Self::Bits;

    /// The layout of the type.
    spec fn format() -> FloatFormat;

    /// The layout of the type, at run time.
    fn layout() -> (r: FloatFormat)
        ensures
            r == Self::format(),
            r.valid(),
    ;

    /// The bit pattern of a value fits the storage integer of the type.
    proof fn lemma_storage(self)
        ensures
            self@ < pow2(Self::format().storage_bits as nat),
    ;

    /// Positive zero.
    fn zero() -> (r: Self)
        ensures
            r@ == 0,
    ;

    /// One: the exponent field holds the bias, the significand is zero.
    fn one() -> (r: Self)
        ensures
            r@ == Self::format().compose(false, Self::format().exponent_bias(), 0),
    ;

    /// The most negative finite value.
    fn min() -> (r: Self)
        ensures
            r@ == Self::format().compose(
                true,
                (Self::format().exponent_max() - 1) as nat,
                (Self::format().implicit_bit() - 1) as nat,
            ),
    ;

    /// The largest finite value.
    fn max() -> (r: Self)
        ensures
            r@ == Self::format().compose(
                false,
                (Self::format().exponent_max() - 1) as nat,
                (Self::format().implicit_bit() - 1) as nat,
            ),
    ;

    /// The smallest positive normal value.
    fn min_positive() -> (r: Self)
        ensures
            r@ == Self::format().compose(false, 1, 0),
    ;

    /// Positive infinity.
    fn infinity() -> (r: Self)
        ensures
            r@ == Self::format().compose(false, Self::format().exponent_max(), 0),
    ;

    /// Negative infinity.
    fn neg_infinity() -> (r: Self)
        ensures
            r@ == Self::format().compose(true, Self::format().exponent_max(), 0),
    ;
}

} // verus!
