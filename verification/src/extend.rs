//! Conversion of the float types to wider ones, exact for every value.

use vstd::arithmetic::power2::*;
use vstd::prelude::*;

use crate::bits::{FpFromBits, FpToBits};
use crate::floats::{F16, F24, F32, F40, F48, F56, F64, F8};
use crate::format::FpCategory;
use crate::repr::FpRepr;
use crate::sealed::Sealed;
use crate::pack::carried_back;
use crate::truncate::{transition_allowed, FpTruncate};
use crate::widen::{
    lemma_narrow_then_widen_categories, lemma_widen_keeps_value, lemma_widen_then_narrow,
};

verus! {

/// Conversion to the wider float type `T`.
pub trait FpExtend<T: FpRepr>: FpRepr + Sealed {
    /// Whether a NaN comes out of the conversion with its quiet bit set.
    spec fn quiets_nan() -> bool;

    /// The layouts of the two types are valid and `T` is wider.
    proof fn lemma_layouts()
        ensures
            Self::format().valid(),
            T::format().valid(),
            Self::format().widens_to(T::format()),
    ;

    /// Returns `self` converted to `T`: the sign is kept, every finite value
    /// and infinity are represented exactly (a subnormal becomes the equal
    /// normal value of `T` when `T` has more exponent bits), and a NaN keeps
    /// its payload.
    fn extend(self) -> (r: T)
        ensures
            r@ == Self::format().widen(T::format(), self@, Self::quiets_nan()),
    ;
}

/// Extending a value to a wider type and truncating it back gives the value
/// again (a NaN comes back quiet).
pub proof fn lemma_extend_then_truncate<S: FpExtend<T>, T: FpTruncate<S>>(x: S)
    ensures
        T::format().narrow(S::format(), S::format().widen(T::format(), x@, S::quiets_nan()))
            == S::format().quieted(x@),
{
    S::lemma_layouts();
    lemma_widen_then_narrow(S::format(), T::format(), x@, S::quiets_nan());
}

/// Extending keeps the sign and the number that a zero, normal or
/// subnormal value stands for: the scaled magnitudes agree up to the ratio
/// of the scales of the types.
pub proof fn lemma_extend_keeps_value<S: FpExtend<T>, T: FpRepr>(x: S)
    requires
        S::format().category(x@) == FpCategory::Zero || S::format().category(x@)
            == FpCategory::Normal || S::format().category(x@) == FpCategory::Subnormal,
    ensures
        ({
            let y = S::format().widen(T::format(), x@, S::quiets_nan());
            &&& T::format().sign_of(y) == S::format().sign_of(x@)
            &&& T::format().scaled_magnitude(T::format().abs_of(y)) == S::format().scaled_magnitude(
                S::format().abs_of(x@),
            ) * pow2(
                ((T::format().significand_bits - S::format().significand_bits) + (
                T::format().exponent_bias() - S::format().exponent_bias())) as nat,
            )
        }),
{
    S::lemma_layouts();
    lemma_widen_keeps_value(S::format(), T::format(), x@, S::quiets_nan());
}

/// Truncating a value and extending the result back changes its category
/// only in the ways a truncation may, for the pairs of types where every
/// subnormal of `S` lies below the normal range of `T`.
pub proof fn lemma_truncate_then_extend_categories<S: FpTruncate<T>, T: FpExtend<S>>(x: S)
    requires
        S::format().exponent_bias() + 1 - T::format().exponent_bias()
            > S::format().significand_bits,
    ensures
        transition_allowed(
            S::format().category(x@),
            S::format().category(carried_back::<S, T>(x)),
        ),
{
    T::lemma_layouts();
    x.lemma_storage();
    lemma_narrow_then_widen_categories(S::format(), T::format(), x@, T::quiets_nan());
}

/// Converts `x` to the narrower type `T`, rounding to nearest with ties to
/// even, and returns the result together with the value of `S` it stands
/// for (the result extended back).
pub fn truncate_roundtrip<S: FpTruncate<T>, T: FpExtend<S>>(x: S) -> (r: (S, T))
    ensures
        r.1@ == S::format().narrow(T::format(), x@),
        r.0@ == T::format().widen(S::format(), r.1@, T::quiets_nan()),
{
    let narrow: T = x.truncate();
    let back: S = narrow.extend();
    (back, narrow)
}

impl FpExtend<F16> for F8 {
    open spec fn quiets_nan() -> bool {
        false
    }

    proof fn lemma_layouts() {
        lemma2_to64();
    }

    fn extend(self) -> (r: F16) {
        proof {
            <Self as FpExtend<F16>>::lemma_layouts();
        }
        let bits = F8::layout().widen_bits(F16::layout(), self.to_bits() as u64, false);
        proof {
            lemma2_to64();
            lemma2_to64_rest();
        }
        F16::from_bits(bits as u16)
    }
}

impl FpExtend<F24> for F8 {
    open spec fn quiets_nan() -> bool {
        false
    }

    proof fn lemma_layouts() {
        lemma2_to64();
    }

    fn extend(self) -> (r: F24) {
        proof {
            <Self as FpExtend<F24>>::lemma_layouts();
        }
        let bits = F8::layout().widen_bits(F24::layout(), self.to_bits() as u64, false);
        proof {
            lemma2_to64();
            lemma2_to64_rest();
        }
        F24::from_bits(bits as u32)
    }
}

impl FpExtend<F32> for F8 {
    open spec fn quiets_nan() -> bool {
        false
    }

    proof fn lemma_layouts() {
        lemma2_to64();
    }

    fn extend(self) -> (r: F32) {
        proof {
            <Self as FpExtend<F32>>::lemma_layouts();
        }
        let bits = F8::layout().widen_bits(F32::layout(), self.to_bits() as u64, false);
        proof {
            lemma2_to64();
            lemma2_to64_rest();
        }
        F32::from_bits(bits as u32)
    }
}

impl FpExtend<F40> for F8 {
    open spec fn quiets_nan() -> bool {
        false
    }

    proof fn lemma_layouts() {
        lemma2_to64();
    }

    fn extend(self) -> (r: F40) {
        proof {
            <Self as FpExtend<F40>>::lemma_layouts();
        }
        let bits = F8::layout().widen_bits(F40::layout(), self.to_bits() as u64, false);
        proof {
            lemma2_to64();
            lemma2_to64_rest();
        }
        F40::from_bits(bits as u64)
    }
}

impl FpExtend<F48> for F8 {
    open spec fn quiets_nan() -> bool {
        false
    }

    proof fn lemma_layouts() {
        lemma2_to64();
    }

    fn extend(self) -> (r: F48) {
        proof {
            <Self as FpExtend<F48>>::lemma_layouts();
        }
        let bits = F8::layout().widen_bits(F48::layout(), self.to_bits() as u64, false);
        proof {
            lemma2_to64();
            lemma2_to64_rest();
        }
        F48::from_bits(bits as u64)
    }
}

impl FpExtend<F56> for F8 {
    open spec fn quiets_nan() -> bool {
        false
    }

    proof fn lemma_layouts() {
        lemma2_to64();
    }

    fn extend(self) -> (r: F56) {
        proof {
            <Self as FpExtend<F56>>::lemma_layouts();
        }
        let bits = F8::layout().widen_bits(F56::layout(), self.to_bits() as u64, false);
        proof {
            lemma2_to64();
            lemma2_to64_rest();
        }
        F56::from_bits(bits as u64)
    }
}

impl FpExtend<F64> for F8 {
    open spec fn quiets_nan() -> bool {
        false
    }

    proof fn lemma_layouts() {
        lemma2_to64();
    }

    fn extend(self) -> (r: F64) {
        proof {
            <Self as FpExtend<F64>>::lemma_layouts();
        }
        let bits = F8::layout().widen_bits(F64::layout(), self.to_bits() as u64, false);
        proof {
            lemma2_to64();
            lemma2_to64_rest();
        }
        F64::from_bits(bits as u64)
    }
}

impl FpExtend<F24> for F16 {
    open spec fn quiets_nan() -> bool {
        false
    }

    proof fn lemma_layouts() {
        lemma2_to64();
    }

    fn extend(self) -> (r: F24) {
        proof {
            <Self as FpExtend<F24>>::lemma_layouts();
        }
        let bits = F16::layout().widen_bits(F24::layout(), self.to_bits() as u64, false);
        proof {
            lemma2_to64();
            lemma2_to64_rest();
        }
        F24::from_bits(bits as u32)
    }
}

impl FpExtend<F32> for F16 {
    open spec fn quiets_nan() -> bool {
        false
    }

    proof fn lemma_layouts() {
        lemma2_to64();
    }

    fn extend(self) -> (r: F32) {
        proof {
            <Self as FpExtend<F32>>::lemma_layouts();
        }
        let bits = F16::layout().widen_bits(F32::layout(), self.to_bits() as u64, false);
        proof {
            lemma2_to64();
            lemma2_to64_rest();
        }
        F32::from_bits(bits as u32)
    }
}

impl FpExtend<F40> for F16 {
    open spec fn quiets_nan() -> bool {
        false
    }

    proof fn lemma_layouts() {
        lemma2_to64();
    }

    fn extend(self) -> (r: F40) {
        proof {
            <Self as FpExtend<F40>>::lemma_layouts();
        }
        let bits = F16::layout().widen_bits(F40::layout(), self.to_bits() as u64, false);
        proof {
            lemma2_to64();
            lemma2_to64_rest();
        }
        F40::from_bits(bits as u64)
    }
}

impl FpExtend<F48> for F16 {
    open spec fn quiets_nan() -> bool {
        false
    }

    proof fn lemma_layouts() {
        lemma2_to64();
    }

    fn extend(self) -> (r: F48) {
        proof {
            <Self as FpExtend<F48>>::lemma_layouts();
        }
        let bits = F16::layout().widen_bits(F48::layout(), self.to_bits() as u64, false);
        proof {
            lemma2_to64();
            lemma2_to64_rest();
        }
        F48::from_bits(bits as u64)
    }
}

impl FpExtend<F56> for F16 {
    open spec fn quiets_nan() -> bool {
        false
    }

    proof fn lemma_layouts() {
        lemma2_to64();
    }

    fn extend(self) -> (r: F56) {
        proof {
            <Self as FpExtend<F56>>::lemma_layouts();
        }
        let bits = F16::layout().widen_bits(F56::layout(), self.to_bits() as u64, false);
        proof {
            lemma2_to64();
            lemma2_to64_rest();
        }
        F56::from_bits(bits as u64)
    }
}

impl FpExtend<F64> for F16 {
    open spec fn quiets_nan() -> bool {
        false
    }

    proof fn lemma_layouts() {
        lemma2_to64();
    }

    fn extend(self) -> (r: F64) {
        proof {
            <Self as FpExtend<F64>>::lemma_layouts();
        }
        let bits = F16::layout().widen_bits(F64::layout(), self.to_bits() as u64, false);
        proof {
            lemma2_to64();
            lemma2_to64_rest();
        }
        F64::from_bits(bits as u64)
    }
}

impl FpExtend<F32> for F24 {
    open spec fn quiets_nan() -> bool {
        false
    }

    proof fn lemma_layouts() {
        lemma2_to64();
    }

    fn extend(self) -> (r: F32) {
        proof {
            <Self as FpExtend<F32>>::lemma_layouts();
        }
        let bits = F24::layout().widen_bits(F32::layout(), self.to_bits() as u64, false);
        proof {
            lemma2_to64();
            lemma2_to64_rest();
        }
        F32::from_bits(bits as u32)
    }
}

impl FpExtend<F40> for F24 {
    open spec fn quiets_nan() -> bool {
        false
    }

    proof fn lemma_layouts() {
        lemma2_to64();
    }

    fn extend(self) -> (r: F40) {
        proof {
            <Self as FpExtend<F40>>::lemma_layouts();
        }
        let bits = F24::layout().widen_bits(F40::layout(), self.to_bits() as u64, false);
        proof {
            lemma2_to64();
            lemma2_to64_rest();
        }
        F40::from_bits(bits as u64)
    }
}

impl FpExtend<F48> for F24 {
    open spec fn quiets_nan() -> bool {
        false
    }

    proof fn lemma_layouts() {
        lemma2_to64();
    }

    fn extend(self) -> (r: F48) {
        proof {
            <Self as FpExtend<F48>>::lemma_layouts();
        }
        let bits = F24::layout().widen_bits(F48::layout(), self.to_bits() as u64, false);
        proof {
            lemma2_to64();
            lemma2_to64_rest();
        }
        F48::from_bits(bits as u64)
    }
}

impl FpExtend<F56> for F24 {
    open spec fn quiets_nan() -> bool {
        false
    }

    proof fn lemma_layouts() {
        lemma2_to64();
    }

    fn extend(self) -> (r: F56) {
        proof {
            <Self as FpExtend<F56>>::lemma_layouts();
        }
        let bits = F24::layout().widen_bits(F56::layout(), self.to_bits() as u64, false);
        proof {
            lemma2_to64();
            lemma2_to64_rest();
        }
        F56::from_bits(bits as u64)
    }
}

impl FpExtend<F64> for F24 {
    open spec fn quiets_nan() -> bool {
        false
    }

    proof fn lemma_layouts() {
        lemma2_to64();
    }

    fn extend(self) -> (r: F64) {
        proof {
            <Self as FpExtend<F64>>::lemma_layouts();
        }
        let bits = F24::layout().widen_bits(F64::layout(), self.to_bits() as u64, false);
        proof {
            lemma2_to64();
            lemma2_to64_rest();
        }
        F64::from_bits(bits as u64)
    }
}

impl FpExtend<F40> for F32 {
    open spec fn quiets_nan() -> bool {
        false
    }

    proof fn lemma_layouts() {
        lemma2_to64();
    }

    fn extend(self) -> (r: F40) {
        proof {
            <Self as FpExtend<F40>>::lemma_layouts();
        }
        let bits = F32::layout().widen_bits(F40::layout(), self.to_bits() as u64, false);
        proof {
            lemma2_to64();
            lemma2_to64_rest();
        }
        F40::from_bits(bits as u64)
    }
}

impl FpExtend<F48> for F32 {
    open spec fn quiets_nan() -> bool {
        false
    }

    proof fn lemma_layouts() {
        lemma2_to64();
    }

    fn extend(self) -> (r: F48) {
        proof {
            <Self as FpExtend<F48>>::lemma_layouts();
        }
        let bits = F32::layout().widen_bits(F48::layout(), self.to_bits() as u64, false);
        proof {
            lemma2_to64();
            lemma2_to64_rest();
        }
        F48::from_bits(bits as u64)
    }
}

impl FpExtend<F56> for F32 {
    open spec fn quiets_nan() -> bool {
        false
    }

    proof fn lemma_layouts() {
        lemma2_to64();
    }

    fn extend(self) -> (r: F56) {
        proof {
            <Self as FpExtend<F56>>::lemma_layouts();
        }
        let bits = F32::layout().widen_bits(F56::layout(), self.to_bits() as u64, false);
        proof {
            lemma2_to64();
            lemma2_to64_rest();
        }
        F56::from_bits(bits as u64)
    }
}

impl FpExtend<F64> for F32 {
    open spec fn quiets_nan() -> bool {
        true
    }

    proof fn lemma_layouts() {
        lemma2_to64();
    }

    fn extend(self) -> (r: F64) {
        proof {
            <Self as FpExtend<F64>>::lemma_layouts();
        }
        let bits = F32::layout().widen_bits(F64::layout(), self.to_bits() as u64, true);
        proof {
            lemma2_to64();
            lemma2_to64_rest();
        }
        F64::from_bits(bits as u64)
    }
}

impl FpExtend<F48> for F40 {
    open spec fn quiets_nan() -> bool {
        false
    }

    proof fn lemma_layouts() {
        lemma2_to64();
    }

    fn extend(self) -> (r: F48) {
        proof {
            <Self as FpExtend<F48>>::lemma_layouts();
        }
        let bits = F40::layout().widen_bits(F48::layout(), self.to_bits() as u64, false);
        proof {
            lemma2_to64();
            lemma2_to64_rest();
        }
        F48::from_bits(bits as u64)
    }
}

impl FpExtend<F56> for F40 {
    open spec fn quiets_nan() -> bool {
        false
    }

    proof fn lemma_layouts() {
        lemma2_to64();
    }

    fn extend(self) -> (r: F56) {
        proof {
            <Self as FpExtend<F56>>::lemma_layouts();
        }
        let bits = F40::layout().widen_bits(F56::layout(), self.to_bits() as u64, false);
        proof {
            lemma2_to64();
            lemma2_to64_rest();
        }
        F56::from_bits(bits as u64)
    }
}

impl FpExtend<F64> for F40 {
    open spec fn quiets_nan() -> bool {
        false
    }

    proof fn lemma_layouts() {
        lemma2_to64();
    }

    fn extend(self) -> (r: F64) {
        proof {
            <Self as FpExtend<F64>>::lemma_layouts();
        }
        let bits = F40::layout().widen_bits(F64::layout(), self.to_bits() as u64, false);
        proof {
            lemma2_to64();
            lemma2_to64_rest();
        }
        F64::from_bits(bits as u64)
    }
}

impl FpExtend<F56> for F48 {
    open spec fn quiets_nan() -> bool {
        false
    }

    proof fn lemma_layouts() {
        lemma2_to64();
    }

    fn extend(self) -> (r: F56) {
        proof {
            <Self as FpExtend<F56>>::lemma_layouts();
        }
        let bits = F48::layout().widen_bits(F56::layout(), self.to_bits() as u64, false);
        proof {
            lemma2_to64();
            lemma2_to64_rest();
        }
        F56::from_bits(bits as u64)
    }
}

impl FpExtend<F64> for F48 {
    open spec fn quiets_nan() -> bool {
        false
    }

    proof fn lemma_layouts() {
        lemma2_to64();
    }

    fn extend(self) -> (r: F64) {
        proof {
            <Self as FpExtend<F64>>::lemma_layouts();
        }
        let bits = F48::layout().widen_bits(F64::layout(), self.to_bits() as u64, false);
        proof {
            lemma2_to64();
            lemma2_to64_rest();
        }
        F64::from_bits(bits as u64)
    }
}

impl FpExtend<F64> for F56 {
    open spec fn quiets_nan() -> bool {
        false
    }

    proof fn lemma_layouts() {
        lemma2_to64();
    }

    fn extend(self) -> (r: F64) {
        proof {
            <Self as FpExtend<F64>>::lemma_layouts();
        }
        let bits = F56::layout().widen_bits(F64::layout(), self.to_bits() as u64, false);
        proof {
            lemma2_to64();
            lemma2_to64_rest();
        }
        F64::from_bits(bits as u64)
    }
}

} // verus!
