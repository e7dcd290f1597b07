//! Conversion of the float types to narrower ones, rounding to nearest
//! with ties to even.

use vstd::arithmetic::power2::*;
use vstd::prelude::*;

use crate::bits::{FpFromBits, FpToBits};
use crate::classify::FpClassify;
use crate::floats::{F16, F24, F32, F40, F48, F56, F64, F8};
use crate::format::{FloatFormat, FpCategory};
use crate::narrow::{
    lemma_category_ignores_sign, lemma_limits, lemma_narrow_categories,
    lemma_narrow_magnitude_bound, lemma_narrow_normal_rounds, lemma_narrow_tiny_rounds,
    round_half_even,
};
use crate::repr::FpRepr;
use crate::sealed::Sealed;

verus! {

/// Why a conversion changed the category of a value.
#[derive(Clone, Eq, PartialEq, Debug, Structural)]
pub enum FpTruncateError {
    /// A normal value became infinite.
    Overflow,
    /// A normal value became subnormal or zero, or a subnormal became zero.
    Underflow,
}

/// The changes of category that a conversion may make: none, a normal value
/// overflowing or underflowing, or a subnormal underflowing to zero.
pub open spec fn transition_allowed(before: FpCategory, after: FpCategory) -> bool {
    ||| before == after
    ||| before == FpCategory::Normal && after == FpCategory::Infinite
    ||| before == FpCategory::Normal && after == FpCategory::Subnormal
    ||| before == FpCategory::Normal && after == FpCategory::Zero
    ||| before == FpCategory::Subnormal && after == FpCategory::Zero
}

/// The error for a change of category.
pub open spec fn transition_error(before: FpCategory, after: FpCategory) -> FpTruncateError {
    if before == FpCategory::Normal && after == FpCategory::Infinite {
        FpTruncateError::Overflow
    } else {
        FpTruncateError::Underflow
    }
}

/// Accepts a conversion that kept the category and reports the change
/// otherwise.
pub fn truncation_outcome<T>(before: FpCategory, after: FpCategory, output: T) -> (r: Result<
    T,
    FpTruncateError,
>)
    requires
        transition_allowed(before, after),
    ensures
        r is Ok <==> before == after,
        r matches Ok(t) ==> t == output,
        r matches Err(e) ==> e == transition_error(before, after),
{
    match (before == after, before, after) {
        (true, _, _) => Ok(output),
        (false, FpCategory::Normal, FpCategory::Infinite) => Err(FpTruncateError::Overflow),
        (false, FpCategory::Normal, FpCategory::Subnormal) => Err(FpTruncateError::Underflow),
        (false, FpCategory::Normal, FpCategory::Zero) => Err(FpTruncateError::Underflow),
        (false, _, _) => Err(FpTruncateError::Underflow),
    }
}

/// Conversion to the narrower float type `T`.
pub trait FpTruncate<T: FpRepr>: FpRepr + Sealed {
    /// The layouts of the two types are valid and `T` is narrower.
    proof fn lemma_layouts()
        ensures
            Self::format().valid(),
            T::format().valid(),
            Self::format().narrows_to(T::format()),
    ;

    /// Returns `self` converted to `T`, rounded to nearest with ties to
    /// even; NaN stays a quiet NaN, values too large become infinite.
    fn truncate(self) -> (r: T)
        ensures
            r@ == Self::format().narrow(T::format(), self@),
    ;

    /// Returns `self` converted to `T` if the conversion keeps the category
    /// of the value, and the kind of change otherwise.
    fn try_truncate(self) -> (r: Result<T, FpTruncateError>)
        requires
            transition_allowed(
                Self::format().category(self@),
                T::format().category(Self::format().narrow(T::format(), self@)),
            ),
        ensures
            r is Ok <==> Self::format().category(self@) == T::format().category(
                Self::format().narrow(T::format(), self@),
            ),
            r matches Ok(t) ==> t@ == Self::format().narrow(T::format(), self@),
            r matches Err(e) ==> e == transition_error(
                Self::format().category(self@),
                T::format().category(Self::format().narrow(T::format(), self@)),
            ),
    ;
}

/// When the normal range of `g` starts above every subnormal of `f`,
/// conversion never makes a change of category outside the allowed ones.
pub proof fn lemma_truncation_transition_allowed(f: FloatFormat, g: FloatFormat, x: nat)
    requires
        f.valid(),
        g.valid(),
        f.narrows_to(g),
        x < pow2(f.storage_bits as nat),
        f.exponent_bias() + 1 - g.exponent_bias() > f.significand_bits,
    ensures
        transition_allowed(f.category(x), g.category(f.narrow(g, x))),
{
    lemma_narrow_categories(f, g, x);
}

/// Truncating a value whose exponent lies in the normal range of `T`
/// rounds its significand to nearest, ties to even, at the precision of
/// `T`, and keeps its exponent and sign.
pub proof fn lemma_truncate_rounds<S: FpTruncate<T>, T: FpRepr>(x: S)
    requires
        S::format().underflow_limit(T::format()) <= S::format().abs_of(x@)
            < S::format().overflow_limit(T::format()),
    ensures
        T::format().sign_of(S::format().narrow(T::format(), x@)) == S::format().sign_of(x@),
        T::format().scaled_magnitude(T::format().abs_of(S::format().narrow(T::format(), x@)))
            * pow2((S::format().exponent_bias() - T::format().exponent_bias()) as nat)
            == round_half_even(
            S::format().implicit_bit() + S::format().abs_of(x@) % S::format().implicit_bit(),
            (S::format().significand_bits - T::format().significand_bits) as nat,
        ) * pow2((S::format().abs_of(x@) / S::format().implicit_bit() - 1) as nat),
{
    S::lemma_layouts();
    lemma_limits(S::format(), T::format());
    lemma_narrow_normal_rounds(S::format(), T::format(), S::format().abs_of(x@));
    lemma_narrow_magnitude_bound(S::format(), T::format(), S::format().abs_of(x@));
    lemma_category_ignores_sign(
        T::format(),
        S::format().narrow_magnitude(T::format(), S::format().abs_of(x@)),
        S::format().sign_of(x@),
    );
}

/// Truncating a value that lies below the normal range of `T` rounds its
/// significand to nearest, ties to even, on the grid of the subnormals of
/// `T`, and keeps its sign.
pub proof fn lemma_truncate_rounds_below_normal<S: FpTruncate<T>, T: FpRepr>(x: S)
    requires
        S::format().abs_of(x@) < S::format().underflow_limit(T::format()),
    ensures
        T::format().sign_of(S::format().narrow(T::format(), x@)) == S::format().sign_of(x@),
        T::format().abs_of(S::format().narrow(T::format(), x@)) == round_half_even(
            S::format().full_significand(S::format().abs_of(x@)),
            S::format().denormal_shift(T::format(), S::format().abs_of(x@)) + (
            S::format().significand_bits - T::format().significand_bits) as nat,
        ),
{
    S::lemma_layouts();
    lemma_limits(S::format(), T::format());
    lemma_narrow_tiny_rounds(S::format(), T::format(), S::format().abs_of(x@));
    lemma_narrow_magnitude_bound(S::format(), T::format(), S::format().abs_of(x@));
    lemma_category_ignores_sign(
        T::format(),
        S::format().narrow_magnitude(T::format(), S::format().abs_of(x@)),
        S::format().sign_of(x@),
    );
}

impl FpTruncate<F8> for F16 {
    proof fn lemma_layouts() {
        lemma2_to64();
    }

    fn truncate(self) -> (r: F8) {
        let bits = F16::layout().narrow_bits(F8::layout(), self.to_bits() as u64);
        proof {
            lemma2_to64();
            lemma2_to64_rest();
        }
        F8::from_bits(bits as u8)
    }

    fn try_truncate(self) -> (r: Result<F8, FpTruncateError>) {
        let output: F8 = self.truncate();
        let before = self.classify();
        let after = output.classify();
        truncation_outcome(before, after, output)
    }
}

impl FpTruncate<F8> for F24 {
    proof fn lemma_layouts() {
        lemma2_to64();
    }

    fn truncate(self) -> (r: F8) {
        let bits = F24::layout().narrow_bits(F8::layout(), self.to_bits() as u64);
        proof {
            lemma2_to64();
            lemma2_to64_rest();
        }
        F8::from_bits(bits as u8)
    }

    fn try_truncate(self) -> (r: Result<F8, FpTruncateError>) {
        let output: F8 = self.truncate();
        let before = self.classify();
        let after = output.classify();
        truncation_outcome(before, after, output)
    }
}

impl FpTruncate<F16> for F24 {
    proof fn lemma_layouts() {
        lemma2_to64();
    }

    fn truncate(self) -> (r: F16) {
        let bits = F24::layout().narrow_bits(F16::layout(), self.to_bits() as u64);
        proof {
            lemma2_to64();
            lemma2_to64_rest();
        }
        F16::from_bits(bits as u16)
    }

    fn try_truncate(self) -> (r: Result<F16, FpTruncateError>) {
        let output: F16 = self.truncate();
        let before = self.classify();
        let after = output.classify();
        truncation_outcome(before, after, output)
    }
}

impl FpTruncate<F8> for F32 {
    proof fn lemma_layouts() {
        lemma2_to64();
    }

    fn truncate(self) -> (r: F8) {
        let bits = F32::layout().narrow_bits(F8::layout(), self.to_bits() as u64);
        proof {
            lemma2_to64();
            lemma2_to64_rest();
        }
        F8::from_bits(bits as u8)
    }

    fn try_truncate(self) -> (r: Result<F8, FpTruncateError>) {
        let output: F8 = self.truncate();
        let before = self.classify();
        let after = output.classify();
        truncation_outcome(before, after, output)
    }
}

impl FpTruncate<F16> for F32 {
    proof fn lemma_layouts() {
        lemma2_to64();
    }

    fn truncate(self) -> (r: F16) {
        let bits = F32::layout().narrow_bits(F16::layout(), self.to_bits() as u64);
        proof {
            lemma2_to64();
            lemma2_to64_rest();
        }
        F16::from_bits(bits as u16)
    }

    fn try_truncate(self) -> (r: Result<F16, FpTruncateError>) {
        let output: F16 = self.truncate();
        let before = self.classify();
        let after = output.classify();
        truncation_outcome(before, after, output)
    }
}

impl FpTruncate<F24> for F32 {
    proof fn lemma_layouts() {
        lemma2_to64();
    }

    fn truncate(self) -> (r: F24) {
        let bits = F32::layout().narrow_bits(F24::layout(), self.to_bits() as u64);
        proof {
            lemma2_to64();
            lemma2_to64_rest();
        }
        F24::from_bits(bits as u32)
    }

    fn try_truncate(self) -> (r: Result<F24, FpTruncateError>) {
        let output: F24 = self.truncate();
        let before = self.classify();
        let after = output.classify();
        truncation_outcome(before, after, output)
    }
}

impl FpTruncate<F8> for F40 {
    proof fn lemma_layouts() {
        lemma2_to64();
    }

    fn truncate(self) -> (r: F8) {
        let bits = F40::layout().narrow_bits(F8::layout(), self.to_bits());
        proof {
            lemma2_to64();
            lemma2_to64_rest();
        }
        F8::from_bits(bits as u8)
    }

    fn try_truncate(self) -> (r: Result<F8, FpTruncateError>) {
        let output: F8 = self.truncate();
        let before = self.classify();
        let after = output.classify();
        truncation_outcome(before, after, output)
    }
}

impl FpTruncate<F16> for F40 {
    proof fn lemma_layouts() {
        lemma2_to64();
    }

    fn truncate(self) -> (r: F16) {
        let bits = F40::layout().narrow_bits(F16::layout(), self.to_bits());
        proof {
            lemma2_to64();
            lemma2_to64_rest();
        }
        F16::from_bits(bits as u16)
    }

    fn try_truncate(self) -> (r: Result<F16, FpTruncateError>) {
        let output: F16 = self.truncate();
        let before = self.classify();
        let after = output.classify();
        truncation_outcome(before, after, output)
    }
}

impl FpTruncate<F24> for F40 {
    proof fn lemma_layouts() {
        lemma2_to64();
    }

    fn truncate(self) -> (r: F24) {
        let bits = F40::layout().narrow_bits(F24::layout(), self.to_bits());
        proof {
            lemma2_to64();
            lemma2_to64_rest();
        }
        F24::from_bits(bits as u32)
    }

    fn try_truncate(self) -> (r: Result<F24, FpTruncateError>) {
        let output: F24 = self.truncate();
        let before = self.classify();
        let after = output.classify();
        truncation_outcome(before, after, output)
    }
}

impl FpTruncate<F32> for F40 {
    proof fn lemma_layouts() {
        lemma2_to64();
    }

    fn truncate(self) -> (r: F32) {
        let bits = F40::layout().narrow_bits(F32::layout(), self.to_bits());
        proof {
            lemma2_to64();
            lemma2_to64_rest();
        }
        F32::from_bits(bits as u32)
    }

    fn try_truncate(self) -> (r: Result<F32, FpTruncateError>) {
        let output: F32 = self.truncate();
        let before = self.classify();
        let after = output.classify();
        truncation_outcome(before, after, output)
    }
}

impl FpTruncate<F8> for F48 {
    proof fn lemma_layouts() {
        lemma2_to64();
    }

    fn truncate(self) -> (r: F8) {
        let bits = F48::layout().narrow_bits(F8::layout(), self.to_bits());
        proof {
            lemma2_to64();
            lemma2_to64_rest();
        }
        F8::from_bits(bits as u8)
    }

    fn try_truncate(self) -> (r: Result<F8, FpTruncateError>) {
        let output: F8 = self.truncate();
        let before = self.classify();
        let after = output.classify();
        truncation_outcome(before, after, output)
    }
}

impl FpTruncate<F16> for F48 {
    proof fn lemma_layouts() {
        lemma2_to64();
    }

    fn truncate(self) -> (r: F16) {
        let bits = F48::layout().narrow_bits(F16::layout(), self.to_bits());
        proof {
            lemma2_to64();
            lemma2_to64_rest();
        }
        F16::from_bits(bits as u16)
    }

    fn try_truncate(self) -> (r: Result<F16, FpTruncateError>) {
        let output: F16 = self.truncate();
        let before = self.classify();
        let after = output.classify();
        truncation_outcome(before, after, output)
    }
}

impl FpTruncate<F24> for F48 {
    proof fn lemma_layouts() {
        lemma2_to64();
    }

    fn truncate(self) -> (r: F24) {
        let bits = F48::layout().narrow_bits(F24::layout(), self.to_bits());
        proof {
            lemma2_to64();
            lemma2_to64_rest();
        }
        F24::from_bits(bits as u32)
    }

    fn try_truncate(self) -> (r: Result<F24, FpTruncateError>) {
        let output: F24 = self.truncate();
        let before = self.classify();
        let after = output.classify();
        truncation_outcome(before, after, output)
    }
}

impl FpTruncate<F32> for F48 {
    proof fn lemma_layouts() {
        lemma2_to64();
    }

    fn truncate(self) -> (r: F32) {
        let bits = F48::layout().narrow_bits(F32::layout(), self.to_bits());
        proof {
            lemma2_to64();
            lemma2_to64_rest();
        }
        F32::from_bits(bits as u32)
    }

    fn try_truncate(self) -> (r: Result<F32, FpTruncateError>) {
        let output: F32 = self.truncate();
        let before = self.classify();
        let after = output.classify();
        truncation_outcome(before, after, output)
    }
}

impl FpTruncate<F40> for F48 {
    proof fn lemma_layouts() {
        lemma2_to64();
    }

    fn truncate(self) -> (r: F40) {
        let bits = F48::layout().narrow_bits(F40::layout(), self.to_bits());
        proof {
            lemma2_to64();
            lemma2_to64_rest();
        }
        F40::from_bits(bits)
    }

    fn try_truncate(self) -> (r: Result<F40, FpTruncateError>) {
        let output: F40 = self.truncate();
        let before = self.classify();
        let after = output.classify();
        truncation_outcome(before, after, output)
    }
}

impl FpTruncate<F8> for F56 {
    proof fn lemma_layouts() {
        lemma2_to64();
    }

    fn truncate(self) -> (r: F8) {
        let bits = F56::layout().narrow_bits(F8::layout(), self.to_bits());
        proof {
            lemma2_to64();
            lemma2_to64_rest();
        }
        F8::from_bits(bits as u8)
    }

    fn try_truncate(self) -> (r: Result<F8, FpTruncateError>) {
        let output: F8 = self.truncate();
        let before = self.classify();
        let after = output.classify();
        truncation_outcome(before, after, output)
    }
}

impl FpTruncate<F16> for F56 {
    proof fn lemma_layouts() {
        lemma2_to64();
    }

    fn truncate(self) -> (r: F16) {
        let bits = F56::layout().narrow_bits(F16::layout(), self.to_bits());
        proof {
            lemma2_to64();
            lemma2_to64_rest();
        }
        F16::from_bits(bits as u16)
    }

    fn try_truncate(self) -> (r: Result<F16, FpTruncateError>) {
        let output: F16 = self.truncate();
        let before = self.classify();
        let after = output.classify();
        truncation_outcome(before, after, output)
    }
}

impl FpTruncate<F24> for F56 {
    proof fn lemma_layouts() {
        lemma2_to64();
    }

    fn truncate(self) -> (r: F24) {
        let bits = F56::layout().narrow_bits(F24::layout(), self.to_bits());
        proof {
            lemma2_to64();
            lemma2_to64_rest();
        }
        F24::from_bits(bits as u32)
    }

    fn try_truncate(self) -> (r: Result<F24, FpTruncateError>) {
        let output: F24 = self.truncate();
        let before = self.classify();
        let after = output.classify();
        truncation_outcome(before, after, output)
    }
}

impl FpTruncate<F32> for F56 {
    proof fn lemma_layouts() {
        lemma2_to64();
    }

    fn truncate(self) -> (r: F32) {
        let bits = F56::layout().narrow_bits(F32::layout(), self.to_bits());
        proof {
            lemma2_to64();
            lemma2_to64_rest();
        }
        F32::from_bits(bits as u32)
    }

    fn try_truncate(self) -> (r: Result<F32, FpTruncateError>) {
        let output: F32 = self.truncate();
        let before = self.classify();
        let after = output.classify();
        truncation_outcome(before, after, output)
    }
}

impl FpTruncate<F40> for F56 {
    proof fn lemma_layouts() {
        lemma2_to64();
    }

    fn truncate(self) -> (r: F40) {
        let bits = F56::layout().narrow_bits(F40::layout(), self.to_bits());
        proof {
            lemma2_to64();
            lemma2_to64_rest();
        }
        F40::from_bits(bits)
    }

    fn try_truncate(self) -> (r: Result<F40, FpTruncateError>) {
        let output: F40 = self.truncate();
        let before = self.classify();
        let after = output.classify();
        truncation_outcome(before, after, output)
    }
}

impl FpTruncate<F48> for F56 {
    proof fn lemma_layouts() {
        lemma2_to64();
    }

    fn truncate(self) -> (r: F48) {
        let bits = F56::layout().narrow_bits(F48::layout(), self.to_bits());
        proof {
            lemma2_to64();
            lemma2_to64_rest();
        }
        F48::from_bits(bits)
    }

    fn try_truncate(self) -> (r: Result<F48, FpTruncateError>) {
        let output: F48 = self.truncate();
        let before = self.classify();
        let after = output.classify();
        truncation_outcome(before, after, output)
    }
}

impl FpTruncate<F8> for F64 {
    proof fn lemma_layouts() {
        lemma2_to64();
    }

    fn truncate(self) -> (r: F8) {
        let bits = F64::layout().narrow_bits(F8::layout(), self.to_bits());
        proof {
            lemma2_to64();
            lemma2_to64_rest();
        }
        F8::from_bits(bits as u8)
    }

    fn try_truncate(self) -> (r: Result<F8, FpTruncateError>) {
        let output: F8 = self.truncate();
        let before = self.classify();
        let after = output.classify();
        truncation_outcome(before, after, output)
    }
}

impl FpTruncate<F16> for F64 {
    proof fn lemma_layouts() {
        lemma2_to64();
    }

    fn truncate(self) -> (r: F16) {
        let bits = F64::layout().narrow_bits(F16::layout(), self.to_bits());
        proof {
            lemma2_to64();
            lemma2_to64_rest();
        }
        F16::from_bits(bits as u16)
    }

    fn try_truncate(self) -> (r: Result<F16, FpTruncateError>) {
        let output: F16 = self.truncate();
        let before = self.classify();
        let after = output.classify();
        truncation_outcome(before, after, output)
    }
}

impl FpTruncate<F24> for F64 {
    proof fn lemma_layouts() {
        lemma2_to64();
    }

    fn truncate(self) -> (r: F24) {
        let bits = F64::layout().narrow_bits(F24::layout(), self.to_bits());
        proof {
            lemma2_to64();
            lemma2_to64_rest();
        }
        F24::from_bits(bits as u32)
    }

    fn try_truncate(self) -> (r: Result<F24, FpTruncateError>) {
        let output: F24 = self.truncate();
        let before = self.classify();
        let after = output.classify();
        truncation_outcome(before, after, output)
    }
}

impl FpTruncate<F32> for F64 {
    proof fn lemma_layouts() {
        lemma2_to64();
    }

    fn truncate(self) -> (r: F32) {
        let bits = F64::layout().narrow_bits(F32::layout(), self.to_bits());
        proof {
            lemma2_to64();
            lemma2_to64_rest();
        }
        F32::from_bits(bits as u32)
    }

    fn try_truncate(self) -> (r: Result<F32, FpTruncateError>) {
        let output: F32 = self.truncate();
        let before = self.classify();
        let after = output.classify();
        truncation_outcome(before, after, output)
    }
}

impl FpTruncate<F40> for F64 {
    proof fn lemma_layouts() {
        lemma2_to64();
    }

    fn truncate(self) -> (r: F40) {
        let bits = F64::layout().narrow_bits(F40::layout(), self.to_bits());
        proof {
            lemma2_to64();
            lemma2_to64_rest();
        }
        F40::from_bits(bits)
    }

    fn try_truncate(self) -> (r: Result<F40, FpTruncateError>) {
        let output: F40 = self.truncate();
        let before = self.classify();
        let after = output.classify();
        truncation_outcome(before, after, output)
    }
}

impl FpTruncate<F48> for F64 {
    proof fn lemma_layouts() {
        lemma2_to64();
    }

    fn truncate(self) -> (r: F48) {
        let bits = F64::layout().narrow_bits(F48::layout(), self.to_bits());
        proof {
            lemma2_to64();
            lemma2_to64_rest();
        }
        F48::from_bits(bits)
    }

    fn try_truncate(self) -> (r: Result<F48, FpTruncateError>) {
        let output: F48 = self.truncate();
        let before = self.classify();
        let after = output.classify();
        truncation_outcome(before, after, output)
    }
}

impl FpTruncate<F56> for F64 {
    proof fn lemma_layouts() {
        lemma2_to64();
    }

    fn truncate(self) -> (r: F56) {
        let bits = F64::layout().narrow_bits(F56::layout(), self.to_bits());
        proof {
            lemma2_to64();
            lemma2_to64_rest();
        }
        F56::from_bits(bits)
    }

    fn try_truncate(self) -> (r: Result<F56, FpTruncateError>) {
        let output: F56 = self.truncate();
        let before = self.classify();
        let after = output.classify();
        truncation_outcome(before, after, output)
    }
}

} // verus!
