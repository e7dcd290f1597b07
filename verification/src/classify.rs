//! Classification of bit patterns into the IEEE 754 categories.

use vstd::prelude::*;

use crate::bits::FpToBits;
use crate::format::FloatFormat;
use crate::narrow::{lemma_abs_category, lemma_category_of_magnitude};
use crate::floats::{F16, F24, F32, F40, F48, F56, F64, F8};
pub use crate::format::FpCategory;
use crate::packed::PackedFloat;
use crate::repr::FpRepr;

verus! {

/// Classification of a float value.
pub trait FpClassify: Sized {
    /// The category of `self`.
    spec fn category_spec(&self) -> FpCategory;

    /// Returns the category of `self`.
    fn classify(&self) -> (r: FpCategory)
        ensures
            r == self.category_spec(),
    ;

    /// Whether `self` is positive or negative zero.
    fn is_zero(&self) -> (r: bool)
        ensures
            r == (self.category_spec() == FpCategory::Zero),
    {
        matches!(self.classify(), FpCategory::Zero)
    }

    /// Whether `self` is not a number.
    fn is_nan(&self) -> (r: bool)
        ensures
            r == (self.category_spec() == FpCategory::Nan),
    {
        matches!(self.classify(), FpCategory::Nan)
    }

    /// Whether `self` is positive or negative infinity.
    fn is_infinite(&self) -> (r: bool)
        ensures
            r == (self.category_spec() == FpCategory::Infinite),
    {
        matches!(self.classify(), FpCategory::Infinite)
    }

    /// Whether `self` is subnormal.
    fn is_subnormal(&self) -> (r: bool)
        ensures
            r == (self.category_spec() == FpCategory::Subnormal),
    {
        matches!(self.classify(), FpCategory::Subnormal)
    }

    /// Whether `self` is normal.
    fn is_normal(&self) -> (r: bool)
        ensures
            r == (self.category_spec() == FpCategory::Normal),
    {
        matches!(self.classify(), FpCategory::Normal)
    }
}

impl FpClassify for F8 {
    open spec fn category_spec(&self) -> FpCategory {
        Self::format().category(self@)
    }

    fn classify(&self) -> (r: FpCategory) {
        let bits = self.to_bits();
        F8::layout().classify_bits(bits as u64)
    }
}

impl FpClassify for F16 {
    open spec fn category_spec(&self) -> FpCategory {
        Self::format().category(self@)
    }

    fn classify(&self) -> (r: FpCategory) {
        let bits = self.to_bits();
        F16::layout().classify_bits(bits as u64)
    }
}

impl FpClassify for F24 {
    open spec fn category_spec(&self) -> FpCategory {
        Self::format().category(self@)
    }

    fn classify(&self) -> (r: FpCategory) {
        let bits = self.to_bits();
        F24::layout().classify_bits(bits as u64)
    }
}

impl FpClassify for F32 {
    open spec fn category_spec(&self) -> FpCategory {
        Self::format().category(self@)
    }

    fn classify(&self) -> (r: FpCategory) {
        let bits = self.to_bits();
        F32::layout().classify_bits(bits as u64)
    }
}

impl FpClassify for F40 {
    open spec fn category_spec(&self) -> FpCategory {
        Self::format().category(self@)
    }

    fn classify(&self) -> (r: FpCategory) {
        let bits = self.to_bits();
        F40::layout().classify_bits(bits as u64)
    }
}

impl FpClassify for F48 {
    open spec fn category_spec(&self) -> FpCategory {
        Self::format().category(self@)
    }

    fn classify(&self) -> (r: FpCategory) {
        let bits = self.to_bits();
        F48::layout().classify_bits(bits as u64)
    }
}

impl FpClassify for F56 {
    open spec fn category_spec(&self) -> FpCategory {
        Self::format().category(self@)
    }

    fn classify(&self) -> (r: FpCategory) {
        let bits = self.to_bits();
        F56::layout().classify_bits(bits as u64)
    }
}

impl FpClassify for F64 {
    open spec fn category_spec(&self) -> FpCategory {
        Self::format().category(self@)
    }

    fn classify(&self) -> (r: FpCategory) {
        let bits = self.to_bits();
        F64::layout().classify_bits(bits as u64)
    }
}

impl FpClassify for PackedFloat {
    open spec fn category_spec(&self) -> FpCategory {
        match self {
            PackedFloat::F8(value) => value.category_spec(),
            PackedFloat::F16(value) => value.category_spec(),
            PackedFloat::F24(value) => value.category_spec(),
            PackedFloat::F32(value) => value.category_spec(),
            PackedFloat::F40(value) => value.category_spec(),
            PackedFloat::F48(value) => value.category_spec(),
            PackedFloat::F56(value) => value.category_spec(),
            PackedFloat::F64(value) => value.category_spec(),
        }
    }

    fn classify(&self) -> (r: FpCategory) {
        match self {
            PackedFloat::F8(value) => value.classify(),
            PackedFloat::F16(value) => value.classify(),
            PackedFloat::F24(value) => value.classify(),
            PackedFloat::F32(value) => value.classify(),
            PackedFloat::F40(value) => value.classify(),
            PackedFloat::F48(value) => value.classify(),
            PackedFloat::F56(value) => value.classify(),
            PackedFloat::F64(value) => value.classify(),
        }
    }
}

/// The IEEE 754 category of a value with magnitude bits `a` (the bits below
/// the sign): zero for none, subnormal below the implicit bit, normal below
/// infinity, then infinity itself, and NaN above it.
pub open spec fn magnitude_category(f: FloatFormat, a: nat) -> FpCategory {
    if a == 0 {
        FpCategory::Zero
    } else if a < f.implicit_bit() {
        FpCategory::Subnormal
    } else if a < f.infinity_abs() {
        FpCategory::Normal
    } else if a == f.infinity_abs() {
        FpCategory::Infinite
    } else {
        FpCategory::Nan
    }
}

/// The category of a bit pattern is that of its magnitude bits.
pub proof fn lemma_category_by_magnitude(f: FloatFormat, x: nat)
    requires
        f.valid(),
    ensures
        f.category(x) == magnitude_category(f, f.abs_of(x)),
{
    lemma_abs_category(f, x);
    vstd::arithmetic::power2::lemma_pow2_pos((f.total_bits() - 1) as nat);
    vstd::arithmetic::div_mod::lemma_mod_pos_bound(x as int, f.sign_bit() as int);
    lemma_category_of_magnitude(f, f.abs_of(x));
}

/// A packed float is classified as the value it holds, and that value by
/// the magnitude of its bits in its own layout.
pub proof fn lemma_packed_category(p: PackedFloat)
    ensures
        match p {
            PackedFloat::F8(v) => p.category_spec() == magnitude_category(
                F8::format(),
                F8::format().abs_of(v@),
            ) && v.category_spec() == p.category_spec(),
            PackedFloat::F16(v) => p.category_spec() == magnitude_category(
                F16::format(),
                F16::format().abs_of(v@),
            ) && v.category_spec() == p.category_spec(),
            PackedFloat::F24(v) => p.category_spec() == magnitude_category(
                F24::format(),
                F24::format().abs_of(v@),
            ) && v.category_spec() == p.category_spec(),
            PackedFloat::F32(v) => p.category_spec() == magnitude_category(
                F32::format(),
                F32::format().abs_of(v@),
            ) && v.category_spec() == p.category_spec(),
            PackedFloat::F40(v) => p.category_spec() == magnitude_category(
                F40::format(),
                F40::format().abs_of(v@),
            ) && v.category_spec() == p.category_spec(),
            PackedFloat::F48(v) => p.category_spec() == magnitude_category(
                F48::format(),
                F48::format().abs_of(v@),
            ) && v.category_spec() == p.category_spec(),
            PackedFloat::F56(v) => p.category_spec() == magnitude_category(
                F56::format(),
                F56::format().abs_of(v@),
            ) && v.category_spec() == p.category_spec(),
            PackedFloat::F64(v) => p.category_spec() == magnitude_category(
                F64::format(),
                F64::format().abs_of(v@),
            ) && v.category_spec() == p.category_spec(),
        },
{
    match p {
        PackedFloat::F8(v) => lemma_category_by_magnitude(F8::format(), v@),
        PackedFloat::F16(v) => lemma_category_by_magnitude(F16::format(), v@),
        PackedFloat::F24(v) => lemma_category_by_magnitude(F24::format(), v@),
        PackedFloat::F32(v) => lemma_category_by_magnitude(F32::format(), v@),
        PackedFloat::F40(v) => lemma_category_by_magnitude(F40::format(), v@),
        PackedFloat::F48(v) => lemma_category_by_magnitude(F48::format(), v@),
        PackedFloat::F56(v) => lemma_category_by_magnitude(F56::format(), v@),
        PackedFloat::F64(v) => lemma_category_by_magnitude(F64::format(), v@),
    }
}

} // verus!
