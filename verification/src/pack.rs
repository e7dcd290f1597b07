//! Packing of a float into the narrowest format that represents it well
//! enough: each narrower candidate is tried in a fixed order, and one is
//! taken when the conversion keeps the category of the value and a caller's
//! validator accepts the value that the candidate stands for.

use vstd::arithmetic::power2::*;
use vstd::prelude::*;

use crate::extend::FpExtend;
use crate::floats::{F16, F24, F32, F40, F48, F56, F64, F8};
use crate::packed::PackedFloat;
use crate::repr::FpRepr;
use crate::truncate::{lemma_truncation_transition_allowed, FpTruncate};

verus! {

/// Whether converting `x` to `T` keeps the category of the value.
pub open spec fn keeps_category<S: FpTruncate<T>, T: FpRepr>(x: S) -> bool {
    S::format().category(x@) == T::format().category(S::format().narrow(T::format(), x@))
}

/// The value of `S` that the conversion of `x` to `T` stands for: the
/// conversion extended back to `S`.
pub open spec fn carried_back<S: FpTruncate<T>, T: FpExtend<S>>(x: S) -> nat {
    T::format().widen(S::format(), S::format().narrow(T::format(), x@), T::quiets_nan())
}

/// Whether `validate`, called with `x` and the value that its conversion to
/// `T` stands for, may answer `answer`.
pub open spec fn answers<S: FpTruncate<T>, T: FpExtend<S>, V: Fn(S, S) -> bool>(
    validate: V,
    x: S,
    answer: bool,
) -> bool {
    exists|y: S| y@ == carried_back::<S, T>(x) && call_ensures(validate, (x, y), answer)
}

/// `x` packs into `T`: the conversion keeps the category and `validate`
/// accepted it.
pub open spec fn packs_into<S: FpTruncate<T>, T: FpExtend<S>, V: Fn(S, S) -> bool>(
    validate: V,
    x: S,
) -> bool {
    keeps_category::<S, T>(x) && answers::<S, T, V>(validate, x, true)
}

/// `x` does not pack into `T`: the conversion changes the category, or
/// `validate` rejected it.
pub open spec fn misses<S: FpTruncate<T>, T: FpExtend<S>, V: Fn(S, S) -> bool>(
    validate: V,
    x: S,
) -> bool {
    !keeps_category::<S, T>(x) || answers::<S, T, V>(validate, x, false)
}

/// Whether `validate` accepts only a value carried back unchanged.
pub open spec fn exact<S: View<V = nat>, V: Fn(S, S) -> bool>(validate: V) -> bool {
    forall|a: S, b: S| #[trigger] call_ensures(validate, (a, b), true) ==> a@ == b@
}

/// With a validator that accepts only a value carried back unchanged,
/// packing loses nothing: when `x` packs into `T`, the conversion extended
/// back is `x` again.
pub proof fn lemma_exact_validator_is_lossless<
    S: FpTruncate<T>,
    T: FpExtend<S>,
    V: Fn(S, S) -> bool,
>(validate: V, x: S)
    requires
        forall|a: S, b: S| #[trigger] call_ensures(validate, (a, b), true) ==> a@ == b@,
        packs_into::<S, T, V>(validate, x),
    ensures
        carried_back::<S, T>(x) == x@,
{
    let y = choose|y: S|
        y@ == carried_back::<S, T>(x) && call_ensures(validate, (x, y), true);
    assert(call_ensures(validate, (x, y), true));
}

/// Converts `x` to `T` if that keeps the category of the value and
/// `validate` accepts `x` together with the conversion extended back.
fn truncate_validated<S: FpTruncate<T>, T: FpExtend<S>, V: Fn(S, S) -> bool>(
    x: S,
    validate: &V,
) -> (r: Option<T>)
    requires
        S::format().valid(),
        T::format().valid(),
        S::format().narrows_to(T::format()),
        S::format().exponent_bias() + 1 - T::format().exponent_bias()
            > S::format().significand_bits,
        forall|a: S, b: S| call_requires(*validate, (a, b)),
    ensures
        r matches Some(t) ==> t@ == S::format().narrow(T::format(), x@) && packs_into::<
            S,
            T,
            V,
        >(*validate, x),
        r is None ==> misses::<S, T, V>(*validate, x),
{
    proof {
        x.lemma_storage();
        lemma_truncation_transition_allowed(S::format(), T::format(), x@);
    }
    match x.try_truncate() {
        Ok(t) => {
            let y: S = t.extend();
            if validate(x, y) {
                Some(t)
            } else {
                None
            }
        },
        Err(_) => None,
    }
}

/// Packing of a float into the narrowest of the formats tried that keeps
/// its category and that a validator accepts.
///
/// The validator is called with the value and with the value that the
/// candidate stands for (the candidate extended back); it decides how much
/// precision may be lost.
pub trait FpPack: Sized {
    /// Packs `self` into a format with native hardware support.
    fn pack_native<V: Fn(Self, Self) -> bool>(self, validate: &V) -> (r: PackedFloat)
        requires
            forall|a: Self, b: Self| call_requires(*validate, (a, b)),
    ;

    /// Packs `self` into the narrowest format that the search reaches.
    fn pack_optimal<V: Fn(Self, Self) -> bool>(self, validate: &V) -> (r: PackedFloat)
        requires
            forall|a: Self, b: Self| call_requires(*validate, (a, b)),
    ;
}

impl FpPack for F32 {
    /// Keeps `self`: no narrower format has native support here.
    fn pack_native<V: Fn(Self, Self) -> bool>(self, validate: &V) -> (r: PackedFloat)
        ensures
            r == PackedFloat::F32(self),
    {
        PackedFloat::F32(self)
    }

    /// Tries 16 bits, and 8 bits once 16 fit; otherwise 24 bits; otherwise
    /// keeps `self`.
    fn pack_optimal<V: Fn(Self, Self) -> bool>(self, validate: &V) -> (r: PackedFloat)
        ensures
            match r {
                PackedFloat::F8(p) => {
                    &&& packs_into::<F32, F16, V>(*validate, self)
                    &&& packs_into::<F32, F8, V>(*validate, self)
                    &&& p@ == F32::format().narrow(F8::format(), self@)
                },
                PackedFloat::F16(p) => {
                    &&& packs_into::<F32, F16, V>(*validate, self)
                    &&& misses::<F32, F8, V>(*validate, self)
                    &&& p@ == F32::format().narrow(F16::format(), self@)
                },
                PackedFloat::F24(p) => {
                    &&& misses::<F32, F16, V>(*validate, self)
                    &&& packs_into::<F32, F24, V>(*validate, self)
                    &&& p@ == F32::format().narrow(F24::format(), self@)
                },
                PackedFloat::F32(p) => {
                    &&& misses::<F32, F16, V>(*validate, self)
                    &&& misses::<F32, F24, V>(*validate, self)
                    &&& p == self
                },
                _ => false,
            },
            exact::<F32, V>(*validate) ==> packed_as_f32(r) == self@,
    {
        proof {
            lemma2_to64();
        }
        let r = match truncate_validated::<F32, F16, V>(self, validate) {
            Some(p16) => match truncate_validated::<F32, F8, V>(self, validate) {
                Some(p8) => PackedFloat::F8(p8),
                None => PackedFloat::F16(p16),
            },
            None => match truncate_validated::<F32, F24, V>(self, validate) {
                Some(p24) => PackedFloat::F24(p24),
                None => PackedFloat::F32(self),
            },
        };
        proof {
            if exact::<F32, V>(*validate) {
                match r {
                    PackedFloat::F8(_) => lemma_exact_validator_is_lossless::<F32, F8, V>(
                        *validate,
                        self,
                    ),
                    PackedFloat::F16(_) => lemma_exact_validator_is_lossless::<F32, F16, V>(
                        *validate,
                        self,
                    ),
                    PackedFloat::F24(_) => lemma_exact_validator_is_lossless::<F32, F24, V>(
                        *validate,
                        self,
                    ),
                    _ => {},
                }
            }
        }
        r
    }
}

impl FpPack for F64 {
    /// Tries 32 bits; otherwise keeps `self`.
    fn pack_native<V: Fn(Self, Self) -> bool>(self, validate: &V) -> (r: PackedFloat)
        ensures
            match r {
                PackedFloat::F32(p) => {
                    &&& packs_into::<F64, F32, V>(*validate, self)
                    &&& p@ == F64::format().narrow(F32::format(), self@)
                },
                PackedFloat::F64(p) => misses::<F64, F32, V>(*validate, self) && p == self,
                _ => false,
            },
            exact::<F64, V>(*validate) ==> packed_as_f64(r) == self@,
    {
        proof {
            lemma2_to64();
        }
        let r = match truncate_validated::<F64, F32, V>(self, validate) {
            Some(p32) => PackedFloat::F32(p32),
            None => PackedFloat::F64(self),
        };
        proof {
            if exact::<F64, V>(*validate) {
                match r {
                    PackedFloat::F32(_) => lemma_exact_validator_is_lossless::<F64, F32, V>(
                        *validate,
                        self,
                    ),
                    _ => {},
                }
            }
        }
        r
    }

    /// Tries 32 bits, then within it 16 and 8 bits, or else 24 bits; when
    /// 32 bits do not fit, tries 48 bits, then within it 40 bits; or else 56
    /// bits; otherwise keeps `self`.
    fn pack_optimal<V: Fn(Self, Self) -> bool>(self, validate: &V) -> (r: PackedFloat)
        ensures
            match r {
                PackedFloat::F8(p) => {
                    &&& packs_into::<F64, F32, V>(*validate, self)
                    &&& packs_into::<F64, F16, V>(*validate, self)
                    &&& packs_into::<F64, F8, V>(*validate, self)
                    &&& p@ == F64::format().narrow(F8::format(), self@)
                },
                PackedFloat::F16(p) => {
                    &&& packs_into::<F64, F32, V>(*validate, self)
                    &&& packs_into::<F64, F16, V>(*validate, self)
                    &&& misses::<F64, F8, V>(*validate, self)
                    &&& p@ == F64::format().narrow(F16::format(), self@)
                },
                PackedFloat::F24(p) => {
                    &&& packs_into::<F64, F32, V>(*validate, self)
                    &&& misses::<F64, F16, V>(*validate, self)
                    &&& packs_into::<F64, F24, V>(*validate, self)
                    &&& p@ == F64::format().narrow(F24::format(), self@)
                },
                PackedFloat::F32(p) => {
                    &&& packs_into::<F64, F32, V>(*validate, self)
                    &&& misses::<F64, F16, V>(*validate, self)
                    &&& misses::<F64, F24, V>(*validate, self)
                    &&& p@ == F64::format().narrow(F32::format(), self@)
                },
                PackedFloat::F40(p) => {
                    &&& misses::<F64, F32, V>(*validate, self)
                    &&& packs_into::<F64, F48, V>(*validate, self)
                    &&& packs_into::<F64, F40, V>(*validate, self)
                    &&& p@ == F64::format().narrow(F40::format(), self@)
                },
                PackedFloat::F48(p) => {
                    &&& misses::<F64, F32, V>(*validate, self)
                    &&& packs_into::<F64, F48, V>(*validate, self)
                    &&& misses::<F64, F40, V>(*validate, self)
                    &&& p@ == F64::format().narrow(F48::format(), self@)
                },
                PackedFloat::F56(p) => {
                    &&& misses::<F64, F32, V>(*validate, self)
                    &&& misses::<F64, F48, V>(*validate, self)
                    &&& packs_into::<F64, F56, V>(*validate, self)
                    &&& p@ == F64::format().narrow(F56::format(), self@)
                },
                PackedFloat::F64(p) => {
                    &&& misses::<F64, F32, V>(*validate, self)
                    &&& misses::<F64, F48, V>(*validate, self)
                    &&& misses::<F64, F56, V>(*validate, self)
                    &&& p == self
                },
            },
            exact::<F64, V>(*validate) ==> packed_as_f64(r) == self@,
    {
        proof {
            lemma2_to64();
        }
        let r = match truncate_validated::<F64, F32, V>(self, validate) {
            Some(p32) => match truncate_validated::<F64, F16, V>(self, validate) {
                Some(p16) => match truncate_validated::<F64, F8, V>(self, validate) {
                    Some(p8) => PackedFloat::F8(p8),
                    None => PackedFloat::F16(p16),
                },
                None => match truncate_validated::<F64, F24, V>(self, validate) {
                    Some(p24) => PackedFloat::F24(p24),
                    None => PackedFloat::F32(p32),
                },
            },
            None => match truncate_validated::<F64, F48, V>(self, validate) {
                Some(p48) => match truncate_validated::<F64, F40, V>(self, validate) {
                    Some(p40) => PackedFloat::F40(p40),
                    None => PackedFloat::F48(p48),
                },
                None => match truncate_validated::<F64, F56, V>(self, validate) {
                    Some(p56) => PackedFloat::F56(p56),
                    None => PackedFloat::F64(self),
                },
            },
        };
        proof {
            if exact::<F64, V>(*validate) {
                match r {
                    PackedFloat::F8(_) => lemma_exact_validator_is_lossless::<F64, F8, V>(
                        *validate,
                        self,
                    ),
                    PackedFloat::F16(_) => lemma_exact_validator_is_lossless::<F64, F16, V>(
                        *validate,
                        self,
                    ),
                    PackedFloat::F24(_) => lemma_exact_validator_is_lossless::<F64, F24, V>(
                        *validate,
                        self,
                    ),
                    PackedFloat::F32(_) => lemma_exact_validator_is_lossless::<F64, F32, V>(
                        *validate,
                        self,
                    ),
                    PackedFloat::F40(_) => lemma_exact_validator_is_lossless::<F64, F40, V>(
                        *validate,
                        self,
                    ),
                    PackedFloat::F48(_) => lemma_exact_validator_is_lossless::<F64, F48, V>(
                        *validate,
                        self,
                    ),
                    PackedFloat::F56(_) => lemma_exact_validator_is_lossless::<F64, F56, V>(
                        *validate,
                        self,
                    ),
                    _ => {},
                }
            }
        }
        r
    }
}

/// The value of `F64` that a packed float stands for: the packed value
/// extended back to 64 bits.
pub open spec fn packed_as_f64(r: PackedFloat) -> nat {
    match r {
        PackedFloat::F8(p) => F8::format().widen(
            F64::format(),
            p@,
            <F8 as FpExtend<F64>>::quiets_nan(),
        ),
        PackedFloat::F16(p) => F16::format().widen(
            F64::format(),
            p@,
            <F16 as FpExtend<F64>>::quiets_nan(),
        ),
        PackedFloat::F24(p) => F24::format().widen(
            F64::format(),
            p@,
            <F24 as FpExtend<F64>>::quiets_nan(),
        ),
        PackedFloat::F32(p) => F32::format().widen(
            F64::format(),
            p@,
            <F32 as FpExtend<F64>>::quiets_nan(),
        ),
        PackedFloat::F40(p) => F40::format().widen(
            F64::format(),
            p@,
            <F40 as FpExtend<F64>>::quiets_nan(),
        ),
        PackedFloat::F48(p) => F48::format().widen(
            F64::format(),
            p@,
            <F48 as FpExtend<F64>>::quiets_nan(),
        ),
        PackedFloat::F56(p) => F56::format().widen(
            F64::format(),
            p@,
            <F56 as FpExtend<F64>>::quiets_nan(),
        ),
        PackedFloat::F64(p) => p@,
    }
}

/// The value of `F32` that a packed float of at most 32 bits stands for:
/// the packed value extended back to 32 bits.
pub open spec fn packed_as_f32(r: PackedFloat) -> nat {
    match r {
        PackedFloat::F8(p) => F8::format().widen(
            F32::format(),
            p@,
            <F8 as FpExtend<F32>>::quiets_nan(),
        ),
        PackedFloat::F16(p) => F16::format().widen(
            F32::format(),
            p@,
            <F16 as FpExtend<F32>>::quiets_nan(),
        ),
        PackedFloat::F24(p) => F24::format().widen(
            F32::format(),
            p@,
            <F24 as FpExtend<F32>>::quiets_nan(),
        ),
        PackedFloat::F32(p) => p@,
        _ => 0,
    }
}

} // verus!
