//! Laws of the comparison of the float types: it is the numeric order of
//! the values, with NaN unordered and the two zeros equal.

use std::cmp::Ordering;

use vstd::prelude::*;
use vstd::std_specs::cmp::{PartialEqSpec, PartialOrdSpec};

use crate::floats::{F16, F24, F32, F40, F48, F56, F64, F8};
use crate::format::{lemma_comparison_is_numeric_order, FpCategory};
use crate::repr::FpRepr;

verus! {

/// Comparing two `F8` values gives the order of the numbers they stand
/// for, with the two zeros equal, and no order when either is NaN; two
/// values are equal exactly when that order is `Equal`.
pub proof fn lemma_f8_compares_numbers(a: F8, b: F8)
    ensures
        F8::obeys_partial_cmp_spec(),
        F8::obeys_eq_spec(),
        F8::format().category(a@) == FpCategory::Nan || F8::format().category(b@)
            == FpCategory::Nan ==> a.partial_cmp_spec(&b) is None,
        F8::format().category(a@) != FpCategory::Nan && F8::format().category(b@)
            != FpCategory::Nan ==> {
            &&& (a.partial_cmp_spec(&b) == Some(Ordering::Less)) == (F8::format().signed_value(
                a@,
            ) < F8::format().signed_value(b@))
            &&& (a.partial_cmp_spec(&b) == Some(Ordering::Equal)) == (F8::format().signed_value(
                a@,
            ) == F8::format().signed_value(b@))
            &&& (a.partial_cmp_spec(&b) == Some(Ordering::Greater)) == (F8::format().signed_value(
                a@,
            ) > F8::format().signed_value(b@))
        },
        a.eq_spec(&b) == (a.partial_cmp_spec(&b) == Some(Ordering::Equal)),
{
    lemma_comparison_is_numeric_order(F8::format(), a@, b@);
}

/// Comparing two `F16` values gives the order of the numbers they stand
/// for, with the two zeros equal, and no order when either is NaN; two
/// values are equal exactly when that order is `Equal`.
pub proof fn lemma_f16_compares_numbers(a: F16, b: F16)
    ensures
        F16::obeys_partial_cmp_spec(),
        F16::obeys_eq_spec(),
        F16::format().category(a@) == FpCategory::Nan || F16::format().category(b@)
            == FpCategory::Nan ==> a.partial_cmp_spec(&b) is None,
        F16::format().category(a@) != FpCategory::Nan && F16::format().category(b@)
            != FpCategory::Nan ==> {
            &&& (a.partial_cmp_spec(&b) == Some(Ordering::Less)) == (F16::format().signed_value(
                a@,
            ) < F16::format().signed_value(b@))
            &&& (a.partial_cmp_spec(&b) == Some(Ordering::Equal)) == (F16::format().signed_value(
                a@,
            ) == F16::format().signed_value(b@))
            &&& (a.partial_cmp_spec(&b) == Some(Ordering::Greater)) == (F16::format().signed_value(
                a@,
            ) > F16::format().signed_value(b@))
        },
        a.eq_spec(&b) == (a.partial_cmp_spec(&b) == Some(Ordering::Equal)),
{
    lemma_comparison_is_numeric_order(F16::format(), a@, b@);
}

/// Comparing two `F24` values gives the order of the numbers they stand
/// for, with the two zeros equal, and no order when either is NaN; two
/// values are equal exactly when that order is `Equal`.
pub proof fn lemma_f24_compares_numbers(a: F24, b: F24)
    ensures
        F24::obeys_partial_cmp_spec(),
        F24::obeys_eq_spec(),
        F24::format().category(a@) == FpCategory::Nan || F24::format().category(b@)
            == FpCategory::Nan ==> a.partial_cmp_spec(&b) is None,
        F24::format().category(a@) != FpCategory::Nan && F24::format().category(b@)
            != FpCategory::Nan ==> {
            &&& (a.partial_cmp_spec(&b) == Some(Ordering::Less)) == (F24::format().signed_value(
                a@,
            ) < F24::format().signed_value(b@))
            &&& (a.partial_cmp_spec(&b) == Some(Ordering::Equal)) == (F24::format().signed_value(
                a@,
            ) == F24::format().signed_value(b@))
            &&& (a.partial_cmp_spec(&b) == Some(Ordering::Greater)) == (F24::format().signed_value(
                a@,
            ) > F24::format().signed_value(b@))
        },
        a.eq_spec(&b) == (a.partial_cmp_spec(&b) == Some(Ordering::Equal)),
{
    lemma_comparison_is_numeric_order(F24::format(), a@, b@);
}

/// Comparing two `F32` values gives the order of the numbers they stand
/// for, with the two zeros equal, and no order when either is NaN; two
/// values are equal exactly when that order is `Equal`.
pub proof fn lemma_f32_compares_numbers(a: F32, b: F32)
    ensures
        F32::obeys_partial_cmp_spec(),
        F32::obeys_eq_spec(),
        F32::format().category(a@) == FpCategory::Nan || F32::format().category(b@)
            == FpCategory::Nan ==> a.partial_cmp_spec(&b) is None,
        F32::format().category(a@) != FpCategory::Nan && F32::format().category(b@)
            != FpCategory::Nan ==> {
            &&& (a.partial_cmp_spec(&b) == Some(Ordering::Less)) == (F32::format().signed_value(
                a@,
            ) < F32::format().signed_value(b@))
            &&& (a.partial_cmp_spec(&b) == Some(Ordering::Equal)) == (F32::format().signed_value(
                a@,
            ) == F32::format().signed_value(b@))
            &&& (a.partial_cmp_spec(&b) == Some(Ordering::Greater)) == (F32::format().signed_value(
                a@,
            ) > F32::format().signed_value(b@))
        },
        a.eq_spec(&b) == (a.partial_cmp_spec(&b) == Some(Ordering::Equal)),
{
    lemma_comparison_is_numeric_order(F32::format(), a@, b@);
}

/// Comparing two `F40` values gives the order of the numbers they stand
/// for, with the two zeros equal, and no order when either is NaN; two
/// values are equal exactly when that order is `Equal`.
pub proof fn lemma_f40_compares_numbers(a: F40, b: F40)
    ensures
        F40::obeys_partial_cmp_spec(),
        F40::obeys_eq_spec(),
        F40::format().category(a@) == FpCategory::Nan || F40::format().category(b@)
            == FpCategory::Nan ==> a.partial_cmp_spec(&b) is None,
        F40::format().category(a@) != FpCategory::Nan && F40::format().category(b@)
            != FpCategory::Nan ==> {
            &&& (a.partial_cmp_spec(&b) == Some(Ordering::Less)) == (F40::format().signed_value(
                a@,
            ) < F40::format().signed_value(b@))
            &&& (a.partial_cmp_spec(&b) == Some(Ordering::Equal)) == (F40::format().signed_value(
                a@,
            ) == F40::format().signed_value(b@))
            &&& (a.partial_cmp_spec(&b) == Some(Ordering::Greater)) == (F40::format().signed_value(
                a@,
            ) > F40::format().signed_value(b@))
        },
        a.eq_spec(&b) == (a.partial_cmp_spec(&b) == Some(Ordering::Equal)),
{
    lemma_comparison_is_numeric_order(F40::format(), a@, b@);
}

/// Comparing two `F48` values gives the order of the numbers they stand
/// for, with the two zeros equal, and no order when either is NaN; two
/// values are equal exactly when that order is `Equal`.
pub proof fn lemma_f48_compares_numbers(a: F48, b: F48)
    ensures
        F48::obeys_partial_cmp_spec(),
        F48::obeys_eq_spec(),
        F48::format().category(a@) == FpCategory::Nan || F48::format().category(b@)
            == FpCategory::Nan ==> a.partial_cmp_spec(&b) is None,
        F48::format().category(a@) != FpCategory::Nan && F48::format().category(b@)
            != FpCategory::Nan ==> {
            &&& (a.partial_cmp_spec(&b) == Some(Ordering::Less)) == (F48::format().signed_value(
                a@,
            ) < F48::format().signed_value(b@))
            &&& (a.partial_cmp_spec(&b) == Some(Ordering::Equal)) == (F48::format().signed_value(
                a@,
            ) == F48::format().signed_value(b@))
            &&& (a.partial_cmp_spec(&b) == Some(Ordering::Greater)) == (F48::format().signed_value(
                a@,
            ) > F48::format().signed_value(b@))
        },
        a.eq_spec(&b) == (a.partial_cmp_spec(&b) == Some(Ordering::Equal)),
{
    lemma_comparison_is_numeric_order(F48::format(), a@, b@);
}

/// Comparing two `F56` values gives the order of the numbers they stand
/// for, with the two zeros equal, and no order when either is NaN; two
/// values are equal exactly when that order is `Equal`.
pub proof fn lemma_f56_compares_numbers(a: F56, b: F56)
    ensures
        F56::obeys_partial_cmp_spec(),
        F56::obeys_eq_spec(),
        F56::format().category(a@) == FpCategory::Nan || F56::format().category(b@)
            == FpCategory::Nan ==> a.partial_cmp_spec(&b) is None,
        F56::format().category(a@) != FpCategory::Nan && F56::format().category(b@)
            != FpCategory::Nan ==> {
            &&& (a.partial_cmp_spec(&b) == Some(Ordering::Less)) == (F56::format().signed_value(
                a@,
            ) < F56::format().signed_value(b@))
            &&& (a.partial_cmp_spec(&b) == Some(Ordering::Equal)) == (F56::format().signed_value(
                a@,
            ) == F56::format().signed_value(b@))
            &&& (a.partial_cmp_spec(&b) == Some(Ordering::Greater)) == (F56::format().signed_value(
                a@,
            ) > F56::format().signed_value(b@))
        },
        a.eq_spec(&b) == (a.partial_cmp_spec(&b) == Some(Ordering::Equal)),
{
    lemma_comparison_is_numeric_order(F56::format(), a@, b@);
}

/// Comparing two `F64` values gives the order of the numbers they stand
/// for, with the two zeros equal, and no order when either is NaN; two
/// values are equal exactly when that order is `Equal`.
pub proof fn lemma_f64_compares_numbers(a: F64, b: F64)
    ensures
        F64::obeys_partial_cmp_spec(),
        F64::obeys_eq_spec(),
        F64::format().category(a@) == FpCategory::Nan || F64::format().category(b@)
            == FpCategory::Nan ==> a.partial_cmp_spec(&b) is None,
        F64::format().category(a@) != FpCategory::Nan && F64::format().category(b@)
            != FpCategory::Nan ==> {
            &&& (a.partial_cmp_spec(&b) == Some(Ordering::Less)) == (F64::format().signed_value(
                a@,
            ) < F64::format().signed_value(b@))
            &&& (a.partial_cmp_spec(&b) == Some(Ordering::Equal)) == (F64::format().signed_value(
                a@,
            ) == F64::format().signed_value(b@))
            &&& (a.partial_cmp_spec(&b) == Some(Ordering::Greater)) == (F64::format().signed_value(
                a@,
            ) > F64::format().signed_value(b@))
        },
        a.eq_spec(&b) == (a.partial_cmp_spec(&b) == Some(Ordering::Equal)),
{
    lemma_comparison_is_numeric_order(F64::format(), a@, b@);
}

} // verus!
