//! Laws of the integer values: converting between signed and unsigned keeps
//! the number, and the width is the input's own or, where the number does
//! not fit it, the next wider one; equality and order are those of the
//! numbers, whatever the widths and signedness.

use std::cmp::Ordering;

use crate::value::integer::{IntValue, SignedIntValue, UnsignedIntValue};
use vstd::prelude::*;
use vstd::std_specs::cmp::{PartialEqSpec, PartialOrdSpec};

verus! {

impl SignedIntValue {
    /// The width of the value's type in bits.
    pub open spec fn bit_width(self) -> nat {
        match self {
            SignedIntValue::I8(_) => 8,
            SignedIntValue::I16(_) => 16,
            SignedIntValue::I32(_) => 32,
            SignedIntValue::I64(_) => 64,
        }
    }
}

impl UnsignedIntValue {
    /// The width of the value's type in bits.
    pub open spec fn bit_width(self) -> nat {
        match self {
            UnsignedIntValue::U8(_) => 8,
            UnsignedIntValue::U16(_) => 16,
            UnsignedIntValue::U32(_) => 32,
            UnsignedIntValue::U64(_) => 64,
        }
    }
}

/// The largest number a signed integer of `width` bits holds, for the
/// widths 8, 16, 32 and 64.
pub open spec fn signed_max(width: nat) -> int {
    if width == 8 {
        0x7f
    } else if width == 16 {
        0x7fff
    } else if width == 32 {
        0x7fff_ffff
    } else {
        0x7fff_ffff_ffff_ffff
    }
}

/// Converting an unsigned value to a signed one keeps the number; the
/// result has the input's width when the number fits a signed integer of
/// that width, and twice that width otherwise; only a 64-bit number above
/// `i64::MAX` has no signed value.
pub proof fn lemma_to_signed_width(u: UnsignedIntValue)
    ensures
        u.signed_of() is None <==> u.bit_width() == 64 && u.value() > signed_max(64),
        u.signed_of() matches Some(s) ==> s.value() == u.value(),
        u.signed_of() matches Some(s) ==> s.bit_width() == if u.value() <= signed_max(
            u.bit_width(),
        ) {
            u.bit_width()
        } else {
            2 * u.bit_width()
        },
{
}

/// Converting a signed value to an unsigned one keeps the number and the
/// width, and is possible exactly when the number is not negative.
pub proof fn lemma_to_unsigned_width(s: SignedIntValue)
    ensures
        s.unsigned_of() is Some <==> s.value() >= 0,
        s.unsigned_of() matches Some(u) ==> u.value() == s.value() && u.bit_width()
            == s.bit_width(),
{
}

/// Two `IntValue`s are equal exactly when they stand for the same number, and
/// ordered as the numbers they stand for.
pub proof fn lemma_int_values_compare_numbers(a: IntValue, b: IntValue)
    ensures
        IntValue::obeys_eq_spec(),
        IntValue::obeys_partial_cmp_spec(),
        a.eq_spec(&b) == (a.value() == b.value()),
        (a.partial_cmp_spec(&b) == Some(Ordering::Less)) == (a.value() < b.value()),
        (a.partial_cmp_spec(&b) == Some(Ordering::Equal)) == (a.value() == b.value()),
        (a.partial_cmp_spec(&b) == Some(Ordering::Greater)) == (a.value() > b.value()),
{
}

/// Two `SignedIntValue`s are equal exactly when they stand for the same number, and
/// ordered as the numbers they stand for.
pub proof fn lemma_signed_values_compare_numbers(a: SignedIntValue, b: SignedIntValue)
    ensures
        SignedIntValue::obeys_eq_spec(),
        SignedIntValue::obeys_partial_cmp_spec(),
        a.eq_spec(&b) == (a.value() == b.value()),
        (a.partial_cmp_spec(&b) == Some(Ordering::Less)) == (a.value() < b.value()),
        (a.partial_cmp_spec(&b) == Some(Ordering::Equal)) == (a.value() == b.value()),
        (a.partial_cmp_spec(&b) == Some(Ordering::Greater)) == (a.value() > b.value()),
{
}

/// Two `UnsignedIntValue`s are equal exactly when they stand for the same number, and
/// ordered as the numbers they stand for.
pub proof fn lemma_unsigned_values_compare_numbers(a: UnsignedIntValue, b: UnsignedIntValue)
    ensures
        UnsignedIntValue::obeys_eq_spec(),
        UnsignedIntValue::obeys_partial_cmp_spec(),
        a.eq_spec(&b) == (a.value() == b.value()),
        (a.partial_cmp_spec(&b) == Some(Ordering::Less)) == (a.value() < b.value()),
        (a.partial_cmp_spec(&b) == Some(Ordering::Equal)) == (a.value() == b.value()),
        (a.partial_cmp_spec(&b) == Some(Ordering::Greater)) == (a.value() > b.value()),
{
}

} // verus!
