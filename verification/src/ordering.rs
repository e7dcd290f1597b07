//! Comparison of float bit patterns: numeric ordering with NaN unordered
//! and both zeros equal, computed on the integer representation.

use std::cmp::Ordering;

use vstd::prelude::*;
use vstd::std_specs::cmp::{PartialEqSpecImpl, PartialOrdSpecImpl};

use crate::bits::FpToBits;
use crate::floats::{F16, F24, F32, F40, F48, F56, F64, F8};
use crate::format::BitsOrder;
use crate::repr::FpRepr;

verus! {

/// The ordering that a comparison of bit patterns stands for.
pub open spec fn ordering_of(c: BitsOrder) -> Option<Ordering> {
    match c {
        BitsOrder::Unordered => None,
        BitsOrder::Less => Some(Ordering::Less),
        BitsOrder::Equal => Some(Ordering::Equal),
        BitsOrder::Greater => Some(Ordering::Greater),
    }
}

/// Turns a comparison of bit patterns into the ordering it stands for.
pub fn to_ordering(c: BitsOrder) -> (r: Option<Ordering>)
    ensures
        r == ordering_of(c),
{
    match c {
        BitsOrder::Unordered => None,
        BitsOrder::Less => Some(Ordering::Less),
        BitsOrder::Equal => Some(Ordering::Equal),
        BitsOrder::Greater => Some(Ordering::Greater),
    }
}

impl PartialEq for F8 {
    fn eq(&self, other: &Self) -> (r: bool) {
        match self.partial_cmp(other) {
            Some(Ordering::Equal) => true,
            _ => false,
        }
    }
}

impl PartialEqSpecImpl for F8 {
    open spec fn obeys_eq_spec() -> bool {
        true
    }

    open spec fn eq_spec(&self, other: &Self) -> bool {
        Self::format().comparison(self@, other@) == BitsOrder::Equal
    }
}

impl PartialOrd for F8 {
    fn partial_cmp(&self, other: &Self) -> (r: Option<Ordering>) {
        let lhs = self.to_bits();
        let rhs = other.to_bits();
        proof {
            vstd::arithmetic::power2::lemma2_to64();
            vstd::arithmetic::power2::lemma2_to64_rest();
        }
        to_ordering(F8::layout().compare_bits(u64::from(lhs), u64::from(rhs)))
    }
}

impl PartialOrdSpecImpl for F8 {
    open spec fn obeys_partial_cmp_spec() -> bool {
        true
    }

    open spec fn partial_cmp_spec(&self, other: &Self) -> Option<Ordering> {
        ordering_of(Self::format().comparison(self@, other@))
    }
}

impl PartialEq for F16 {
    fn eq(&self, other: &Self) -> (r: bool) {
        match self.partial_cmp(other) {
            Some(Ordering::Equal) => true,
            _ => false,
        }
    }
}

impl PartialEqSpecImpl for F16 {
    open spec fn obeys_eq_spec() -> bool {
        true
    }

    open spec fn eq_spec(&self, other: &Self) -> bool {
        Self::format().comparison(self@, other@) == BitsOrder::Equal
    }
}

impl PartialOrd for F16 {
    fn partial_cmp(&self, other: &Self) -> (r: Option<Ordering>) {
        let lhs = self.to_bits();
        let rhs = other.to_bits();
        proof {
            vstd::arithmetic::power2::lemma2_to64();
            vstd::arithmetic::power2::lemma2_to64_rest();
        }
        to_ordering(F16::layout().compare_bits(u64::from(lhs), u64::from(rhs)))
    }
}

impl PartialOrdSpecImpl for F16 {
    open spec fn obeys_partial_cmp_spec() -> bool {
        true
    }

    open spec fn partial_cmp_spec(&self, other: &Self) -> Option<Ordering> {
        ordering_of(Self::format().comparison(self@, other@))
    }
}

impl PartialEq for F24 {
    fn eq(&self, other: &Self) -> (r: bool) {
        match self.partial_cmp(other) {
            Some(Ordering::Equal) => true,
            _ => false,
        }
    }
}

impl PartialEqSpecImpl for F24 {
    open spec fn obeys_eq_spec() -> bool {
        true
    }

    open spec fn eq_spec(&self, other: &Self) -> bool {
        Self::format().comparison(self@, other@) == BitsOrder::Equal
    }
}

impl PartialOrd for F24 {
    fn partial_cmp(&self, other: &Self) -> (r: Option<Ordering>) {
        let lhs = self.to_bits();
        let rhs = other.to_bits();
        proof {
            vstd::arithmetic::power2::lemma2_to64();
            vstd::arithmetic::power2::lemma2_to64_rest();
        }
        to_ordering(F24::layout().compare_bits(u64::from(lhs), u64::from(rhs)))
    }
}

impl PartialOrdSpecImpl for F24 {
    open spec fn obeys_partial_cmp_spec() -> bool {
        true
    }

    open spec fn partial_cmp_spec(&self, other: &Self) -> Option<Ordering> {
        ordering_of(Self::format().comparison(self@, other@))
    }
}

impl PartialEq for F32 {
    fn eq(&self, other: &Self) -> (r: bool) {
        match self.partial_cmp(other) {
            Some(Ordering::Equal) => true,
            _ => false,
        }
    }
}

impl PartialEqSpecImpl for F32 {
    open spec fn obeys_eq_spec() -> bool {
        true
    }

    open spec fn eq_spec(&self, other: &Self) -> bool {
        Self::format().comparison(self@, other@) == BitsOrder::Equal
    }
}

impl PartialOrd for F32 {
    fn partial_cmp(&self, other: &Self) -> (r: Option<Ordering>) {
        let lhs = self.to_bits();
        let rhs = other.to_bits();
        proof {
            vstd::arithmetic::power2::lemma2_to64();
            vstd::arithmetic::power2::lemma2_to64_rest();
        }
        to_ordering(F32::layout().compare_bits(u64::from(lhs), u64::from(rhs)))
    }
}

impl PartialOrdSpecImpl for F32 {
    open spec fn obeys_partial_cmp_spec() -> bool {
        true
    }

    open spec fn partial_cmp_spec(&self, other: &Self) -> Option<Ordering> {
        ordering_of(Self::format().comparison(self@, other@))
    }
}

impl PartialEq for F40 {
    fn eq(&self, other: &Self) -> (r: bool) {
        match self.partial_cmp(other) {
            Some(Ordering::Equal) => true,
            _ => false,
        }
    }
}

impl PartialEqSpecImpl for F40 {
    open spec fn obeys_eq_spec() -> bool {
        true
    }

    open spec fn eq_spec(&self, other: &Self) -> bool {
        Self::format().comparison(self@, other@) == BitsOrder::Equal
    }
}

impl PartialOrd for F40 {
    fn partial_cmp(&self, other: &Self) -> (r: Option<Ordering>) {
        let lhs = self.to_bits();
        let rhs = other.to_bits();
        proof {
            vstd::arithmetic::power2::lemma2_to64();
            vstd::arithmetic::power2::lemma2_to64_rest();
        }
        to_ordering(F40::layout().compare_bits(lhs, rhs))
    }
}

impl PartialOrdSpecImpl for F40 {
    open spec fn obeys_partial_cmp_spec() -> bool {
        true
    }

    open spec fn partial_cmp_spec(&self, other: &Self) -> Option<Ordering> {
        ordering_of(Self::format().comparison(self@, other@))
    }
}

impl PartialEq for F48 {
    fn eq(&self, other: &Self) -> (r: bool) {
        match self.partial_cmp(other) {
            Some(Ordering::Equal) => true,
            _ => false,
        }
    }
}

impl PartialEqSpecImpl for F48 {
    open spec fn obeys_eq_spec() -> bool {
        true
    }

    open spec fn eq_spec(&self, other: &Self) -> bool {
        Self::format().comparison(self@, other@) == BitsOrder::Equal
    }
}

impl PartialOrd for F48 {
    fn partial_cmp(&self, other: &Self) -> (r: Option<Ordering>) {
        let lhs = self.to_bits();
        let rhs = other.to_bits();
        proof {
            vstd::arithmetic::power2::lemma2_to64();
            vstd::arithmetic::power2::lemma2_to64_rest();
        }
        to_ordering(F48::layout().compare_bits(lhs, rhs))
    }
}

impl PartialOrdSpecImpl for F48 {
    open spec fn obeys_partial_cmp_spec() -> bool {
        true
    }

    open spec fn partial_cmp_spec(&self, other: &Self) -> Option<Ordering> {
        ordering_of(Self::format().comparison(self@, other@))
    }
}

impl PartialEq for F56 {
    fn eq(&self, other: &Self) -> (r: bool) {
        match self.partial_cmp(other) {
            Some(Ordering::Equal) => true,
            _ => false,
        }
    }
}

impl PartialEqSpecImpl for F56 {
    open spec fn obeys_eq_spec() -> bool {
        true
    }

    open spec fn eq_spec(&self, other: &Self) -> bool {
        Self::format().comparison(self@, other@) == BitsOrder::Equal
    }
}

impl PartialOrd for F56 {
    fn partial_cmp(&self, other: &Self) -> (r: Option<Ordering>) {
        let lhs = self.to_bits();
        let rhs = other.to_bits();
        proof {
            vstd::arithmetic::power2::lemma2_to64();
            vstd::arithmetic::power2::lemma2_to64_rest();
        }
        to_ordering(F56::layout().compare_bits(lhs, rhs))
    }
}

impl PartialOrdSpecImpl for F56 {
    open spec fn obeys_partial_cmp_spec() -> bool {
        true
    }

    open spec fn partial_cmp_spec(&self, other: &Self) -> Option<Ordering> {
        ordering_of(Self::format().comparison(self@, other@))
    }
}

impl PartialEq for F64 {
    fn eq(&self, other: &Self) -> (r: bool) {
        match self.partial_cmp(other) {
            Some(Ordering::Equal) => true,
            _ => false,
        }
    }
}

impl PartialEqSpecImpl for F64 {
    open spec fn obeys_eq_spec() -> bool {
        true
    }

    open spec fn eq_spec(&self, other: &Self) -> bool {
        Self::format().comparison(self@, other@) == BitsOrder::Equal
    }
}

impl PartialOrd for F64 {
    fn partial_cmp(&self, other: &Self) -> (r: Option<Ordering>) {
        let lhs = self.to_bits();
        let rhs = other.to_bits();
        proof {
            vstd::arithmetic::power2::lemma2_to64();
            vstd::arithmetic::power2::lemma2_to64_rest();
        }
        to_ordering(F64::layout().compare_bits(lhs, rhs))
    }
}

impl PartialOrdSpecImpl for F64 {
    open spec fn obeys_partial_cmp_spec() -> bool {
        true
    }

    open spec fn partial_cmp_spec(&self, other: &Self) -> Option<Ordering> {
        ordering_of(Self::format().comparison(self@, other@))
    }
}

} // verus!
