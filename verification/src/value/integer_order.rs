//! Ordering of integer values by the numbers they stand for.

use std::cmp::Ordering;

use vstd::prelude::*;
use vstd::std_specs::cmp::{PartialEqSpec, PartialOrdSpec};

use crate::value::integer::{int_order_of, IntOrder, IntValue, SignedIntValue, UnsignedIntValue};

verus! {

/// The ordering that the outcome of a comparison stands for.
pub open spec fn ordering_from(o: IntOrder) -> Ordering {
    match o {
        IntOrder::Less => Ordering::Less,
        IntOrder::Equal => Ordering::Equal,
        IntOrder::Greater => Ordering::Greater,
    }
}

/// Turns the outcome of a comparison into the ordering it stands for.
pub fn to_ordering(o: IntOrder) -> (r: Ordering)
    ensures
        r == ordering_from(o),
{
    match o {
        IntOrder::Less => Ordering::Less,
        IntOrder::Equal => Ordering::Equal,
        IntOrder::Greater => Ordering::Greater,
    }
}

impl PartialOrd for SignedIntValue {
    fn partial_cmp(&self, other: &Self) -> (r: Option<Ordering>) {
        Some(to_ordering(self.compare(other)))
    }
}

impl vstd::std_specs::cmp::PartialOrdSpecImpl for SignedIntValue {
    open spec fn obeys_partial_cmp_spec() -> bool {
        true
    }

    open spec fn partial_cmp_spec(&self, other: &Self) -> Option<Ordering> {
        Some(ordering_from(int_order_of(self.value(), other.value())))
    }
}

impl PartialOrd for UnsignedIntValue {
    fn partial_cmp(&self, other: &Self) -> (r: Option<Ordering>) {
        Some(to_ordering(self.compare(other)))
    }
}

impl vstd::std_specs::cmp::PartialOrdSpecImpl for UnsignedIntValue {
    open spec fn obeys_partial_cmp_spec() -> bool {
        true
    }

    open spec fn partial_cmp_spec(&self, other: &Self) -> Option<Ordering> {
        Some(ordering_from(int_order_of(self.value(), other.value())))
    }
}

impl PartialOrd for IntValue {
    fn partial_cmp(&self, other: &Self) -> (r: Option<Ordering>) {
        Some(to_ordering(self.compare(other)))
    }
}

impl vstd::std_specs::cmp::PartialOrdSpecImpl for IntValue {
    open spec fn obeys_partial_cmp_spec() -> bool {
        true
    }

    open spec fn partial_cmp_spec(&self, other: &Self) -> Option<Ordering> {
        Some(ordering_from(int_order_of(self.value(), other.value())))
    }
}

/// Integer values are totally ordered by the numbers they stand for, in
/// agreement with `==`: any two are comparable, they compare equal exactly
/// when `==` holds, and swapping them reverses the ordering.
pub proof fn lemma_int_value_order(a: IntValue, b: IntValue)
    ensures
        a.partial_cmp_spec(&b) is Some,
        (a.partial_cmp_spec(&b) == Some(Ordering::Equal)) == a.eq_spec(&b),
        (a.partial_cmp_spec(&b) == Some(Ordering::Less)) == (b.partial_cmp_spec(&a) == Some(
            Ordering::Greater,
        )),
        a.eq_spec(&b) == b.eq_spec(&a),
{
}

/// Ordering is transitive.
pub proof fn lemma_int_value_order_transitive(a: IntValue, b: IntValue, c: IntValue)
    requires
        a.partial_cmp_spec(&b) == Some(Ordering::Less),
        b.partial_cmp_spec(&c) == Some(Ordering::Less),
    ensures
        a.partial_cmp_spec(&c) == Some(Ordering::Less),
{
}

} // verus!
