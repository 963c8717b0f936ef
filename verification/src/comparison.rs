//! Comparing a variable byte integer with a plain number, by its value.

use std::cmp::Ordering;
use vstd::prelude::*;

use crate::parse::VarInt;

verus! {

impl PartialEq<usize> for VarInt {
    fn eq(&self, other: &usize) -> (r: bool) {
        self.value() == *other
    }
}

impl vstd::std_specs::cmp::PartialEqSpecImpl<usize> for VarInt {
    open spec fn obeys_eq_spec() -> bool {
        true
    }

    open spec fn eq_spec(&self, other: &usize) -> bool {
        self.spec_value() == *other
    }
}

impl PartialOrd<usize> for VarInt {
    fn partial_cmp(&self, other: &usize) -> (r: Option<Ordering>) {
        let v = self.value();
        if v < *other {
            Some(Ordering::Less)
        } else if v == *other {
            Some(Ordering::Equal)
        } else {
            Some(Ordering::Greater)
        }
    }
}

impl vstd::std_specs::cmp::PartialOrdSpecImpl<usize> for VarInt {
    open spec fn obeys_partial_cmp_spec() -> bool {
        true
    }

    open spec fn partial_cmp_spec(&self, other: &usize) -> Option<Ordering> {
        if self.spec_value() < *other {
            Some(Ordering::Less)
        } else if self.spec_value() == *other {
            Some(Ordering::Equal)
        } else {
            Some(Ordering::Greater)
        }
    }
}

} // verus!
