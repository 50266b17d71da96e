//! The order of months: an earlier month is less than a later one.
use crate::month::Month;
use std::cmp::Ordering;
use vstd::prelude::*;
use vstd::std_specs::cmp::PartialOrdSpecImpl;

verus! {

impl PartialOrd for Month {
    fn partial_cmp(&self, other: &Month) -> (order: Option<Ordering>) {
        if self.year() < other.year() {
            Some(Ordering::Less)
        } else if self.year() > other.year() {
            Some(Ordering::Greater)
        } else if self.month_number() < other.month_number() {
            Some(Ordering::Less)
        } else if self.month_number() > other.month_number() {
            Some(Ordering::Greater)
        } else {
            Some(Ordering::Equal)
        }
    }
}

impl PartialOrdSpecImpl for Month {
    open spec fn obeys_partial_cmp_spec() -> bool {
        true
    }

    open spec fn partial_cmp_spec(&self, other: &Month) -> Option<Ordering> {
        if self@.precedes(other@) {
            Some(Ordering::Less)
        } else if other@.precedes(self@) {
            Some(Ordering::Greater)
        } else {
            Some(Ordering::Equal)
        }
    }
}

} // verus!
