//! Ordering bill entries by time and by amount.
use vstd::prelude::*;

use crate::bill_item::BillItem;

verus! {

impl BillItem {
    /// Compares two entries by their start time.
    pub fn cmp_by_time(&self, other: &Self) -> (r: core::cmp::Ordering)
        ensures
            self.timestamp < other.timestamp ==> r == core::cmp::Ordering::Less,
            self.timestamp == other.timestamp ==> r == core::cmp::Ordering::Equal,
            self.timestamp > other.timestamp ==> r == core::cmp::Ordering::Greater,
    {
        if self.timestamp < other.timestamp {
            core::cmp::Ordering::Less
        } else if self.timestamp == other.timestamp {
            core::cmp::Ordering::Equal
        } else {
            core::cmp::Ordering::Greater
        }
    }

    /// Compares two entries by their amount.
    pub fn cmp_by_money(&self, other: &Self) -> (r: core::cmp::Ordering)
        ensures
            self.money_cents < other.money_cents ==> r == core::cmp::Ordering::Less,
            self.money_cents == other.money_cents ==> r == core::cmp::Ordering::Equal,
            self.money_cents > other.money_cents ==> r == core::cmp::Ordering::Greater,
    {
        if self.money_cents < other.money_cents {
            core::cmp::Ordering::Less
        } else if self.money_cents == other.money_cents {
            core::cmp::Ordering::Equal
        } else {
            core::cmp::Ordering::Greater
        }
    }
}

} // verus!
