//! `==` on values.
use vstd::prelude::*;
use vstd::std_specs::cmp::PartialEqSpecImpl;
use crate::value::{equal_model, DialVal};

verus! {

impl PartialEq for DialVal {
    fn eq(&self, other: &DialVal) -> (r: bool) {
        self.equals(other)
    }
}

impl PartialEqSpecImpl for DialVal {
    open spec fn obeys_eq_spec() -> bool {
        true
    }

    open spec fn eq_spec(&self, other: &DialVal) -> bool {
        equal_model(self@, other@)
    }
}

} // verus!
