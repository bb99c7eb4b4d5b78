//! Values from integers and truth values.
use vstd::prelude::*;
use vstd::std_specs::convert::FromSpecImpl;
use crate::value::DialVal;

verus! {

impl From<i64> for DialVal {
    fn from(i: i64) -> (r: DialVal) {
        DialVal::Int(i)
    }
}

impl FromSpecImpl<i64> for DialVal {
    open spec fn obeys_from_spec() -> bool {
        true
    }

    open spec fn from_spec(i: i64) -> DialVal {
        DialVal::Int(i)
    }
}

impl From<bool> for DialVal {
    fn from(b: bool) -> (r: DialVal) {
        DialVal::Bool(b)
    }
}

impl FromSpecImpl<bool> for DialVal {
    open spec fn obeys_from_spec() -> bool {
        true
    }

    open spec fn from_spec(b: bool) -> DialVal {
        DialVal::Bool(b)
    }
}

} // verus!
