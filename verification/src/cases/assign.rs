//! Both spellings of an assignment, side by side.
use vstd::prelude::*;
use crate::assign::{test_assign, test_ptr_assign};

verus! {

/// Runs both spellings of an assignment; each leaves the second value.
pub fn example() {
    let a = test_assign();
    let b = test_ptr_assign();
}

} // verus!
