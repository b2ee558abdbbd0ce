//! Filling the rest of a struct literal with `..Default::default()`.
use vstd::prelude::*;

verus! {

/// A struct whose default is not all zeros.
#[derive(Debug)]
pub struct Example {
    pub p0: i32,
    pub p1: i32,
    pub p2: String,
    pub p3: Option<i32>,
}

impl Default for Example {
    /// `p0` is -1, `p1` is 100, `p2` is "nice try" and `p3` is `Some(200)`.
    fn default() -> (e: Self)
        ensures
            e.p0 == -1,
            e.p1 == 100,
            e.p2@ == "nice try"@,
            e.p3 == Some(200i32),
    {
        Example { p0: -1, p1: 100, p2: String::from_str("nice try"), p3: Some(200) }
    }
}

} // verus!
