//! A function defined in a block shadows a function of the same name
//! from the enclosing module; this is the module-level one.
use vstd::prelude::*;

verus! {

/// The module-level `wtf`: always 1.
pub fn wtf() -> (r: u8)
    ensures
        r == 1,
{
    1
}

} // verus!
