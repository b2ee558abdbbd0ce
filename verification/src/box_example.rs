//! `Box` and `Cell`: a `Box` needs to be `mut` to change what it holds, a
//! `Cell` does not, but only a `Copy` content can be read out of a `Cell`.
use vstd::prelude::*;

verus! {

/// A struct that is not `Copy`, so that a `Cell` of it can only be moved or
/// borrowed mutably.
pub struct NoCopyFoo {
    pub x: usize,
    pub y: usize,
}

} // verus!
