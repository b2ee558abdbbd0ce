//! Documentation comments: on modules, on items, with examples and aliases.
use vstd::prelude::*;

verus! {

/// A function that does nothing; it exists to be linked to from other
/// documentation.
pub fn example_func2() {
}

/// A function that does nothing; its documentation shows how to give an
/// item search aliases:
///
/// ```
/// #[doc(alias = "x")]
/// #[doc(alias = "big")]
/// pub struct BigX;
///
/// #[doc(alias("y", "big"))]
/// pub struct BigY;
/// ```
pub fn example_func4() {
}

} // verus!
