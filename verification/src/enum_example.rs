//! Replacing an enum in place through `&mut self`.
use vstd::prelude::*;

verus! {

/// Either a value or nothing.
#[derive(Debug, PartialEq)]
pub enum Wrapper<T> {
    Value(T),
    Empty,
}

impl<T> Wrapper<T> {
    /// Drops the value, if any; the wrapper is `Empty` afterwards.
    pub fn clear(&mut self)
        ensures
            *final(self) == Wrapper::<T>::Empty,
    {
        match self {
            Wrapper::Value(_) => {
                *self = Self::Empty;
            },
            _ => {},
        }
    }
}

} // verus!
