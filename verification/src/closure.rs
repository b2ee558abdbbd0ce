//! A closure is a struct that captures what it uses; which of `FnOnce`,
//! `FnMut` and `Fn` it implements follows from how it uses the captures.
//! These methods take `self` by value, by `&mut` and by `&`, to be called
//! from closures of each kind.
use vstd::prelude::*;

verus! {

/// Two counters.
pub struct Foo(pub usize, pub usize);

impl Foo {
    /// Adds 100 to both counters and returns their new sum.
    pub fn wtf_mut(&mut self) -> (r: usize)
        requires
            old(self).0 + 100 + old(self).1 + 100 <= usize::MAX,
        ensures
            final(self).0 == old(self).0 + 100,
            final(self).1 == old(self).1 + 100,
            r == final(self).0 + final(self).1,
    {
        self.0 += 100;
        self.1 += 100;
        self.0 + self.1
    }

    /// Consumes the counters and returns their sum.
    pub fn wtf_once(self) -> (r: usize)
        requires
            self.0 + self.1 <= usize::MAX,
        ensures
            r == self.0 + self.1,
    {
        self.0 + self.1
    }

    /// The sum of the counters.
    pub fn wtf_fn(&self) -> (r: usize)
        requires
            self.0 + self.1 <= usize::MAX,
        ensures
            r == self.0 + self.1,
    {
        self.0 + self.1
    }
}

} // verus!
