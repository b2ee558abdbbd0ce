//! Mutable borrows of a cell's content: two mutable borrows taken one
//! after the other are fine, since the first has expired when the second
//! is made.
use vstd::prelude::*;

verus! {

/// Something to keep in a cell.
pub struct Goods(pub i32);

/// A cell that hands out mutable borrows of its content.
pub struct CustomCell<T> {
    container: T,
}

impl<T> CustomCell<T> {
    /// What the cell holds.
    pub closed spec fn content(&self) -> T {
        self.container
    }

    /// A cell that holds `o`.
    pub fn new(o: T) -> (c: CustomCell<T>)
        ensures
            c.content() == o,
    {
        CustomCell { container: o }
    }

    /// A mutable borrow of the content; what is written through it is what
    /// the cell holds afterwards.
    pub fn get_mut(&mut self) -> (r: &mut T)
        ensures
            *r == old(self).content(),
            final(self).content() == *final(r),
    {
        &mut self.container
    }
}

} // verus!
