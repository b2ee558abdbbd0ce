//! A mutable borrow that ends when its user is consumed: the interface
//! borrows the list only for as long as the interface lives, not for as
//! long as the list's own contents live.
use vstd::prelude::*;

verus! {

/// Holds the text of a [`List`].
pub struct Manager<'a> {
    pub text: &'a str,
}

/// A mutable view of the manager of a [`List`].
pub struct Interface<'a, 'b: 'a> {
    pub manager: &'a mut Manager<'b>,
}

impl Interface<'_, '_> {
    /// Consumes the interface, which ends its borrow of the list.
    pub fn noop(self)
        ensures
            *final(self.manager) == *old(self.manager),
    {
    }
}

/// Owns a manager.
pub struct List<'a> {
    pub manager: Manager<'a>,
}

impl<'b> List<'b> {
    /// A view of the manager that borrows the list for `'c` only.
    pub fn get_interface<'c>(&'c mut self) -> (r: Interface<'c, 'b>)
        ensures
            *r.manager == old(self).manager,
            final(self).manager == *final(r.manager),
    {
        Interface { manager: &mut self.manager }
    }
}

/// The text that the list holds.
pub fn use_list<'a>(list: &List<'a>) -> (r: &'a str)
    ensures
        r == list.manager.text,
{
    list.manager.text
}

} // verus!
