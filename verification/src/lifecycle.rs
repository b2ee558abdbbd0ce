//! A mutable borrow that lives too long: `get_interface` ties the borrow of
//! the list to the lifetime of the list's own contents, so the list stays
//! borrowed after the interface is gone. The parser and the boxed borrow of
//! [`crate::lifetime`] are shown here as well.
use vstd::prelude::*;

pub use crate::lifetime::{box_foo, parse_context, Foo, Parser};

verus! {

/// Holds the text of a [`List`].
pub struct Manager<'a> {
    pub text: &'a str,
}

/// A mutable view of the manager of a [`List`], borrowed for as long as the
/// manager's text lives.
pub struct Interface<'a> {
    pub manager: &'a mut Manager<'a>,
}

impl Interface<'_> {
    /// Consumes the interface; the borrow of the list does not end with it.
    pub fn noop(self)
        ensures
            *final(self.manager) == *old(self.manager),
    {
    }
}

/// Owns a manager.
pub struct List<'a> {
    pub manager: Manager<'a>,
}

impl<'a> List<'a> {
    /// A view of the manager that borrows the list for all of `'a`.
    pub fn get_interface(&'a mut self) -> (r: Interface<'a>)
        ensures
            *r.manager == old(self).manager,
            final(self).manager == *final(r.manager),
    {
        Interface { manager: &mut self.manager }
    }
}

/// The text that the list holds.
pub fn use_list<'a>(list: &List<'a>) -> (r: &'a str)
    ensures
        r == list.manager.text,
{
    list.manager.text
}

} // verus!
