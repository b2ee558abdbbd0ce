//! Lifetime annotations: a struct that borrows with two lifetimes, a
//! generic struct over an unsized borrowed type, and two classic cases where
//! a borrow lives longer than it should.
use vstd::prelude::*;

pub mod problem_lifetime_toolong_1;
pub mod problem_lifetime_toolong_2;

verus! {

/// Borrows an optional string slice; the slice may outlive the borrow of
/// the option.
pub struct Parser<'a, 'b: 'a> {
    pub context: &'a Option<&'b str>,
}

impl<'a, 'b: 'a> Parser<'a, 'b> {
    /// The borrowed option, with its own lifetime rather than that of
    /// `self`.
    pub fn parse(&self) -> (r: &'a Option<&'b str>)
        ensures
            *r == *self.context,
    {
        self.context
    }
}

/// Always an error: the string in `context`, or `"xxxxx"` when there is
/// none. The error outlives the borrow of `context`.
pub fn parse_context<'a, 'b: 'a>(context: &'a Option<&'b str>) -> (r: Result<(), &'b str>)
    ensures
        match *context {
            Some(v) => r == Err::<(), &str>(v),
            None => r matches Err(e) && e@ == "xxxxx"@,
        },
{
    let r = Parser { context }.parse();
    if let Some(v) = *r {
        return Err(v);
    }
    Err("xxxxx")
}

/// Borrows a value of a type that need not be sized.
pub struct Foo<'a, T: ?Sized + 'a> {
    pub s: &'a T,
}

/// Boxes a [`Foo`] that borrows `s`.
pub fn box_foo<T: ?Sized>(s: &T) -> (r: Box<Foo<T>>) where for <'a>T: 'a
    ensures
        r.s == s,
{
    Box::new(Foo { s })
}

} // verus!
