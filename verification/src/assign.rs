//! What a plain assignment `x = y;` does: the old value of `x` is dropped
//! and the value of `y` moves into `x`.
use vstd::prelude::*;

verus! {

/// A value with a name, so that one can tell which of two values survived
/// an assignment.
pub struct Data {
    pub name: &'static str,
    pub x: i32,
    pub y: [i64; 16],
}

/// Sixteen zeros, the `y` of every [`Data`] made here.
pub open spec fn zeros() -> Seq<i64> {
    Seq::new(16, |i: int| 0i64)
}

/// `zeros()` is sixteen zeros.
pub proof fn law_zeros()
    ensures
        zeros().len() == 16,
        forall|i: int| 0 <= i < 16 ==> #[trigger] zeros()[i] == 0,
{
}

/// Builds two values and assigns the second to the first; the result is the
/// second value.
pub fn test_assign() -> (d: Data)
    ensures
        d.name@ == "test_assign.y"@,
        d.x == 1,
        d.y@ == zeros(),
{
    let mut x = Data { name: "test_assign.x", x: 1, y: [0i64; 16] };
    let y = Data { name: "test_assign.y", x: 1, y: [0i64; 16] };
    x = y;
    assert(x.y@ =~= zeros());
    x
}

/// The same assignment spelled out: the value of `y` takes the place of
/// `x`, and the old value of `x` is dropped at the end of the scope.
pub fn test_ptr_assign() -> (d: Data)
    ensures
        d.name@ == "test_ptr_assign.y"@,
        d.x == 1,
        d.y@ == zeros(),
{
    let mut x = Data { name: "test_ptr_assign.x", x: 1, y: [0i64; 16] };
    let mut y = Data { name: "test_ptr_assign.y", x: 1, y: [0i64; 16] };
    std::mem::swap(&mut x, &mut y);
    assert(x.y@ =~= zeros());
    x
}

} // verus!
