//! A growable vector with its own capacity policy.
//!
//! | Method    | Doc                            |
//! |-----------|--------------------------------|
//! | push      | append to tail                 |
//! | pop       | remove and return last element |
//! | cap       | the reserved room              |
//! | len       | the number of elements         |
//! | into_iter | iterate by reference           |
//!
//! The capacity starts at 0, becomes 4 on the first push, and doubles
//! whenever a push finds the vector full.
use vstd::prelude::*;
use vstd::arithmetic::power::pow;
use vstd::arithmetic::power2::{lemma_pow2, lemma_pow2_unfold, pow2};

verus! {

/// The capacity that a push leaves behind, given the capacity `cap` and the
/// length `len` before it: 4 when nothing was reserved, twice as much when
/// the vector was full, and unchanged otherwise.
pub open spec fn grown_capacity(cap: nat, len: nat) -> nat {
    if cap == 0 {
        4
    } else if cap == len {
        cap * 2
    } else {
        cap
    }
}

/// `cap` is one of the capacities that growing from nothing reaches: 4, 8,
/// 16, and so on.
pub open spec fn reachable_capacity(cap: nat) -> bool
    decreases cap,
{
    if cap <= 4 {
        cap == 4
    } else {
        cap % 2 == 0 && reachable_capacity(cap / 2)
    }
}

/// The reachable capacities are exactly 4 times a power of two.
pub proof fn lemma_reachable_capacity_is_four_times_power_of_two(cap: nat)
    requires
        reachable_capacity(cap),
    ensures
        exists|k: nat| cap == 4 * pow2(k),
    decreases cap,
{
    if cap <= 4 {
        lemma_pow2(0);
        assert(pow(2, 0) == 1) by {
            reveal(pow);
        }
        assert(cap == 4 * pow2(0));
    } else {
        lemma_reachable_capacity_is_four_times_power_of_two(cap / 2);
        let k = choose|k: nat| cap / 2 == 4 * pow2(k);
        lemma_pow2_unfold(k + 1);
        assert(cap == 4 * pow2(k + 1));
    }
}

/// Popping right after pushing `x` gives `x` back and leaves the elements as
/// they were: the back of a vector is a stack.
pub proof fn lemma_push_then_pop<T>(s: Seq<T>, x: T)
    ensures
        s.push(x).len() > 0,
        s.push(x).last() == x,
        s.push(x).drop_last() == s,
{
    assert(s.push(x).drop_last() =~= s);
}

/// A push leaves room for the element it adds, never gives room back, and
/// keeps the capacity at 0 or 4 times a power of two.
pub proof fn lemma_grown_capacity(cap: nat, len: nat)
    requires
        len <= cap,
        cap == 0 || reachable_capacity(cap),
    ensures
        grown_capacity(cap, len) > len,
        grown_capacity(cap, len) >= cap,
        reachable_capacity(grown_capacity(cap, len)),
{
    if cap > 0 && cap == len {
        assert((cap * 2) / 2 == cap);
    }
}

/// The first push into a vector with nothing reserved reserves room for
/// exactly four elements.
pub proof fn law_first_push_reserves_four()
    ensures
        grown_capacity(0, 0) == 4,
{
}

/// A push that finds the vector full (and something reserved) leaves
/// exactly twice the old capacity.
pub proof fn law_full_push_doubles(cap: nat)
    requires
        cap > 0,
    ensures
        grown_capacity(cap, cap) == 2 * cap,
{
}

/// A push that finds room left leaves the capacity as it was.
pub proof fn law_push_with_room_keeps_capacity(cap: nat, len: nat)
    requires
        len < cap,
    ensures
        grown_capacity(cap, len) == cap,
{
}

/// Counting the pushes from an empty vector: after `n` pushes (with no pop
/// between them) the capacity is the least of 4, 8, 16, ... that holds `n`
/// elements; in particular it never exceeds twice the length once past 4.
pub proof fn law_capacity_after_pushes(cap: nat, len: nat)
    requires
        len <= cap,
        cap == 0 ==> len == 0,
        cap > 4 ==> 2 * len > cap,
    ensures
        grown_capacity(cap, len) > 4 ==> 2 * (len + 1) > grown_capacity(cap, len),
        grown_capacity(cap, len) >= len + 1,
{
}

/// A push can grow the capacity without overflowing a `usize`.
pub open spec fn can_grow(cap: nat, len: nat) -> bool {
    grown_capacity(cap, len) <= usize::MAX
}

/// A vector of `T` that reserves room in steps of its own choosing.
pub struct Vector<T> {
    data: Vec<T>,
    cap: usize,
}

impl<T> View for Vector<T> {
    type V = Seq<T>;

    /// The elements, in order.
    closed spec fn view(&self) -> Seq<T> {
        self.data@
    }
}

impl<T> Vector<T> {
    /// The room that the vector has reserved.
    pub closed spec fn capacity(&self) -> nat {
        self.cap as nat
    }

    /// The elements fit in the reserved room, and the room is one that the
    /// growth policy reaches.
    pub closed spec fn well_formed(&self) -> bool {
        &&& self.data@.len() <= self.cap
        &&& self.cap == 0 || reachable_capacity(self.cap as nat)
    }

    /// What `well_formed` keeps: the elements fit in the capacity, which is
    /// 0 or 4 times a power of two.
    pub proof fn lemma_room(&self)
        requires
            self.well_formed(),
        ensures
            self@.len() <= self.capacity(),
            self.capacity() == 0 || reachable_capacity(self.capacity()),
            self.capacity() == 0 || exists|k: nat| self.capacity() == 4 * pow2(k),
    {
        if self.cap > 0 {
            lemma_reachable_capacity_is_four_times_power_of_two(self.cap as nat);
        }
    }

    /// An empty vector with nothing reserved.
    pub fn new() -> (v: Vector<T>)
        ensures
            v.well_formed(),
            v@ == Seq::<T>::empty(),
            v.capacity() == 0,
    {
        Vector { data: Vec::new(), cap: 0 }
    }

    /// The number of elements.
    pub fn len(&self) -> (n: usize)
        ensures
            n == self@.len(),
    {
        self.data.len()
    }

    /// The reserved room.
    pub fn cap(&self) -> (c: usize)
        ensures
            c == self.capacity(),
    {
        self.cap
    }

    /// Makes room for one more element, following the growth policy.
    fn check_grow(&mut self)
        requires
            old(self).well_formed(),
            can_grow(old(self).capacity(), old(self)@.len()),
        ensures
            final(self)@ == old(self)@,
            final(self).capacity() == grown_capacity(old(self).capacity(), old(self)@.len()),
            final(self).well_formed(),
            final(self)@.len() < final(self).capacity(),
    {
        proof {
            lemma_grown_capacity(self.cap as nat, self.data@.len());
        }
        if self.cap == 0 {
            self.data.reserve(4);
            self.cap = 4;
        } else if self.cap == self.data.len() {
            let new_cap = self.cap * 2;
            self.data.reserve(new_cap - self.data.len());
            self.cap = new_cap;
        }
    }

    /// A reference to the element at `idx`.
    pub fn get_ref(&self, idx: usize) -> (r: &T)
        requires
            idx < self@.len(),
        ensures
            *r == self@[idx as int],
    {
        &self.data[idx]
    }

    /// A mutable reference to the element at `idx`; what is written through
    /// it lands at `idx`.
    pub fn get_mut_ref(&mut self, idx: usize) -> (r: &mut T)
        requires
            idx < old(self)@.len(),
        ensures
            *r == old(self)@[idx as int],
            final(self)@ == old(self)@.update(idx as int, *final(r)),
            final(self).capacity() == old(self).capacity(),
            final(self).well_formed() == old(self).well_formed(),
    {
        &mut self.data[idx]
    }

    /// Appends `ele`, growing the capacity first when needed.
    pub fn push(&mut self, ele: T)
        requires
            old(self).well_formed(),
            can_grow(old(self).capacity(), old(self)@.len()),
        ensures
            final(self).well_formed(),
            final(self)@ == old(self)@.push(ele),
            final(self).capacity() == grown_capacity(old(self).capacity(), old(self)@.len()),
            final(self)@.len() <= final(self).capacity(),
    {
        self.check_grow();
        self.data.push(ele);
    }

    /// Removes and returns the last element, or `None` when empty; the
    /// capacity stays.
    pub fn pop(&mut self) -> (r: Option<T>)
        requires
            old(self).well_formed(),
        ensures
            final(self).well_formed(),
            final(self).capacity() == old(self).capacity(),
            final(self)@.len() <= final(self).capacity(),
            old(self)@.len() == 0 ==> r is None && final(self)@ == old(self)@,
            old(self)@.len() > 0 ==> r == Some(old(self)@.last()) && final(self)@
                == old(self)@.drop_last(),
    {
        self.data.pop()
    }

    /// The elements as a slice.
    pub fn as_slice(&self) -> (s: &[T])
        ensures
            s@ == self@,
    {
        self.data.as_slice()
    }

    /// An iterator over references to the elements, in order.
    pub fn into_iter(&self) -> (it: VectorIter<'_, T>)
        ensures
            it.valid(),
            it.remaining() == self@,
    {
        let it = VectorIter { vec: self, begin: 0, end: self.data.len() };
        assert(it.remaining() =~= self@);
        it
    }
}

/// Walks a [`Vector`] from its first element to its last.
pub struct VectorIter<'a, T> {
    vec: &'a Vector<T>,
    begin: usize,
    end: usize,
}

impl<'a, T> VectorIter<'a, T> {
    /// The cursor lies within the vector.
    pub closed spec fn valid(&self) -> bool {
        self.begin <= self.end == self.vec@.len()
    }

    /// The elements that the iterator has yet to hand out.
    pub closed spec fn remaining(&self) -> Seq<T> {
        self.vec@.subrange(self.begin as int, self.end as int)
    }

    /// The next element, or `None` at the end.
    pub fn next(&mut self) -> (r: Option<&'a T>)
        requires
            old(self).valid(),
        ensures
            final(self).valid(),
            old(self).remaining().len() == 0 ==> r is None && final(self).remaining()
                == old(self).remaining(),
            old(self).remaining().len() > 0 ==> r == Some(&old(self).remaining()[0])
                && final(self).remaining() == old(self).remaining().drop_first(),
    {
        if self.begin == self.end {
            None
        } else {
            let vec = self.vec;
            let out = &vec.data[self.begin];
            self.begin = self.begin + 1;
            assert(self.remaining() =~= old(self).remaining().drop_first());
            Some(out)
        }
    }
}

} // verus!
