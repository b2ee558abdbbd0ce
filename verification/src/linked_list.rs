//! A doubly linked list.
//!
//! The nodes live in an arena (`slots`) and point at each other by slot
//! number, so the list needs no raw pointers. The arena is kept dense: when a
//! node leaves the list, the node in the last slot moves into its place and
//! its neighbours are re-pointed. Two ghost sequences record, for every list
//! position, the slot that holds it (`order`), and for every slot, its list
//! position (`pos`).
use vstd::prelude::*;

verus! {

/// One node of a [`LinkedList`]: the value, and the slots of its neighbours.
#[derive(Debug)]
pub struct Entry<T> {
    pub value: T,
    next: Option<usize>,
    prev: Option<usize>,
}

impl<T> Entry<T> {
    /// The value that the entry holds.
    pub closed spec fn val(&self) -> T {
        self.value
    }

    /// The entry is linked to no other node.
    pub closed spec fn is_detached(&self) -> bool {
        self.next is None && self.prev is None
    }

    /// A reference to the value that the entry holds.
    pub fn value(&self) -> (r: &T)
        ensures
            *r == self.val(),
    {
        &self.value
    }

    /// A node that holds `v` and is linked to nothing.
    pub fn new(v: T) -> (e: Self)
        ensures
            e.val() == v,
            e.is_detached(),
    {
        Entry { value: v, next: None, prev: None }
    }
}

/// The slot before position `i` in `order`, if any.
spec fn prev_slot(order: Seq<usize>, i: int) -> Option<usize> {
    if i == 0 {
        None
    } else {
        Some(order[i - 1])
    }
}

/// The slot after position `i` in `order`, if any.
spec fn next_slot(order: Seq<usize>, i: int) -> Option<usize> {
    if i + 1 == order.len() {
        None
    } else {
        Some(order[i + 1])
    }
}

/// The first slot of `order`, if any.
spec fn first_slot(order: Seq<usize>) -> Option<usize> {
    if order.len() == 0 {
        None
    } else {
        Some(order[0])
    }
}

/// The last slot of `order`, if any.
spec fn last_slot(order: Seq<usize>) -> Option<usize> {
    if order.len() == 0 {
        None
    } else {
        Some(order[order.len() - 1])
    }
}

/// A doubly linked list with `O(1)` insertion at the back and removal at
/// both ends.
pub struct LinkedList<T> {
    slots: Vec<Entry<T>>,
    head: Option<usize>,
    last: Option<usize>,
    order: Ghost<Seq<usize>>,
    pos: Ghost<Seq<int>>,
}

impl<T> View for LinkedList<T> {
    type V = Seq<T>;

    /// The values of the list, from the head to the last node.
    closed spec fn view(&self) -> Seq<T> {
        values(self.slots@, self.order@)
    }
}

/// Every position of `order` names a slot of `slots`.
spec fn in_bounds<T>(slots: Seq<Entry<T>>, order: Seq<usize>) -> bool {
    forall|i: int| 0 <= i < order.len() ==> #[trigger] order[i] < slots.len()
}

/// The node at position `i` of `order` points at its neighbours in `order`.
spec fn linked_at<T>(slots: Seq<Entry<T>>, order: Seq<usize>, i: int) -> bool {
    let s = order[i] as int;
    &&& slots[s].prev == prev_slot(order, i)
    &&& slots[s].next == next_slot(order, i)
}

/// The links between the nodes, and the head and last pointers, follow
/// `order`.
spec fn links_ok<T>(
    slots: Seq<Entry<T>>,
    order: Seq<usize>,
    head: Option<usize>,
    last: Option<usize>,
) -> bool {
    &&& in_bounds(slots, order)
    &&& forall|i: int| 0 <= i < order.len() ==> #[trigger] linked_at(slots, order, i)
    &&& head == first_slot(order)
    &&& last == last_slot(order)
}

/// `order` and `pos` are inverse bijections between the positions and the
/// slots `0..n`.
spec fn inverse(order: Seq<usize>, pos: Seq<int>, n: int) -> bool {
    &&& order.len() == n
    &&& pos.len() == n
    &&& forall|i: int| 0 <= i < n ==> #[trigger] order[i] < n && pos[order[i] as int] == i
    &&& forall|s: int| 0 <= s < n ==> 0 <= #[trigger] pos[s] < n && order[pos[s]] == s
}

/// The values that the slots of `order` hold, in order.
spec fn values<T>(slots: Seq<Entry<T>>, order: Seq<usize>) -> Seq<T> {
    Seq::new(order.len(), |i: int| slots[order[i] as int].value)
}

/// `o` names slot `s`.
spec fn is_slot(o: Option<usize>, s: int) -> bool {
    o matches Some(a) && a as int == s
}

/// `s`, with the slot number `from` renamed to `to`.
spec fn rename(s: usize, from: usize, to: usize) -> usize {
    if s == from {
        to
    } else {
        s
    }
}

/// Unlinking the node at position `p` (slot `idx`) from its neighbours
/// leaves a list whose order is the old one without position `p`.
proof fn lemma_unlink_links<T>(
    slots0: Seq<Entry<T>>,
    order0: Seq<usize>,
    pos0: Seq<int>,
    head0: Option<usize>,
    last0: Option<usize>,
    p: int,
    slots1: Seq<Entry<T>>,
    head1: Option<usize>,
    last1: Option<usize>,
)
    requires
        links_ok(slots0, order0, head0, last0),
        inverse(order0, pos0, slots0.len() as int),
        0 <= p < order0.len(),
        slots1.len() == slots0.len(),
        forall|s: int|
            0 <= s < slots0.len() ==> {
                &&& (#[trigger] slots1[s]).value == slots0[s].value
                &&& slots1[s].prev == if is_slot(next_slot(order0, p), s) {
                    prev_slot(order0, p)
                } else {
                    slots0[s].prev
                }
                &&& slots1[s].next == if is_slot(prev_slot(order0, p), s) {
                    next_slot(order0, p)
                } else {
                    slots0[s].next
                }
            },
        head1 == if prev_slot(order0, p) is None {
            next_slot(order0, p)
        } else {
            head0
        },
        last1 == if next_slot(order0, p) is None {
            prev_slot(order0, p)
        } else {
            last0
        },
    ensures
        links_ok(slots1, order0.remove(p), head1, last1),
        values(slots1, order0.remove(p)) == values(slots0, order0).remove(p),
        forall|j: int|
            0 <= j < order0.len() - 1 ==> #[trigger] order0.remove(p)[j] != order0[p]
                && pos0[order0.remove(p)[j] as int] == if j < p {
                j
            } else {
                j + 1
            },
{
    let n = order0.len() as int;
    let order1 = order0.remove(p);
    assert forall|j: int| #![trigger order1[j]] 0 <= j < n - 1 implies {
        &&& order1[j] < slots1.len()
        &&& linked_at(slots1, order1, j)
        &&& order1[j] != order0[p]
        &&& pos0[order1[j] as int] == if j < p {
            j
        } else {
            j + 1
        }
    } by {
        let k = if j < p {
            j
        } else {
            j + 1
        };
        assert(order1[j] == order0[k]);
        assert(linked_at(slots0, order0, k));
        assert(pos0[order0[k] as int] == k);
        assert(pos0[order0[p] as int] == p);
        assert(slots1[order0[k] as int].value == slots0[order0[k] as int].value);
        if j > 0 {
            let k1 = if j - 1 < p {
                j - 1
            } else {
                j
            };
            assert(order1[j - 1] == order0[k1]);
        }
        if j + 1 < n - 1 {
            let k2 = if j + 1 < p {
                j + 1
            } else {
                j + 2
            };
            assert(order1[j + 1] == order0[k2]);
        }
        if p > 0 {
            assert(linked_at(slots0, order0, p - 1));
            assert(pos0[order0[p - 1] as int] == p - 1);
        }
        if p + 1 < n {
            assert(linked_at(slots0, order0, p + 1));
            assert(pos0[order0[p + 1] as int] == p + 1);
        }
    }
    assert(head1 == first_slot(order1)) by {
        if n - 1 > 0 {
            if p == 0 {
                assert(order1[0] == order0[1]);
            } else {
                assert(order1[0] == order0[0]);
            }
        }
    }
    assert(last1 == last_slot(order1)) by {
        if n - 1 > 0 {
            if p == n - 1 {
                assert(order1[n - 2] == order0[n - 2]);
            } else {
                assert(order1[n - 2] == order0[n - 1]);
            }
        }
    }
    assert(values(slots1, order1) =~= values(slots0, order0).remove(p)) by {
        assert forall|j: int| 0 <= j < n - 1 implies #[trigger] values(slots1, order1)[j]
            == values(slots0, order0).remove(p)[j] by {
            let k = if j < p {
                j
            } else {
                j + 1
            };
            assert(order1[j] == order0[k]);
            assert(slots1[order0[k] as int].value == slots0[order0[k] as int].value);
        }
    }
}

/// Moving the node of the last slot `n - 1` into the free slot `idx`, and
/// re-pointing its neighbours at `idx`, keeps the list intact under the
/// renaming of slot `n - 1` to `idx`.
proof fn lemma_compact_links<T>(
    slots1: Seq<Entry<T>>,
    order1: Seq<usize>,
    pos1: Seq<int>,
    head1: Option<usize>,
    last1: Option<usize>,
    idx: usize,
    slots2: Seq<Entry<T>>,
    head2: Option<usize>,
    last2: Option<usize>,
) -> (pos2: Seq<int>)
    requires
        links_ok(slots1, order1, head1, last1),
        slots1.len() == order1.len() + 1,
        idx < slots1.len(),
        pos1.len() == slots1.len(),
        forall|j: int|
            0 <= j < order1.len() ==> #[trigger] order1[j] != idx && pos1[order1[j] as int] == j,
        forall|s: int|
            0 <= s < slots1.len() && s != idx ==> 0 <= #[trigger] pos1[s] < order1.len()
                && order1[pos1[s]] == s,
        slots2.len() == order1.len(),
        forall|s: int|
            0 <= s < order1.len() ==> {
                let m = order1.len();
                let base = if s == idx {
                    slots1[m as int]
                } else {
                    slots1[s]
                };
                let moved = slots1[m as int];
                &&& (#[trigger] slots2[s]).value == base.value
                &&& slots2[s].next == if idx < m && is_slot(moved.prev, s) {
                    Some(idx)
                } else {
                    base.next
                }
                &&& slots2[s].prev == if idx < m && is_slot(moved.next, s) {
                    Some(idx)
                } else {
                    base.prev
                }
            },
        head2 == if idx < order1.len() && slots1[order1.len() as int].prev is None {
            Some(idx)
        } else {
            head1
        },
        last2 == if idx < order1.len() && slots1[order1.len() as int].next is None {
            Some(idx)
        } else {
            last1
        },
    ensures
        ({
            let order2 = order1.map_values(|s: usize| rename(s, order1.len() as usize, idx));
            &&& links_ok(slots2, order2, head2, last2)
            &&& inverse(order2, pos2, order1.len() as int)
            &&& values(slots2, order2) == values(slots1, order1)
        }),
{
    let m = order1.len() as int;
    let mu = m as usize;
    let order2 = order1.map_values(|s: usize| rename(s, mu, idx));
    let pos2 = Seq::new(
        m as nat,
        |s: int|
            if s == idx {
                pos1[m]
            } else {
                pos1[s]
            },
    );
    assert forall|j: int| #![trigger order2[j]] 0 <= j < m implies {
        &&& order2[j] < slots2.len()
        &&& linked_at(slots2, order2, j)
        &&& slots2[order2[j] as int].value == slots1[order1[j] as int].value
        &&& pos2[order2[j] as int] == j
    } by {
        let t = order1[j];
        assert(linked_at(slots1, order1, j));
        assert(t != idx);
        assert(pos1[t as int] == j);
        if idx < m {
            assert(pos1[m] < m && order1[pos1[m]] == mu);
            let q = pos1[m];
            assert(linked_at(slots1, order1, q));
        }
        if j > 0 {
            assert(order1[j - 1] != idx);
            assert(pos1[order1[j - 1] as int] == j - 1);
        }
        if j + 1 < m {
            assert(order1[j + 1] != idx);
            assert(pos1[order1[j + 1] as int] == j + 1);
        }
    }
    assert forall|s: int| 0 <= s < m implies 0 <= #[trigger] pos2[s] < m && order2[pos2[s]]
        == s by {
        if s == idx {
            assert(pos1[m] < m && order1[pos1[m]] == mu);
        } else {
            assert(pos1[s] < m && order1[pos1[s]] == s);
        }
    }
    assert(head2 == first_slot(order2)) by {
        if m > 0 {
            assert(linked_at(slots1, order1, 0));
            if idx < m {
                let q = pos1[m];
                assert(order1[q] == mu);
                assert(linked_at(slots1, order1, q));
            }
        }
    }
    assert(last2 == last_slot(order2)) by {
        if m > 0 {
            assert(linked_at(slots1, order1, m - 1));
            if idx < m {
                let q = pos1[m];
                assert(order1[q] == mu);
                assert(linked_at(slots1, order1, q));
            }
        }
    }
    assert(values(slots2, order2) =~= values(slots1, order1));
    pos2
}

impl<T> LinkedList<T> {
    /// The links follow the ghost order, which covers every slot once.
    pub closed spec fn well_formed(&self) -> bool {
        &&& links_ok(self.slots@, self.order@, self.head, self.last)
        &&& inverse(self.order@, self.pos@, self.slots@.len() as int)
    }

    /// An empty list.
    pub fn new() -> (l: Self)
        ensures
            l.well_formed(),
            l@ == Seq::<T>::empty(),
    {
        let l = LinkedList {
            slots: Vec::new(),
            head: None,
            last: None,
            order: Ghost(Seq::empty()),
            pos: Ghost(Seq::empty()),
        };
        assert(l@ =~= Seq::<T>::empty());
        l
    }

    /// Whether the list holds no value.
    pub fn is_empty(&self) -> (b: bool)
        requires
            self.well_formed(),
        ensures
            b == (self@.len() == 0),
    {
        self.head.is_none()
    }

    /// Appends `v` after the last node.
    pub fn push_back(&mut self, v: T)
        requires
            old(self).well_formed(),
        ensures
            final(self).well_formed(),
            final(self)@ == old(self)@.push(v),
    {
        let ghost n = self.slots@.len() as int;
        let ghost order0 = self.order@;
        let ghost slots0 = self.slots@;
        let idx = self.slots.len();
        let prev = self.last;
        self.slots.push(Entry { value: v, next: None, prev });
        match prev {
            Some(l) => {
                self.slots[l].next = Some(idx);
            },
            None => {
                self.head = Some(idx);
            },
        }
        self.last = Some(idx);
        self.order = Ghost(order0.push(idx));
        self.pos = Ghost(self.pos@.push(n));
        proof {
            let order = self.order@;
            assert forall|i: int| 0 <= i < n + 1 implies #[trigger] order[i] < n + 1
                && linked_at(self.slots@, order, i) && self.slots@[order[i] as int].value == (
            if i < n {
                slots0[order0[i] as int].value
            } else {
                v
            }) by {
                if i < n {
                    assert(order[i] == order0[i]);
                    assert(linked_at(slots0, order0, i));
                    if i == n - 1 {
                        assert(next_slot(order, i) == Some(idx));
                    }
                }
            }
            assert forall|s: int| 0 <= s < n + 1 implies 0 <= #[trigger] self.pos@[s] < n + 1
                && order[self.pos@[s]] == s by {}
            assert(self@ =~= old(self)@.push(v));
        }
    }

    /// The list without slot `hole`: the links follow the ghost order, which
    /// covers every slot but `hole` once.
    spec fn well_formed_but(&self, hole: usize) -> bool {
        let order = self.order@;
        let n = self.slots@.len() as int;
        &&& links_ok(self.slots@, order, self.head, self.last)
        &&& n == order.len() + 1
        &&& hole < n
        &&& self.pos@.len() == n
        &&& forall|j: int|
            0 <= j < order.len() ==> #[trigger] order[j] != hole && self.pos@[order[j] as int]
                == j
        &&& forall|s: int|
            0 <= s < n && s != hole ==> 0 <= #[trigger] self.pos@[s] < order.len() && order[self.pos@[s]]
                == s
    }

    /// Unlinks the node in slot `idx` from its neighbours; the slot itself
    /// stays, outside the list.
    fn detach(&mut self, idx: usize)
        requires
            old(self).well_formed(),
            idx < old(self).slots@.len(),
        ensures
            final(self).well_formed_but(idx),
            final(self).slots@[idx as int].value == old(self).slots@[idx as int].value,
            old(self).slots@[idx as int].value == old(self)@[old(self).pos@[idx as int]],
            final(self)@ == old(self)@.remove(old(self).pos@[idx as int]),
    {
        let ghost n = self.slots@.len() as int;
        let ghost p = self.pos@[idx as int];
        let ghost order0 = self.order@;
        let ghost pos0 = self.pos@;
        let ghost slots0 = self.slots@;
        proof {
            assert(order0[p] == idx);
            assert(linked_at(slots0, order0, p));
            if p > 0 {
                assert(pos0[order0[p - 1] as int] == p - 1);
            }
            if p + 1 < n {
                assert(pos0[order0[p + 1] as int] == p + 1);
            }
        }
        let prev = self.slots[idx].prev;
        let next = self.slots[idx].next;
        match prev {
            Some(a) => {
                self.slots[a].next = next;
            },
            None => {
                self.head = next;
            },
        }
        proof {
            if prev is Some && next is Some {
                assert(prev->0 != next->0);
            }
        }
        match next {
            Some(b) => {
                self.slots[b].prev = prev;
            },
            None => {
                self.last = prev;
            },
        }
        let ghost slots1 = self.slots@;
        let ghost order1 = order0.remove(p);
        let ghost pos1 = Seq::new(
            n as nat,
            |s: int|
                if pos0[s] < p {
                    pos0[s]
                } else {
                    pos0[s] - 1
                },
        );
        proof {
            assert forall|s: int| 0 <= s < n implies {
                &&& (#[trigger] slots1[s]).value == slots0[s].value
                &&& slots1[s].prev == if is_slot(next_slot(order0, p), s) {
                    prev_slot(order0, p)
                } else {
                    slots0[s].prev
                }
                &&& slots1[s].next == if is_slot(prev_slot(order0, p), s) {
                    next_slot(order0, p)
                } else {
                    slots0[s].next
                }
            } by {}
            lemma_unlink_links(
                slots0,
                order0,
                pos0,
                old(self).head,
                old(self).last,
                p,
                slots1,
                self.head,
                self.last,
            );
            assert forall|s: int| 0 <= s < n && s != idx implies 0 <= #[trigger] pos1[s] < n - 1
                && order1[pos1[s]] == s by {
                assert(pos0[s] != p);
                if pos0[s] < p {
                    assert(order1[pos0[s]] == order0[pos0[s]]);
                } else {
                    assert(order1[pos0[s] - 1] == order0[pos0[s]]);
                }
            }
        }
        self.order = Ghost(order1);
        self.pos = Ghost(pos1);
    }

    /// Moves the node of the last slot into the free slot `hole`, re-points
    /// its neighbours, and returns the entry that was in `hole`.
    fn compact(&mut self, hole: usize) -> (e: Entry<T>)
        requires
            old(self).well_formed_but(hole),
        ensures
            final(self).well_formed(),
            final(self)@ == old(self)@,
            e.val() == old(self).slots@[hole as int].value,
            e.is_detached(),
    {
        let ghost slots1 = self.slots@;
        let ghost order1 = self.order@;
        let ghost pos1 = self.pos@;
        let ghost head1 = self.head;
        let ghost last1 = self.last;
        let ghost n = slots1.len() as int;
        let removed = self.slots.swap_remove(hole);
        let m = self.slots.len();
        let ghost swapped = self.slots@;
        proof {
            if hole < m {
                let q = pos1[m as int];
                assert(0 <= q < n - 1 && order1[q] == m);
                assert(linked_at(slots1, order1, q));
                assert(swapped[hole as int] == slots1[m as int]);
                if q > 0 {
                    assert(order1[q - 1] < n && order1[q - 1] != m);
                }
                if q + 1 < n - 1 {
                    assert(pos1[order1[q + 1] as int] == q + 1);
                    assert(order1[q + 1] < n && order1[q + 1] != m);
                }
            }
        }
        if hole < m {
            let mp = self.slots[hole].prev;
            let mn = self.slots[hole].next;
            match mp {
                Some(a) => {
                    self.slots[a].next = Some(hole);
                },
                None => {
                    self.head = Some(hole);
                },
            }
            match mn {
                Some(b) => {
                    self.slots[b].prev = Some(hole);
                },
                None => {
                    self.last = Some(hole);
                },
            }
        }
        proof {
            let pos2 = lemma_compact_links(
                slots1,
                order1,
                pos1,
                head1,
                last1,
                hole,
                self.slots@,
                self.head,
                self.last,
            );
            self.order@ = order1.map_values(|s: usize| rename(s, m, hole));
            self.pos@ = pos2;
        }
        Entry::new(removed.value)
    }

    /// Takes the node in slot `idx` out of the list.
    fn unlink(&mut self, idx: usize) -> (e: Entry<T>)
        requires
            old(self).well_formed(),
            idx < old(self).slots@.len(),
        ensures
            final(self).well_formed(),
            e.is_detached(),
            e.val() == old(self)@[old(self).pos@[idx as int]],
            final(self)@ == old(self)@.remove(old(self).pos@[idx as int]),
    {
        self.detach(idx);
        self.compact(idx)
    }

    /// Removes the last node and returns it, or `None` on an empty list.
    pub fn pop_back(&mut self) -> (r: Option<Entry<T>>)
        requires
            old(self).well_formed(),
        ensures
            final(self).well_formed(),
            old(self)@.len() == 0 ==> r is None && final(self)@ == old(self)@,
            old(self)@.len() > 0 ==> r is Some && r->0.val() == old(self)@.last()
                && r->0.is_detached() && final(self)@ == old(self)@.drop_last(),
    {
        match self.last {
            None => None,
            Some(idx) => {
                let ghost n = self.slots@.len() as int;
                proof {
                    assert(self.pos@[self.order@[n - 1] as int] == n - 1);
                }
                let e = self.unlink(idx);
                assert(old(self)@.remove(n - 1) =~= old(self)@.drop_last());
                Some(e)
            },
        }
    }

    /// Removes the first node and returns it, or `None` on an empty list.
    pub fn pop_front(&mut self) -> (r: Option<Entry<T>>)
        requires
            old(self).well_formed(),
        ensures
            final(self).well_formed(),
            old(self)@.len() == 0 ==> r is None && final(self)@ == old(self)@,
            old(self)@.len() > 0 ==> r is Some && r->0.val() == old(self)@[0]
                && r->0.is_detached() && final(self)@ == old(self)@.drop_first(),
    {
        match self.head {
            None => None,
            Some(idx) => {
                proof {
                    assert(self.pos@[self.order@[0] as int] == 0);
                }
                let e = self.unlink(idx);
                assert(old(self)@.remove(0) =~= old(self)@.drop_first());
                Some(e)
            },
        }
    }
}

impl<T> LinkedList<T> {
    /// An iterator over the values, from the head to the last node.
    pub fn iter(&self) -> (it: Iter<'_, T>)
        requires
            self.well_formed(),
        ensures
            it.valid(),
            it.items() == self@,
            it.seen() == 0,
            it.remaining() == self@,
    {
        let it = Iter { list: self, pos: self.head, index: Ghost(0) };
        assert(it.remaining() =~= self@);
        it
    }
}

/// Walks a [`LinkedList`] from its head, handing out references to the
/// values.
pub struct Iter<'a, T> {
    list: &'a LinkedList<T>,
    pos: Option<usize>,
    index: Ghost<int>,
}

impl<'a, T> Iter<'a, T> {
    /// `pos` is the slot of list position `index`, or `None` past the end.
    pub closed spec fn valid(&self) -> bool {
        let order = self.list.order@;
        &&& self.list.well_formed()
        &&& 0 <= self.index@ <= order.len()
        &&& self.pos == if self.index@ < order.len() {
            Some(order[self.index@])
        } else {
            None
        }
    }

    /// The values of the list that the iterator walks.
    pub closed spec fn items(&self) -> Seq<T> {
        self.list@
    }

    /// How many values the iterator has handed out.
    pub closed spec fn seen(&self) -> nat {
        self.index@ as nat
    }

    /// The values that the iterator has yet to hand out.
    pub closed spec fn remaining(&self) -> Seq<T> {
        self.list@.subrange(self.index@, self.list@.len() as int)
    }

    /// An iterator that has handed out `seen` values has the rest of the list
    /// still to hand out: after `k` calls of `next`, the next call hands out
    /// the value at position `k`, or `None` past the end.
    pub proof fn lemma_iter_position(&self)
        requires
            self.valid(),
        ensures
            self.seen() <= self.items().len(),
            self.remaining() == self.items().skip(self.seen() as int),
    {
        assert(self.remaining() =~= self.items().skip(self.seen() as int));
    }

    /// The next value, or `None` once every value has been handed out.
    pub fn next(&mut self) -> (r: Option<&'a T>)
        requires
            old(self).valid(),
        ensures
            final(self).valid(),
            final(self).items() == old(self).items(),
            old(self).seen() < old(self).items().len() ==> r == Some(&old(self).items()[old(
                self,
            ).seen() as int]) && final(self).seen() == old(self).seen() + 1,
            old(self).seen() >= old(self).items().len() ==> r is None && final(self).seen()
                == old(self).seen(),
            final(self).remaining() == final(self).items().skip(final(self).seen() as int),
            old(self).remaining().len() == 0 ==> r is None && final(self).remaining()
                == old(self).remaining(),
            old(self).remaining().len() > 0 ==> r == Some(&old(self).remaining()[0])
                && final(self).remaining() == old(self).remaining().drop_first(),
    {
        match self.pos {
            None => None,
            Some(s) => {
                let list = self.list;
                let ghost i = self.index@;
                proof {
                    assert(linked_at(list.slots@, list.order@, i));
                    assert(list.order@[i] < list.slots@.len());
                }
                let e = &list.slots[s];
                self.pos = e.next;
                self.index = Ghost(i + 1);
                assert(self.remaining() =~= old(self).remaining().drop_first());
                Some(&e.value)
            },
        }
    }
}

/// What `pop_back` hands back after `push_back(v)` is `v`, and the list is
/// as it was before the push: the back of the list is a stack.
pub proof fn lemma_push_back_pop_back<T>(s: Seq<T>, v: T)
    ensures
        s.push(v).len() > 0,
        s.push(v).last() == v,
        s.push(v).drop_last() == s,
{
    assert(s.push(v).drop_last() =~= s);
}

/// `push_back` at one end and `pop_front` at the other make a queue: the
/// front of a non-empty list is unaffected by a push, and the pushed value
/// comes out of an empty list at once.
pub proof fn lemma_push_back_pop_front<T>(s: Seq<T>, v: T)
    ensures
        s.len() == 0 ==> s.push(v)[0] == v && s.push(v).drop_first() == s,
        s.len() > 0 ==> s.push(v)[0] == s[0] && s.push(v).drop_first() == s.drop_first().push(v),
{
    assert(s.len() == 0 ==> s.push(v).drop_first() =~= s);
    assert(s.len() > 0 ==> s.push(v).drop_first() =~= s.drop_first().push(v));
}

/// Values pushed at the back of an empty list come out of the front in the
/// order they were pushed: popping the front `k` times off `s` yields `s[0]`,
/// ..., `s[k - 1]` and leaves `s.skip(k)`.
pub proof fn lemma_pop_front_in_order<T>(s: Seq<T>, k: int)
    requires
        0 <= k < s.len(),
    ensures
        s.skip(k)[0] == s[k],
        s.skip(k).drop_first() == s.skip(k + 1),
{
    assert(s.skip(k).drop_first() =~= s.skip(k + 1));
}

} // verus!
