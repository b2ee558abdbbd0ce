//! A lending iterator: each item borrows from the iterator itself, which a
//! generic associated type expresses in the original trait. Here the
//! iterator is a concrete struct over mutable windows of a slice.
use vstd::prelude::*;

verus! {

/// Mutable windows of `window_size` elements, the first starting at
/// `start`, each next one a step further.
pub struct WindowsMut<'a, T> {
    pub slice: &'a mut [T],
    pub start: usize,
    pub window_size: usize,
}

impl<'t, T> WindowsMut<'t, T> {
    /// The window at `start`, after which `start` moves one step; `None`,
    /// with nothing moved, when the window would run past the end.
    pub fn next(&mut self) -> (r: Option<&mut [T]>)
        requires
            old(self).start <= old(self).slice@.len(),
            old(self).start + old(self).window_size <= old(self).slice@.len() ==> old(self).start
                < usize::MAX,
        ensures
            final(self).window_size == old(self).window_size,
            ({
                let s0 = old(self).slice@;
                let st = old(self).start as int;
                let ws = old(self).window_size as int;
                if st + ws <= s0.len() {
                    &&& r is Some
                    &&& r->0@ == s0.subrange(st, st + ws)
                    &&& final(self).start == st + 1
                    &&& final(self).slice@ == s0.subrange(0, st) + final(r->0)@ + s0.subrange(
                        st + ws,
                        s0.len() as int,
                    )
                } else {
                    &&& r is None
                    &&& final(self).start == st
                    &&& final(self).slice@ == s0
                }
            }),
    {
        let (_, rest) = self.slice.split_at_mut(self.start);
        if self.window_size <= rest.len() {
            let (window, _) = rest.split_at_mut(self.window_size);
            self.start += 1;
            Some(window)
        } else {
            None
        }
    }
}

} // verus!
