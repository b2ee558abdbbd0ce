//! The decisions of a hand-written single-threaded executor: when a
//! delayed future is ready, and when a shared reference count lets go of
//! its value. The futures, wakers, threads and channels that act on these
//! decisions live with the program.
use vstd::prelude::*;

verus! {

/// What polling a delay does.
#[derive(Debug, PartialEq, Eq, Structural)]
pub enum DelayStep {
    /// The timer has not fired: start a timer thread that will wake the
    /// task, and report `Pending`.
    StartTimer,
    /// The timer has fired: report `Ready`.
    Ready,
}

/// The step for a delay whose timer has (`finished`) or has not fired yet.
pub fn delay_step(finished: bool) -> (s: DelayStep)
    ensures
        s == (if finished {
            DelayStep::Ready
        } else {
            DelayStep::StartTimer
        }),
{
    if !finished {
        DelayStep::StartTimer
    } else {
        DelayStep::Ready
    }
}

/// The count that a clone of a shared reference reports, given the count
/// before it.
pub fn count_after_clone(old: u32) -> (n: u32)
    requires
        old < u32::MAX,
    ensures
        n == old + 1,
{
    old + 1
}

/// The count that dropping a shared reference reports, given the count
/// before it, and whether that reference was the last one, so that the
/// shared value must be dropped too.
pub fn count_after_release(old: u32) -> (r: (u32, bool))
    requires
        old > 0,
    ensures
        r.0 == old - 1,
        r.1 == (old == 1),
{
    (old - 1, 1u32 == old)
}

} // verus!
