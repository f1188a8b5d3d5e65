//! The decisions of lock acquisition.
//!
//! A thread that wants the lock alternates between two atomic operations on
//! the flag: a compare-and-swap that takes the lock when it finds it free,
//! and a read-only load that waits for the flag to show free before the
//! next compare-and-swap is tried. Polling with loads keeps the cache line
//! shared while the lock is held by someone else. What the thread does
//! after each operation depends only on the phase it is in and on what the
//! operation observed; that dependence is [`verdict`].
use vstd::prelude::*;

verus! {

/// The value of the flag while some thread owns the lock.
pub const LOCKED: bool = true;

/// The value of the flag while nobody owns the lock.
pub const UNLOCKED: bool = false;

/// Where a thread stands while it tries to take the lock.
#[derive(Clone, Copy, Debug, PartialEq, Eq, Structural)]
pub enum Phase {
    /// The next operation is the compare-and-swap from unlocked to locked.
    Attempt,
    /// The next operation is a read-only load of the flag.
    Watch,
}

/// What a thread does once its atomic operation has answered.
#[derive(Clone, Copy, Debug, PartialEq, Eq, Structural)]
pub struct Verdict {
    /// The thread owns the lock now and runs its critical section.
    pub enter: bool,
    /// The phase in which the thread goes on when it did not enter.
    pub next: Phase,
    /// Whether the thread gives up its scheduling turn before it goes on.
    pub yield_turn: bool,
}

/// The verdict for a thread in `phase` whose operation found the flag
/// `free`: for [`Phase::Attempt`], the compare-and-swap succeeded; for
/// [`Phase::Watch`], the load returned [`UNLOCKED`].
///
/// Only a successful compare-and-swap enters. A failed one turns to
/// watching at once. A load that still sees the lock held yields and
/// watches on; one that sees it free yields and goes back to the
/// compare-and-swap.
pub open spec fn verdict(phase: Phase, free: bool) -> Verdict {
    match phase {
        Phase::Attempt => Verdict {
            enter: free,
            next: if free { Phase::Attempt } else { Phase::Watch },
            yield_turn: false,
        },
        Phase::Watch => Verdict {
            enter: false,
            next: if free { Phase::Attempt } else { Phase::Watch },
            yield_turn: true,
        },
    }
}

/// Computes [`verdict`].
pub fn decide(phase: Phase, free: bool) -> (v: Verdict)
    ensures
        v == verdict(phase, free),
{
    let next = if free { Phase::Attempt } else { Phase::Watch };
    match phase {
        Phase::Attempt => Verdict { enter: free, next, yield_turn: false },
        Phase::Watch => Verdict { enter: false, next, yield_turn: true },
    }
}

} // verus!
