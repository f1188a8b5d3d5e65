//! The experiment on two relaxed locations.
//!
//! Two threads share two atomic locations `x` and `y`, both zero at first,
//! and touch them with relaxed operations only. The first thread loads `y`
//! into `r1` and stores `r1` into `x`. The second loads `x` into `r2` and
//! stores a fixed value into `y`.
//!
//! Relaxed operations promise one thing: all threads agree on the order of
//! the writes to any single location. For each location that order is the
//! initial zero followed by the one store to it, and a load, which nothing
//! orders against the other thread's store, may return either entry. So an
//! execution is told by a choice of [`Source`] for each of the two loads,
//! and every choice is allowed; among them is the one in which both loads
//! return the stored value, although each thread loads before it stores.
//!
//! [`Cells`] holds the two locations for real threads, one of which calls
//! [`Cells::first`] and the other [`Cells::second`]. What they return then
//! is for the machine to decide, and is held against [`reachable`].
use std::sync::atomic::AtomicUsize;
use std::sync::atomic::Ordering;
use vstd::prelude::*;

verus! {

/// The write in a location's modification order that a load returns.
#[derive(Clone, Copy, Debug, PartialEq, Eq, Structural)]
pub enum Source {
    /// The initial zero.
    Initial,
    /// The other thread's store.
    Stored,
}

/// The write that each of the two loads returns.
#[derive(Clone, Copy, Debug, PartialEq, Eq, Structural)]
pub struct Reads {
    /// For the first thread's load of `y`.
    pub y: Source,
    /// For the second thread's load of `x`.
    pub x: Source,
}

/// What the two threads loaded.
#[derive(Clone, Copy, Debug, PartialEq, Eq, Structural)]
pub struct Outcome {
    /// What the first thread loaded from `y`.
    pub r1: usize,
    /// What the second thread loaded from `x`.
    pub r2: usize,
}

/// What the threads load when the second thread stores `value` and the
/// loads return the writes that `reads` names: the only store to `y` holds
/// `value`, and the only store to `x` holds whatever the first thread
/// loaded.
pub open spec fn outcome(value: usize, reads: Reads) -> Outcome {
    let r1 = match reads.y {
        Source::Initial => 0,
        Source::Stored => value,
    };
    let r2 = match reads.x {
        Source::Initial => 0,
        Source::Stored => r1,
    };
    Outcome { r1, r2 }
}

/// Whether some choice of writes for the two loads gives `o`.
pub open spec fn reachable(value: usize, o: Outcome) -> bool {
    exists|reads: Reads| #[trigger] outcome(value, reads) == o
}

/// The two locations as real threads share them.
pub struct Cells {
    x: AtomicUsize,
    y: AtomicUsize,
}

impl Cells {
    /// Both locations at zero.
    pub fn new() -> Self {
        Cells { x: AtomicUsize::new(0), y: AtomicUsize::new(0) }
    }

    /// The first thread: loads `y`, stores what it loaded into `x`, and
    /// returns it.
    pub fn first(&self) -> usize {
        let r1 = self.y.load(Ordering::Relaxed);
        self.x.store(r1, Ordering::Relaxed);
        r1
    }

    /// The second thread: loads `x`, stores `value` into `y`, and returns
    /// what it loaded.
    pub fn second(&self, value: usize) -> usize {
        let r2 = self.x.load(Ordering::Relaxed);
        self.y.store(value, Ordering::Relaxed);
        r2
    }
}

/// Computes [`outcome`].
pub fn observe(value: usize, reads: Reads) -> (o: Outcome)
    ensures
        o == outcome(value, reads),
{
    let r1 = match reads.y {
        Source::Initial => 0,
        Source::Stored => value,
    };
    let r2 = match reads.x {
        Source::Initial => 0,
        Source::Stored => r1,
    };
    Outcome { r1, r2 }
}

/// Decides [`reachable`].
pub fn is_reachable(value: usize, o: Outcome) -> (b: bool)
    ensures
        b == reachable(value, o),
{
    proof {
        lemma_reachable_outcomes(value, o);
    }
    (o.r1 == 0 && o.r2 == 0) || (o.r1 == value && (o.r2 == 0 || o.r2 == value))
}

/// The reachable outcomes are: both loads return zero; the first returns
/// the stored value and the second zero; both return the stored value.
pub proof fn lemma_reachable_outcomes(value: usize, o: Outcome)
    ensures
        reachable(value, o) <==> ({
            ||| o == Outcome { r1: 0, r2: 0 }
            ||| o == Outcome { r1: value, r2: 0 }
            ||| o == Outcome { r1: value, r2: value }
        }),
{
    let none = Reads { y: Source::Initial, x: Source::Initial };
    let first = Reads { y: Source::Stored, x: Source::Initial };
    let both = Reads { y: Source::Stored, x: Source::Stored };
    assert(outcome(value, none) == Outcome { r1: 0, r2: 0 });
    assert(outcome(value, first) == Outcome { r1: value, r2: 0 });
    assert(outcome(value, both) == Outcome { r1: value, r2: value });
}

/// Both loads may return the stored value, and that is not the only thing
/// they may return: both may as well return zero.
pub proof fn lemma_both_stored_reachable(value: usize)
    ensures
        reachable(value, Outcome { r1: value, r2: value }),
        reachable(value, Outcome { r1: 0, r2: 0 }),
{
    lemma_reachable_outcomes(value, Outcome { r1: value, r2: value });
    lemma_reachable_outcomes(value, Outcome { r1: 0, r2: 0 });
}

} // verus!
