//! The spin mutex.
//!
//! [`Mutex`] keeps a value beside an atomic flag. Whoever flips the flag
//! from unlocked to locked owns the value until it stores unlocked again.
//! The flip is a compare-and-swap with acquire ordering and the store has
//! release ordering, so that everything the previous owner wrote is visible
//! to the next one.
//!
//! Taking the lock may need any number of tries, and between tries the
//! caller is expected to yield its scheduling turn. [`Mutex::advance`]
//! therefore performs exactly one atomic operation of the acquisition
//! protocol and reports what to do next; the caller repeats it until it
//! returns [`Step::Finished`].
use crate::acquire::{decide, verdict, Phase, LOCKED, UNLOCKED};
use std::sync::atomic::AtomicBool;
use std::sync::atomic::Ordering;
use vstd::prelude::*;

verus! {

/// A value of type `T` behind a spin lock.
///
/// The value is only ever handed out as a shared reference, to the
/// operation that [`Mutex::advance`] runs while it owns the lock. A `T`
/// that is to change under the lock brings its own interior mutability.
pub struct Mutex<T> {
    locked: AtomicBool,
    v: T,
}

/// How one call of [`Mutex::advance`] ended.
pub enum Step<R, F> {
    /// The lock was taken, the operation ran and the lock was released;
    /// this is what the operation returned.
    Finished(R),
    /// The lock was not taken and the operation did not run.
    Pending {
        /// The phase to pass to the next call.
        phase: Phase,
        /// The operation, handed back untouched.
        f: F,
        /// Whether to yield the scheduling turn before the next call.
        yield_turn: bool,
    },
}

impl<T> View for Mutex<T> {
    type V = T;

    /// The guarded value.
    closed spec fn view(&self) -> T {
        self.v
    }
}

impl<T> Mutex<T> {
    /// A new, unlocked mutex that guards `t`.
    pub fn new(t: T) -> (m: Self)
        ensures
            m@ == t,
    {
        Mutex { locked: AtomicBool::new(UNLOCKED), v: t }
    }

    /// Performs the one atomic operation that `phase` calls for and acts on
    /// what it observed, as [`verdict`] says.
    ///
    /// In [`Phase::Attempt`] the operation is a weak compare-and-swap from
    /// unlocked to locked, acquire on success and relaxed on failure. When
    /// it succeeds, `f` runs on the guarded value, the flag is stored back
    /// to unlocked with release ordering, and the result of `f` is
    /// returned. In [`Phase::Watch`] the operation is a relaxed load.
    ///
    /// Whether the flag is found free is up to the other threads, and a
    /// weak compare-and-swap may fail even then, so the contract says what
    /// holds of either answer: the step finishes only from
    /// [`Phase::Attempt`] and then with a result of `f`, and otherwise
    /// goes on as [`verdict`] says of an operation that did not enter.
    pub fn advance<R, F: FnOnce(&T) -> R>(&self, phase: Phase, f: F) -> (s: Step<R, F>)
        requires
            f.requires((&self@,)),
        ensures
            (match s {
                Step::Finished(r) => phase == Phase::Attempt && f.ensures((&self@,), r),
                Step::Pending { phase: next, f: g, yield_turn } => {
                    &&& g == f
                    &&& exists|free: bool|
                        #![trigger verdict(phase, free)]
                        {
                            &&& !verdict(phase, free).enter
                            &&& next == verdict(phase, free).next
                            &&& yield_turn == verdict(phase, free).yield_turn
                        }
                },
            }),
    {
        let free = match phase {
            Phase::Attempt => self.locked.compare_exchange_weak(
                UNLOCKED,
                LOCKED,
                Ordering::Acquire,
                Ordering::Relaxed,
            ).is_ok(),
            Phase::Watch => self.locked.load(Ordering::Relaxed) == UNLOCKED,
        };
        let v = decide(phase, free);
        if v.enter {
            let r = f(&self.v);
            self.locked.store(UNLOCKED, Ordering::Release);
            Step::Finished(r)
        } else {
            Step::Pending { phase: v.next, f, yield_turn: v.yield_turn }
        }
    }
}

} // verus!
