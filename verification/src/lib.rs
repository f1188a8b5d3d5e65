//! A spin mutex built on one atomic flag, together with verified models of
//! how threads contend for it and of two small memory-ordering experiments.
//!
//! Whatever runs on real atomics is driven one bounded step at a time: the
//! caller, a thread, repeats the step until it is through. What can be said
//! of all interleavings of such threads is proved of models, in which a
//! schedule takes the place of the threads.
//!
//! * [`mutex`] holds the lock itself: an atomic flag beside the value it
//!   guards.
//! * [`acquire`] holds the decisions of the acquisition protocol, as a pure
//!   function from what an atomic operation observed to what to do next.
//! * [`model`] describes any number of threads that increment one shared
//!   counter under the lock. [`laws`] proves what holds of every
//!   interleaving of them, from the facts in [`lemmas`], and [`arena`] runs
//!   such interleavings.
//! * [`flags`] is the four-thread experiment on two one-shot flags and a
//!   counter, and [`relaxed`] the two-thread experiment on relaxed accesses.
pub mod acquire;
pub mod arena;
pub mod flags;
pub mod laws;
pub mod lemmas;
pub mod model;
pub mod mutex;
pub mod relaxed;
