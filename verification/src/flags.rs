//! The experiment on two one-shot flags and a counter.
//!
//! Four threads share two flags `x` and `y`, both false at first, and a
//! counter `z`, zero at first. One thread sets `x`, one sets `y`. A third
//! waits until it sees `x` set, then looks at `y` once and increments `z`
//! if `y` is set. The fourth does the same with the flags exchanged.
//!
//! [`Shared`] holds the flags and the counter for real threads, each of
//! which repeats [`Shared::perform`] until it is through. There the stores
//! have release ordering and the loads acquire ordering; the increment is
//! relaxed, since only the condition under which it happens is of
//! interest.
//!
//! The question is which values `z` can have when both waiting threads are
//! through. Here the experiment runs under a schedule: a sequence that
//! names, step by step, the thread whose next atomic operation takes
//! effect. Each operation acts on the flags as the operations before it
//! left them, so a store, once it has taken effect, is seen by every
//! thread alike. Under that reading `z` ends as one or two, never as zero:
//! whichever waiting thread looks second finds both flags set.
use std::sync::atomic::AtomicBool;
use std::sync::atomic::AtomicUsize;
use std::sync::atomic::Ordering;
use vstd::prelude::*;

verus! {

/// The four threads of the experiment.
#[derive(Clone, Copy, Debug, PartialEq, Eq, Structural)]
pub enum Thread {
    /// Stores true into `x`.
    SetX,
    /// Stores true into `y`.
    SetY,
    /// Waits for `x`, then looks at `y`.
    AfterX,
    /// Waits for `y`, then looks at `x`.
    AfterY,
}

/// The next step of a waiting thread.
#[derive(Clone, Copy, Debug, PartialEq, Eq, Structural)]
pub enum Waiter {
    /// Loading its own flag until the load returns true.
    Spin,
    /// About to load the other flag.
    Check,
    /// Saw the other flag set; about to increment the counter.
    Bump,
    /// Through, after incrementing the counter.
    Counted,
    /// Through, without incrementing the counter.
    Skipped,
}

impl Waiter {
    /// Whether the thread has nothing left to do.
    pub open spec fn through(self) -> bool {
        self == Waiter::Counted || self == Waiter::Skipped
    }

    /// The state after the thread's next step, where `own` and `other` are
    /// the values its flags have at that moment. Incrementing the counter
    /// is left to the caller.
    pub open spec fn next(self, own: bool, other: bool) -> Waiter {
        match self {
            Waiter::Spin => if own {
                Waiter::Check
            } else {
                Waiter::Spin
            },
            Waiter::Check => if other {
                Waiter::Bump
            } else {
                Waiter::Skipped
            },
            Waiter::Bump => Waiter::Counted,
            Waiter::Counted => Waiter::Counted,
            Waiter::Skipped => Waiter::Skipped,
        }
    }

    /// Computes [`Waiter::through`].
    pub fn is_through(self) -> (b: bool)
        ensures
            b == self.through(),
    {
        match self {
            Waiter::Counted | Waiter::Skipped => true,
            _ => false,
        }
    }

    /// Computes [`Waiter::next`].
    pub fn advance(self, own: bool, other: bool) -> (w: Waiter)
        ensures
            w == self.next(own, other),
    {
        match self {
            Waiter::Spin => if own {
                Waiter::Check
            } else {
                Waiter::Spin
            },
            Waiter::Check => if other {
                Waiter::Bump
            } else {
                Waiter::Skipped
            },
            Waiter::Bump => Waiter::Counted,
            Waiter::Counted => Waiter::Counted,
            Waiter::Skipped => Waiter::Skipped,
        }
    }
}

/// The shared memory and the two waiting threads.
#[derive(Clone, Copy, Debug, PartialEq, Eq, Structural)]
pub struct Flags {
    /// The first flag.
    pub x: bool,
    /// The second flag.
    pub y: bool,
    /// The counter.
    pub z: usize,
    /// The thread that waits for `x`.
    pub after_x: Waiter,
    /// The thread that waits for `y`.
    pub after_y: Waiter,
}

/// The counter after one increment, which wraps around as an atomic
/// addition does.
pub open spec fn bumped(z: usize) -> usize {
    if z == usize::MAX {
        0
    } else {
        (z + 1) as usize
    }
}

impl Flags {
    /// The state before any step.
    pub open spec fn init() -> Flags {
        Flags { x: false, y: false, z: 0, after_x: Waiter::Spin, after_y: Waiter::Spin }
    }

    /// Whether both waiting threads are through.
    pub open spec fn finished(self) -> bool {
        self.after_x.through() && self.after_y.through()
    }

    /// The state after the next atomic operation of thread `t`. A thread
    /// that has nothing left to do changes nothing.
    pub open spec fn next(self, t: Thread) -> Flags {
        match t {
            Thread::SetX => Flags { x: true, ..self },
            Thread::SetY => Flags { y: true, ..self },
            Thread::AfterX => Flags {
                z: if self.after_x == Waiter::Bump {
                    bumped(self.z)
                } else {
                    self.z
                },
                after_x: self.after_x.next(self.x, self.y),
                ..self
            },
            Thread::AfterY => Flags {
                z: if self.after_y == Waiter::Bump {
                    bumped(self.z)
                } else {
                    self.z
                },
                after_y: self.after_y.next(self.y, self.x),
                ..self
            },
        }
    }

    /// The state after the steps of `schedule`, taken in order.
    pub open spec fn run(self, schedule: Seq<Thread>) -> Flags
        decreases schedule.len(),
    {
        if schedule.len() == 0 {
            self
        } else {
            self.run(schedule.drop_last()).next(schedule.last())
        }
    }

    /// What holds of every state that can be reached from [`Self::init`]: a
    /// thread that has stopped spinning has seen its flag set, the counter
    /// counts the threads that incremented it, and the two threads have not
    /// both gone through without incrementing.
    pub open spec fn valid(self) -> bool {
        &&& self.after_x != Waiter::Spin ==> self.x
        &&& self.after_y != Waiter::Spin ==> self.y
        &&& self.z == (if self.after_x == Waiter::Counted {
            1int
        } else {
            0int
        }) + (if self.after_y == Waiter::Counted {
            1int
        } else {
            0int
        })
        &&& !(self.after_x == Waiter::Skipped && self.after_y == Waiter::Skipped)
    }

    /// The state before any step.
    pub fn new() -> (f: Flags)
        ensures
            f == Flags::init(),
    {
        Flags { x: false, y: false, z: 0, after_x: Waiter::Spin, after_y: Waiter::Spin }
    }

    /// Whether both waiting threads are through.
    pub fn done(&self) -> (b: bool)
        ensures
            b == self.finished(),
    {
        self.after_x.is_through() && self.after_y.is_through()
    }

    /// Lets thread `t` perform its next atomic operation.
    pub fn step(&mut self, t: Thread)
        ensures
            *final(self) == old(self).next(t),
    {
        match t {
            Thread::SetX => {
                self.x = true;
            },
            Thread::SetY => {
                self.y = true;
            },
            Thread::AfterX => {
                if let Waiter::Bump = self.after_x {
                    self.z = self.z.wrapping_add(1);
                }
                self.after_x = self.after_x.advance(self.x, self.y);
            },
            Thread::AfterY => {
                if let Waiter::Bump = self.after_y {
                    self.z = self.z.wrapping_add(1);
                }
                self.after_y = self.after_y.advance(self.y, self.x);
            },
        }
    }
}

/// The two flags and the counter as real threads share them.
pub struct Shared {
    x: AtomicBool,
    y: AtomicBool,
    z: AtomicUsize,
}

impl Shared {
    /// Both flags unset and the counter at zero.
    pub fn new() -> Self {
        Shared { x: AtomicBool::new(false), y: AtomicBool::new(false), z: AtomicUsize::new(0) }
    }

    /// Performs the next atomic operation of a waiting thread that stands
    /// at `w`, whose own flag is `own` and whose other flag is `other`, and
    /// returns where the thread stands afterwards: what [`Waiter::next`]
    /// gives for the values that the loads returned.
    fn wait(w: Waiter, own: &AtomicBool, other: &AtomicBool, z: &AtomicUsize) -> (r: Waiter)
        ensures
            exists|seen_own: bool, seen_other: bool| r == #[trigger] w.next(seen_own, seen_other),
    {
        match w {
            Waiter::Spin => {
                let seen = own.load(Ordering::Acquire);
                w.advance(seen, false)
            },
            Waiter::Check => {
                let seen = other.load(Ordering::Acquire);
                w.advance(true, seen)
            },
            Waiter::Bump => {
                z.fetch_add(1, Ordering::Relaxed);
                w.advance(true, true)
            },
            Waiter::Counted | Waiter::Skipped => w.advance(true, true),
        }
    }

    /// Performs the next atomic operation of thread `t` on the shared
    /// memory. For a thread that sets a flag this is its one store, and
    /// `w` comes back as it is. For a waiting thread that stands at `w`
    /// it is the load or the increment that `w` calls for, and what comes
    /// back is where the thread stands afterwards: what [`Waiter::next`]
    /// gives for the values that the loads returned, which are up to the
    /// other threads.
    pub fn perform(&self, t: Thread, w: Waiter) -> (r: Waiter)
        ensures
            t == Thread::SetX || t == Thread::SetY ==> r == w,
            t == Thread::AfterX || t == Thread::AfterY ==> exists|own: bool, other: bool|
                r == #[trigger] w.next(own, other),
    {
        match t {
            Thread::SetX => {
                self.x.store(true, Ordering::Release);
                w
            },
            Thread::SetY => {
                self.y.store(true, Ordering::Release);
                w
            },
            Thread::AfterX => Self::wait(w, &self.x, &self.y, &self.z),
            Thread::AfterY => Self::wait(w, &self.y, &self.x, &self.z),
        }
    }

    /// The counter, as a sequentially consistent load returns it.
    pub fn count(&self) -> usize {
        self.z.load(Ordering::SeqCst)
    }
}

/// Runs the experiment under `schedule` and returns the counter, or `None`
/// if a waiting thread is not through when the schedule ends.
pub fn outcome(schedule: &Vec<Thread>) -> (r: Option<usize>)
    ensures
        r == ({
            let f = Flags::init().run(schedule@);
            if f.finished() {
                Some(f.z)
            } else {
                None
            }
        }),
{
    let mut f = Flags::new();
    let mut k: usize = 0;
    while k < schedule.len()
        invariant
            k <= schedule@.len(),
            f == Flags::init().run(schedule@.take(k as int)),
        decreases schedule@.len() - k,
    {
        proof {
            lemma_run_push(Flags::init(), schedule@.take(k as int), schedule@[k as int]);
            assert(schedule@.take(k as int).push(schedule@[k as int]) =~= schedule@.take(k + 1));
        }
        f.step(schedule[k]);
        k += 1;
    }
    assert(schedule@.take(k as int) =~= schedule@);
    if f.done() {
        Some(f.z)
    } else {
        None
    }
}

/// Running a schedule with one more step at its end is running the
/// schedule and then taking the step.
pub proof fn lemma_run_push(f: Flags, schedule: Seq<Thread>, t: Thread)
    ensures
        f.run(schedule.push(t)) == f.run(schedule).next(t),
{
    assert(schedule.push(t).drop_last() =~= schedule);
}

/// Every schedule leads from a valid state to a valid state.
pub proof fn lemma_run_valid(f: Flags, schedule: Seq<Thread>)
    requires
        f.valid(),
    ensures
        f.run(schedule).valid(),
    decreases schedule.len(),
{
    if schedule.len() > 0 {
        lemma_run_valid(f, schedule.drop_last());
    }
}

/// Whatever the schedule, when both waiting threads are through the
/// counter is one or two. In particular it is never zero.
pub proof fn lemma_counter_one_or_two(schedule: Seq<Thread>)
    ensures
        Flags::init().run(schedule).finished() ==> Flags::init().run(schedule).z == 1
            || Flags::init().run(schedule).z == 2,
{
    lemma_run_valid(Flags::init(), schedule);
}

/// Puts one more step at the end of `schedule`.
fn then(schedule: &mut Vec<Thread>, t: Thread)
    ensures
        final(schedule)@ == old(schedule)@.push(t),
        Flags::init().run(final(schedule)@) == Flags::init().run(old(schedule)@).next(t),
{
    proof {
        lemma_run_push(Flags::init(), schedule@, t);
    }
    schedule.push(t);
}

/// A schedule under which the counter ends as `z`, or `None` if there is
/// no such schedule, which is so unless `z` is one or two.
///
/// For one, the thread that waits for `x` runs to its end between the two
/// stores, so it finds `y` unset, and the thread that waits for `y` runs
/// after both. For two, both stores come first.
pub fn witness(z: usize) -> (r: Option<Vec<Thread>>)
    ensures
        r is Some <==> z == 1 || z == 2,
        (match r {
            Some(schedule) => {
                &&& Flags::init().run(schedule@).finished()
                &&& Flags::init().run(schedule@).z == z
            },
            None => forall|schedule: Seq<Thread>|
                #![trigger Flags::init().run(schedule)]
                Flags::init().run(schedule).finished() ==> Flags::init().run(schedule).z != z,
        }),
{
    let mut schedule: Vec<Thread> = Vec::new();
    if z == 1 {
        then(&mut schedule, Thread::SetX);
        then(&mut schedule, Thread::AfterX);
        then(&mut schedule, Thread::AfterX);
        then(&mut schedule, Thread::SetY);
        then(&mut schedule, Thread::AfterY);
        then(&mut schedule, Thread::AfterY);
        then(&mut schedule, Thread::AfterY);
        Some(schedule)
    } else if z == 2 {
        then(&mut schedule, Thread::SetX);
        then(&mut schedule, Thread::SetY);
        then(&mut schedule, Thread::AfterX);
        then(&mut schedule, Thread::AfterX);
        then(&mut schedule, Thread::AfterX);
        then(&mut schedule, Thread::AfterY);
        then(&mut schedule, Thread::AfterY);
        then(&mut schedule, Thread::AfterY);
        Some(schedule)
    } else {
        proof {
            assert forall|schedule: Seq<Thread>|
                #![trigger Flags::init().run(schedule)]
                Flags::init().run(schedule).finished() implies Flags::init().run(schedule).z
                != z by {
                lemma_counter_one_or_two(schedule);
            }
        }
        None
    }
}

} // verus!
