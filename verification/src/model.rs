//! Threads that contend for the lock, as a transition system.
//!
//! Any number of workers share one lock and one counter. Each worker runs a
//! fixed number of rounds; in a round it takes the lock, reads the counter,
//! writes back what it read plus one, and releases the lock. Reading and
//! writing are separate steps, so that two workers inside the critical
//! section at once would lose an update.
//!
//! A [`Move`] lets one worker perform its next step. The flag is a single
//! cell that every step sees as it is, since a compare-and-swap always acts
//! on the newest value of its location. The counter is ordinary memory: the
//! model keeps every value ever written to it, in order, and each worker
//! knows a position in that history up to which writes are visible to it. A
//! worker reads the value at its position, the oldest it may still get. An
//! unlocking store with release ordering publishes the position of the
//! worker that unlocks, and a successful compare-and-swap with acquire
//! ordering moves the worker that locks up to the published position. Under
//! [`Discipline::Relaxed`] neither happens, and workers read stale values.
use crate::acquire::{verdict, Phase};
use vstd::prelude::*;

verus! {

/// The memory orderings on the two transitions of the flag.
#[derive(Clone, Copy, Debug, PartialEq, Eq, Structural)]
pub enum Discipline {
    /// Acquire when the lock is taken, release when it is given back: the
    /// orderings of [`crate::mutex::Mutex`].
    AcquireRelease,
    /// Relaxed on both transitions. Known to be incorrect: the lock still
    /// admits one owner at a time, but an owner need not see what the
    /// owners before it wrote. It is here to show what the orderings are
    /// for.
    Relaxed,
}

impl Discipline {
    /// Whether unlocking and then locking hands over what the unlocking
    /// worker has seen.
    pub open spec fn synchronizes(self) -> bool {
        self == Discipline::AcquireRelease
    }

    /// Computes [`Discipline::synchronizes`].
    pub fn hands_over(self) -> (b: bool)
        ensures
            b == self.synchronizes(),
    {
        match self {
            Discipline::AcquireRelease => true,
            Discipline::Relaxed => false,
        }
    }
}

/// The next step of a worker.
#[derive(Clone, Copy, Debug, PartialEq, Eq, Structural)]
pub enum Pc {
    /// Trying to take the lock, in the given phase of acquisition.
    Acquiring(Phase),
    /// Owns the lock; about to read the counter.
    Read,
    /// Owns the lock; about to write the counter.
    Write,
    /// Owns the lock; about to release it.
    Unlock,
    /// All rounds done.
    Done,
}

/// One scheduling decision: which worker steps, and whether its atomic
/// operation misbehaves in the way its kind allows.
#[derive(Clone, Copy, Debug, PartialEq, Eq, Structural)]
pub struct Move {
    /// The index of the worker that steps.
    pub worker: usize,
    /// For a compare-and-swap: it fails although the flag is free, as a weak
    /// one may. For a watching load: it returns the opposite of the flag's
    /// newest value, as a relaxed load of an older value would. Other steps
    /// ignore it.
    pub glitch: bool,
}

/// The state of one worker.
pub struct WorkerView {
    /// The next step.
    pub pc: Pc,
    /// The value last read from the counter.
    pub reg: nat,
    /// The rounds still to finish, the current one included.
    pub left: nat,
    /// The position in the counter's history up to which writes are visible
    /// to this worker.
    pub seen: nat,
}

impl WorkerView {
    /// Whether the worker is inside its critical section.
    pub open spec fn holding(self) -> bool {
        self.pc == Pc::Read || self.pc == Pc::Write || self.pc == Pc::Unlock
    }

    /// The increments the worker has yet to write.
    pub open spec fn owed(self) -> nat {
        if self.pc == Pc::Unlock {
            (self.left - 1) as nat
        } else {
            self.left
        }
    }

    /// The steps the worker has yet to take, not counting those on which it
    /// fails to take the lock or watches the flag: four per round, less
    /// what it has done of the current round.
    pub open spec fn work(self) -> nat {
        match self.pc {
            Pc::Acquiring(_) => 4 * self.left,
            Pc::Read => (4 * self.left - 1) as nat,
            Pc::Write => (4 * self.left - 2) as nat,
            Pc::Unlock => (4 * self.left - 3) as nat,
            Pc::Done => 0,
        }
    }
}

/// The sum of a sequence of natural numbers.
pub open spec fn total(s: Seq<nat>) -> nat
    decreases s.len(),
{
    if s.len() == 0 {
        0
    } else {
        total(s.drop_last()) + s.last()
    }
}

/// How often worker `i` steps in `schedule`.
pub open spec fn occurrences(schedule: Seq<Move>, i: int) -> nat
    decreases schedule.len(),
{
    if schedule.len() == 0 {
        0
    } else {
        occurrences(schedule.drop_first(), i) + if schedule.first().worker == i {
            1nat
        } else {
            0nat
        }
    }
}

/// Whether `stretch` is free of glitches and lets each of the first
/// `workers` workers step at least twice.
pub open spec fn fair(stretch: Seq<Move>, workers: nat) -> bool {
    &&& forall|k: int| 0 <= k < stretch.len() ==> !(#[trigger] stretch[k]).glitch
    &&& forall|i: int| 0 <= i < workers ==> #[trigger] occurrences(stretch, i) >= 2
}

/// The stretches of `stretches`, one after the other.
pub open spec fn chain(stretches: Seq<Seq<Move>>) -> Seq<Move>
    decreases stretches.len(),
{
    if stretches.len() == 0 {
        Seq::empty()
    } else {
        stretches.first() + chain(stretches.drop_first())
    }
}

/// The state of the lock, the counter and all workers.
pub struct ArenaView {
    /// The orderings in use.
    pub discipline: Discipline,
    /// The number of rounds every worker started with.
    pub rounds: nat,
    /// The flag: whether the lock is taken.
    pub flag: bool,
    /// The position in the counter's history that the last unlocking store
    /// published.
    pub published: nat,
    /// Every value the counter has held, oldest first.
    pub history: Seq<nat>,
    /// The workers.
    pub workers: Seq<WorkerView>,
}

impl ArenaView {
    /// The state before any step: the lock free, the counter at zero, and
    /// `workers` workers with `rounds` rounds each ahead of them.
    pub open spec fn init(discipline: Discipline, workers: nat, rounds: nat) -> ArenaView {
        ArenaView {
            discipline,
            rounds,
            flag: false,
            published: 0,
            history: seq![0nat],
            workers: Seq::new(
                workers,
                |i: int|
                    WorkerView {
                        pc: if rounds == 0 {
                            Pc::Done
                        } else {
                            Pc::Acquiring(Phase::Attempt)
                        },
                        reg: 0,
                        left: rounds,
                        seen: 0,
                    },
            ),
        }
    }

    /// The newest value of the counter.
    pub open spec fn payload(self) -> nat {
        self.history.last()
    }

    /// The position of the newest value in the counter's history.
    pub open spec fn newest(self) -> nat {
        (self.history.len() - 1) as nat
    }

    /// Whether every worker has done all its rounds.
    pub open spec fn finished(self) -> bool {
        forall|i: int| 0 <= i < self.workers.len() ==> (#[trigger] self.workers[i]).pc == Pc::Done
    }

    /// What each worker has yet to add to the counter.
    pub open spec fn owed(self) -> Seq<nat> {
        Seq::new(self.workers.len(), |i: int| self.workers[i].owed())
    }

    /// The steps each worker has yet to take, waiting not counted.
    pub open spec fn work(self) -> Seq<nat> {
        Seq::new(self.workers.len(), |i: int| self.workers[i].work())
    }

    /// The same state with worker `i` replaced by `w`.
    pub open spec fn with_worker(self, i: int, w: WorkerView) -> ArenaView {
        ArenaView { workers: self.workers.update(i, w), ..self }
    }

    /// Whether the atomic operation of a worker in `phase` finds the flag
    /// free: a compare-and-swap succeeds on a free flag unless it glitches,
    /// and a load reports the flag as it is unless it glitches.
    pub open spec fn finds_free(self, phase: Phase, glitch: bool) -> bool {
        match phase {
            Phase::Attempt => !self.flag && !glitch,
            Phase::Watch => self.flag == glitch,
        }
    }

    /// The state after the worker that `mv` names has taken its next step.
    /// A move that names no worker, or a worker that is done, changes
    /// nothing.
    pub open spec fn step(self, mv: Move) -> ArenaView {
        let i = mv.worker as int;
        if i >= self.workers.len() {
            self
        } else {
            let w = self.workers[i];
            match w.pc {
                Pc::Acquiring(phase) => {
                    let v = verdict(phase, self.finds_free(phase, mv.glitch));
                    if v.enter {
                        let seen = if self.discipline.synchronizes() && self.published > w.seen {
                            self.published
                        } else {
                            w.seen
                        };
                        ArenaView { flag: true, ..self }.with_worker(
                            i,
                            WorkerView { pc: Pc::Read, seen, ..w },
                        )
                    } else {
                        self.with_worker(i, WorkerView { pc: Pc::Acquiring(v.next), ..w })
                    }
                },
                Pc::Read => self.with_worker(
                    i,
                    WorkerView { pc: Pc::Write, reg: self.history[w.seen as int], ..w },
                ),
                Pc::Write => ArenaView {
                    history: self.history.push(w.reg + 1),
                    ..self
                }.with_worker(i, WorkerView { pc: Pc::Unlock, seen: self.history.len(), ..w }),
                Pc::Unlock => {
                    let left = (w.left - 1) as nat;
                    ArenaView {
                        flag: false,
                        published: if self.discipline.synchronizes() {
                            w.seen
                        } else {
                            self.published
                        },
                        ..self
                    }.with_worker(
                        i,
                        WorkerView {
                            pc: if left == 0 {
                                Pc::Done
                            } else {
                                Pc::Acquiring(Phase::Attempt)
                            },
                            left,
                            ..w
                        },
                    )
                },
                Pc::Done => self,
            }
        }
    }

    /// The state after the moves of `schedule`, taken in order.
    pub open spec fn run(self, schedule: Seq<Move>) -> ArenaView
        decreases schedule.len(),
    {
        if schedule.len() == 0 {
            self
        } else {
            self.run(schedule.drop_last()).step(schedule.last())
        }
    }

    /// The schedule in which each worker steps once, in the order of their
    /// indices and without a glitch.
    pub open spec fn sweep(self) -> Seq<Move> {
        Seq::new(self.workers.len(), |i: int| Move { worker: i as usize, glitch: false })
    }

    /// What holds of worker `i` in every state that can be reached.
    pub open spec fn worker_valid(self, i: int) -> bool {
        let w = self.workers[i];
        &&& w.seen < self.history.len()
        &&& w.pc == Pc::Done <==> w.left == 0
        &&& w.pc == Pc::Write ==> w.reg <= w.seen
        &&& self.discipline.synchronizes() ==> {
            &&& w.holding() ==> w.seen == self.newest()
            &&& w.pc == Pc::Write ==> w.reg == self.payload()
        }
    }

    /// What holds of every state that can be reached from [`Self::init`]:
    /// the bookkeeping is in range, the flag is set exactly while some
    /// worker is inside its critical section, no two workers are, and,
    /// where the discipline synchronizes, whoever is inside sees the newest
    /// value of the counter, which together with what is still owed makes
    /// one increment per worker and round.
    pub open spec fn valid(self) -> bool {
        &&& self.workers.len() <= usize::MAX
        &&& self.history.len() >= 1
        &&& self.published < self.history.len()
        &&& forall|k: int| 0 <= k < self.history.len() ==> #[trigger] self.history[k] <= k
        &&& forall|i: int| 0 <= i < self.workers.len() ==> #[trigger] self.worker_valid(i)
        &&& forall|i: int, j: int|
            0 <= i < self.workers.len() && 0 <= j < self.workers.len() && (
            #[trigger] self.workers[i]).holding() && (#[trigger] self.workers[j]).holding() ==> i
                == j
        &&& self.flag <==> exists|i: int|
            0 <= i < self.workers.len() && (#[trigger] self.workers[i]).holding()
        &&& self.discipline.synchronizes() ==> {
            &&& !self.flag ==> self.published == self.newest()
            &&& self.payload() + total(self.owed()) == self.workers.len() * self.rounds
        }
    }
}

} // verus!
