//! Runs interleavings of the workers of [`crate::model`].
//!
//! An [`Arena`] is the executable form of an [`ArenaView`]: a caller picks,
//! move by move, which worker steps and whether its atomic operation
//! glitches, and reads off the counter. Every interleaving that threads
//! could produce on the lock corresponds to one schedule, so a test can
//! walk through schedules where it cannot steer threads.
use crate::acquire::{decide, Phase};
use crate::laws::lemma_fair_progress;
use crate::lemmas::{
    lemma_chain_push, lemma_init_valid, lemma_run_concat, lemma_run_frame, lemma_run_push,
    lemma_step_valid, lemma_two_sweeps_fair,
};
use crate::model::{chain, total, ArenaView, Discipline, Move, Pc, WorkerView};
use vstd::prelude::*;

verus! {

/// The executable state of one worker.
#[derive(Clone, Copy, Debug)]
struct Worker {
    pc: Pc,
    reg: u64,
    left: u64,
    seen: usize,
}

impl View for Worker {
    type V = WorkerView;

    closed spec fn view(&self) -> WorkerView {
        WorkerView {
            pc: self.pc,
            reg: self.reg as nat,
            left: self.left as nat,
            seen: self.seen as nat,
        }
    }
}

/// A lock, a counter and the workers that contend for them.
#[derive(Debug)]
pub struct Arena {
    discipline: Discipline,
    rounds: u64,
    flag: bool,
    published: usize,
    history: Vec<u64>,
    workers: Vec<Worker>,
}

impl View for Arena {
    type V = ArenaView;

    closed spec fn view(&self) -> ArenaView {
        ArenaView {
            discipline: self.discipline,
            rounds: self.rounds as nat,
            flag: self.flag,
            published: self.published as nat,
            history: Seq::new(self.history@.len(), |k: int| self.history@[k] as nat),
            workers: Seq::new(self.workers@.len(), |i: int| self.workers@[i]@),
        }
    }
}

impl Arena {
    /// The arena before any step: the lock free, the counter at zero, and
    /// `workers` workers with `rounds` rounds each ahead of them.
    pub fn new(discipline: Discipline, workers: usize, rounds: u64) -> (a: Self)
        ensures
            a@ == ArenaView::init(discipline, workers as nat, rounds as nat),
            a@.valid(),
    {
        let pc = if rounds == 0 {
            Pc::Done
        } else {
            Pc::Acquiring(Phase::Attempt)
        };
        let fresh = Worker { pc, reg: 0, left: rounds, seen: 0 };
        let mut crowd: Vec<Worker> = Vec::new();
        let mut n: usize = 0;
        while n < workers
            invariant
                n <= workers,
                crowd@.len() == n,
                forall|i: int| 0 <= i < n ==> crowd@[i] == fresh,
            decreases workers - n,
        {
            crowd.push(fresh);
            n += 1;
        }
        let mut history: Vec<u64> = Vec::new();
        history.push(0);
        let a = Arena { discipline, rounds, flag: false, published: 0, history, workers: crowd };
        proof {
            let init = ArenaView::init(discipline, workers as nat, rounds as nat);
            assert(a@.history =~= init.history);
            assert(a@.workers =~= init.workers);
            lemma_init_valid(discipline, workers as nat, rounds as nat);
        }
        a
    }

    /// The newest value of the counter.
    pub fn payload(&self) -> (v: u64)
        requires
            self@.valid(),
        ensures
            v == self@.payload(),
    {
        self.history[self.history.len() - 1]
    }

    /// Whether the lock is taken.
    pub fn locked(&self) -> (b: bool)
        ensures
            b == self@.flag,
    {
        self.flag
    }

    /// The number of workers.
    pub fn workers(&self) -> (n: usize)
        ensures
            n == self@.workers.len(),
    {
        self.workers.len()
    }

    /// The next step of worker `i`, if there is such a worker.
    pub fn pc(&self, i: usize) -> (r: Option<Pc>)
        ensures
            r == (if i < self@.workers.len() {
                Some(self@.workers[i as int].pc)
            } else {
                None
            }),
    {
        if i < self.workers.len() {
            Some(self.workers[i].pc)
        } else {
            None
        }
    }

    /// Whether every worker has done all its rounds.
    pub fn finished(&self) -> (b: bool)
        ensures
            b == self@.finished(),
    {
        let mut i: usize = 0;
        while i < self.workers.len()
            invariant
                i <= self.workers@.len(),
                forall|j: int| 0 <= j < i ==> (#[trigger] self@.workers[j]).pc == Pc::Done,
            decreases self.workers@.len() - i,
        {
            match self.workers[i].pc {
                Pc::Done => {},
                _ => {
                    assert(self@.workers[i as int].pc != Pc::Done);
                    return false;
                },
            }
            i += 1;
        }
        true
    }

    /// Lets the worker that `mv` names take its next step.
    pub fn step(&mut self, mv: Move)
        requires
            old(self)@.valid(),
        ensures
            final(self)@ == old(self)@.step(mv),
            final(self)@.valid(),
    {
        proof {
            lemma_step_valid(self@, mv);
        }
        let i = mv.worker;
        if i >= self.workers.len() {
            return ;
        }
        let ghost before = self@;
        assert(before.worker_valid(i as int));
        let w = self.workers[i];
        match w.pc {
            Pc::Acquiring(phase) => {
                let free = match phase {
                    Phase::Attempt => !self.flag && !mv.glitch,
                    Phase::Watch => self.flag == mv.glitch,
                };
                let v = decide(phase, free);
                if v.enter {
                    let seen = if self.discipline.hands_over() && self.published > w.seen {
                        self.published
                    } else {
                        w.seen
                    };
                    self.flag = true;
                    self.workers.set(i, Worker { pc: Pc::Read, seen, ..w });
                } else {
                    self.workers.set(i, Worker { pc: Pc::Acquiring(v.next), ..w });
                }
            },
            Pc::Read => {
                let reg = self.history[w.seen];
                self.workers.set(i, Worker { pc: Pc::Write, reg, ..w });
            },
            Pc::Write => {
                let at = self.history.len();
                self.history.push(w.reg + 1);
                self.workers.set(i, Worker { pc: Pc::Unlock, seen: at, ..w });
            },
            Pc::Unlock => {
                let left = w.left - 1;
                let pc = if left == 0 {
                    Pc::Done
                } else {
                    Pc::Acquiring(Phase::Attempt)
                };
                self.flag = false;
                if self.discipline.hands_over() {
                    self.published = w.seen;
                }
                self.workers.set(i, Worker { pc, left, ..w });
            },
            Pc::Done => {},
        }
        proof {
            let after = before.step(mv);
            assert(self@.history =~= after.history);
            assert(self@.workers =~= after.workers);
        }
    }

    /// Takes the moves of `schedule`, in order.
    pub fn run(&mut self, schedule: &Vec<Move>)
        requires
            old(self)@.valid(),
        ensures
            final(self)@ == old(self)@.run(schedule@),
            final(self)@.valid(),
    {
        let mut k: usize = 0;
        while k < schedule.len()
            invariant
                k <= schedule@.len(),
                self@.valid(),
                self@ == old(self)@.run(schedule@.take(k as int)),
            decreases schedule@.len() - k,
        {
            proof {
                lemma_run_push(old(self)@, schedule@.take(k as int), schedule@[k as int]);
                assert(schedule@.take(k as int).push(schedule@[k as int]) =~= schedule@.take(
                    k + 1,
                ));
            }
            self.step(schedule[k]);
            k += 1;
        }
        assert(schedule@.take(k as int) =~= schedule@);
    }

    /// Lets every worker take one step, in the order of their indices and
    /// without a glitch.
    pub fn sweep(&mut self)
        requires
            old(self)@.valid(),
        ensures
            final(self)@ == old(self)@.run(old(self)@.sweep()),
            final(self)@.valid(),
    {
        let ghost all = self@.sweep();
        let n = self.workers.len();
        let mut i: usize = 0;
        while i < n
            invariant
                i <= n,
                n == old(self)@.workers.len(),
                all == old(self)@.sweep(),
                self@.valid(),
                self@ == old(self)@.run(all.take(i as int)),
            decreases n - i,
        {
            let mv = Move { worker: i, glitch: false };
            proof {
                lemma_run_push(old(self)@, all.take(i as int), mv);
                assert(all.take(i as int).push(mv) =~= all.take(i + 1));
            }
            self.step(mv);
            i += 1;
        }
        assert(all.take(n as int) =~= all);
    }

    /// Runs every worker to the end of its rounds under a fair scheduler:
    /// two sweeps at a time, until all are done, and not once more. Each
    /// pair of sweeps takes off some of the work that is left, so there are
    /// at most as many pairs as there were units of work.
    pub fn finish(&mut self)
        requires
            old(self)@.valid(),
        ensures
            final(self)@.valid(),
            final(self)@.finished(),
            exists|stretches: Seq<Seq<Move>>|
                ({
                    &&& stretches.len() <= total(old(self)@.work())
                    &&& forall|k: int|
                        0 <= k < stretches.len() ==> #[trigger] stretches[k] == old(self)@.sweep()
                            + old(self)@.sweep()
                    &&& forall|k: int|
                        0 <= k < stretches.len() ==> !old(self)@.run(
                            chain(#[trigger] stretches.take(k)),
                        ).finished()
                    &&& final(self)@ == old(self)@.run(chain(stretches))
                }),
    {
        let ghost pair = self@.sweep() + self@.sweep();
        let ghost taken = Seq::<Seq<Move>>::empty();
        while !self.finished()
            invariant
                self@.valid(),
                pair == old(self)@.sweep() + old(self)@.sweep(),
                self@.sweep() == old(self)@.sweep(),
                taken.len() + total(self@.work()) <= total(old(self)@.work()),
                forall|k: int| 0 <= k < taken.len() ==> #[trigger] taken[k] == pair,
                forall|k: int|
                    0 <= k < taken.len() ==> !old(self)@.run(chain(#[trigger] taken.take(k))).finished(),
                self@ == old(self)@.run(chain(taken)),
            decreases total(self@.work()),
        {
            let ghost before = self@;
            self.sweep();
            let ghost between = self@;
            self.sweep();
            proof {
                lemma_run_frame(before, before.sweep());
                lemma_run_frame(between, between.sweep());
                lemma_run_concat(before, before.sweep(), before.sweep());
                lemma_two_sweeps_fair(before);
                lemma_fair_progress(before, pair);
                lemma_chain_push(taken, pair);
                lemma_run_concat(old(self)@, chain(taken), pair);
                let longer = taken.push(pair);
                assert forall|k: int| 0 <= k < longer.len() implies !old(self)@.run(
                    chain(#[trigger] longer.take(k)),
                ).finished() by {
                    if k < taken.len() {
                        assert(longer.take(k) =~= taken.take(k));
                    } else {
                        assert(longer.take(k) =~= taken);
                    }
                }
                taken = longer;
            }
        }
    }
}

} // verus!
