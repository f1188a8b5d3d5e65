//! What holds of every interleaving of the workers of [`crate::model`].
//!
//! * Mutual exclusion: [`lemma_mutual_exclusion`].
//! * No lost increment: [`lemma_counts_every_increment`].
//! * Visibility, and what becomes of it without acquire and release:
//!   [`lemma_reads_newest`], [`lemma_relaxed_loses_update`].
//! * No deadlock under fair scheduling: [`lemma_fair_progress`],
//!   [`lemma_fair_schedules_finish`], [`lemma_fair_start_finishes`].
//! * The lock can be used again after each critical section:
//!   [`lemma_reuse`].
use crate::acquire::Phase;
use crate::lemmas::{
    lemma_finished_owes_nothing, lemma_free_progress, lemma_init_valid, lemma_initial_work,
    lemma_no_work_is_finished, lemma_owner_progress, lemma_run_concat, lemma_run_frame,
    lemma_run_push, lemma_run_valid, lemma_run_work, lemma_step_valid,
};
use crate::model::{chain, fair, occurrences, total, ArenaView, Discipline, Move, Pc};
use vstd::prelude::*;

verus! {

/// Mutual exclusion. Whatever the discipline, the number of workers and
/// rounds, and the schedule: no two workers are inside their critical
/// sections at once, and the flag is set exactly while one is.
pub proof fn lemma_mutual_exclusion(
    discipline: Discipline,
    workers: nat,
    rounds: nat,
    schedule: Seq<Move>,
)
    requires
        workers <= usize::MAX,
    ensures
        ({
            let a = ArenaView::init(discipline, workers, rounds).run(schedule);
            &&& forall|i: int, j: int|
                0 <= i < workers && 0 <= j < workers && (#[trigger] a.workers[i]).holding() && (
                #[trigger] a.workers[j]).holding() ==> i == j
            &&& a.flag <==> exists|i: int| 0 <= i < workers && (#[trigger] a.workers[i]).holding()
        }),
{
    let a0 = ArenaView::init(discipline, workers, rounds);
    lemma_init_valid(discipline, workers, rounds);
    lemma_run_valid(a0, schedule);
    lemma_run_frame(a0, schedule);
}

/// No increment is lost. With acquire on locking and release on unlocking,
/// once every one of `workers` workers has done its `rounds` rounds the
/// counter stands at `workers * rounds`, whatever the schedule was.
pub proof fn lemma_counts_every_increment(workers: nat, rounds: nat, schedule: Seq<Move>)
    requires
        workers <= usize::MAX,
    ensures
        ({
            let a = ArenaView::init(Discipline::AcquireRelease, workers, rounds).run(schedule);
            a.finished() ==> a.payload() == workers * rounds
        }),
{
    let a0 = ArenaView::init(Discipline::AcquireRelease, workers, rounds);
    let a = a0.run(schedule);
    lemma_init_valid(Discipline::AcquireRelease, workers, rounds);
    lemma_run_valid(a0, schedule);
    lemma_run_frame(a0, schedule);
    if a.finished() {
        lemma_finished_owes_nothing(a);
    }
}

/// Visibility. In a valid state under a discipline that synchronizes, a
/// worker that reads the counter inside its critical section gets the
/// newest value ever written, and a worker about to write still holds the
/// newest value: nobody wrote since it read.
pub proof fn lemma_reads_newest(a: ArenaView, mv: Move)
    requires
        a.valid(),
        a.discipline.synchronizes(),
        mv.worker < a.workers.len(),
    ensures
        a.workers[mv.worker as int].pc == Pc::Read ==> a.step(mv).workers[mv.worker as int].reg
            == a.payload(),
        a.workers[mv.worker as int].pc == Pc::Write ==> a.workers[mv.worker as int].reg
            == a.payload() && a.step(mv).payload() == a.payload() + 1,
{
    assert(a.worker_valid(mv.worker as int));
}

/// Why the orderings matter. Under [`Discipline::Relaxed`] two workers with
/// one round each can take the lock one after the other and still lose an
/// increment: the second worker reads the counter as it was before the
/// first one wrote. The schedule returned lets each worker run its whole
/// round undisturbed, the first worker first.
pub proof fn lemma_relaxed_loses_update() -> (schedule: Seq<Move>)
    ensures
        schedule.len() == 8,
        ArenaView::init(Discipline::Relaxed, 2, 1).run(schedule).finished(),
        ArenaView::init(Discipline::Relaxed, 2, 1).run(schedule).payload() == 1,
{
    let first = Move { worker: 0, glitch: false };
    let second = Move { worker: 1, glitch: false };
    let a0 = ArenaView::init(Discipline::Relaxed, 2, 1);
    let s0 = Seq::<Move>::empty();
    let s4 = s0.push(first).push(first).push(first).push(first);
    let s8 = s4.push(second).push(second).push(second).push(second);
    lemma_run_push(a0, s0, first);
    lemma_run_push(a0, s0.push(first), first);
    lemma_run_push(a0, s0.push(first).push(first), first);
    lemma_run_push(a0, s0.push(first).push(first).push(first), first);
    // The first worker has written one and let go of the lock.
    assert(a0.run(s4).history =~= seq![0nat, 1nat] && !a0.run(s4).flag);
    lemma_run_push(a0, s4, second);
    // The second worker holds the lock, but what it sees of the counter
    // is still the initial zero.
    assert(a0.run(s4.push(second)).workers[1].seen == 0);
    lemma_run_push(a0, s4.push(second), second);
    lemma_run_push(a0, s4.push(second).push(second), second);
    lemma_run_push(a0, s4.push(second).push(second).push(second), second);
    assert(a0.run(s8).history =~= seq![0nat, 1nat, 1nat]);
    s8
}

/// A fair stretch takes off some of the work that is left, unless every
/// worker is done.
pub proof fn lemma_fair_progress(a: ArenaView, stretch: Seq<Move>)
    requires
        a.valid(),
        !a.finished(),
        fair(stretch, a.workers.len()),
    ensures
        total(a.run(stretch).work()) < total(a.work()),
{
    if a.flag {
        let owner = choose|h: int| 0 <= h < a.workers.len() && (#[trigger] a.workers[h]).holding();
        lemma_owner_progress(a, stretch, owner);
    } else {
        let waiting = choose|h: int|
            0 <= h < a.workers.len() && (#[trigger] a.workers[h]).pc != Pc::Done;
        lemma_free_progress(a, stretch, waiting);
    }
}

/// No deadlock under fair scheduling. From any valid state, a schedule
/// made of fair stretches, at least as many as there are units of work
/// left, ends with every worker done.
pub proof fn lemma_fair_schedules_finish(a: ArenaView, stretches: Seq<Seq<Move>>)
    requires
        a.valid(),
        forall|k: int| 0 <= k < stretches.len() ==> fair(#[trigger] stretches[k], a.workers.len()),
        stretches.len() >= total(a.work()),
    ensures
        a.run(chain(stretches)).finished(),
    decreases stretches.len(),
{
    if stretches.len() == 0 {
        lemma_no_work_is_finished(a);
    } else {
        let stretch = stretches.first();
        let rest = stretches.drop_first();
        let b = a.run(stretch);
        lemma_run_valid(a, stretch);
        lemma_run_frame(a, stretch);
        lemma_run_work(a, stretch);
        if !a.finished() {
            lemma_fair_progress(a, stretch);
        } else {
            lemma_finished_owes_nothing(a);
        }
        assert forall|k: int| 0 <= k < rest.len() implies fair(
            #[trigger] rest[k],
            b.workers.len(),
        ) by {
            assert(rest[k] == stretches[k + 1]);
        }
        lemma_fair_schedules_finish(b, rest);
        lemma_run_concat(a, stretch, chain(rest));
    }
}

/// Bounded time under fair scheduling. From the start, a schedule made of
/// four fair stretches per worker and round, or more, ends with every
/// worker done, and under acquire and release with the counter at
/// `workers * rounds`.
pub proof fn lemma_fair_start_finishes(
    discipline: Discipline,
    workers: nat,
    rounds: nat,
    stretches: Seq<Seq<Move>>,
)
    requires
        workers <= usize::MAX,
        forall|k: int| 0 <= k < stretches.len() ==> fair(#[trigger] stretches[k], workers),
        stretches.len() >= workers * (4 * rounds),
    ensures
        ArenaView::init(discipline, workers, rounds).run(chain(stretches)).finished(),
        discipline == Discipline::AcquireRelease ==> ArenaView::init(
            discipline,
            workers,
            rounds,
        ).run(chain(stretches)).payload() == workers * rounds,
{
    lemma_init_valid(discipline, workers, rounds);
    lemma_initial_work(discipline, workers, rounds);
    lemma_fair_schedules_finish(ArenaView::init(discipline, workers, rounds), stretches);
    if discipline == Discipline::AcquireRelease {
        lemma_counts_every_increment(workers, rounds, chain(stretches));
    }
}

/// The lock can be used again. When a worker releases the lock the flag is
/// free and the counter is as the worker left it. Whichever worker then
/// tries an undisturbed compare-and-swap, the releasing worker included,
/// takes the lock at once, and under a discipline that synchronizes it
/// reads the value that the releasing worker left.
pub proof fn lemma_reuse(a: ArenaView, release: Move, next: Move, read: Move)
    requires
        a.valid(),
        release.worker < a.workers.len(),
        a.workers[release.worker as int].pc == Pc::Unlock,
        next.worker < a.workers.len(),
        !next.glitch,
        a.step(release).workers[next.worker as int].pc == Pc::Acquiring(Phase::Attempt),
        read.worker == next.worker,
    ensures
        !a.step(release).flag,
        a.step(release).payload() == a.payload(),
        a.step(release).step(next).flag,
        a.step(release).step(next).workers[next.worker as int].pc == Pc::Read,
        a.discipline.synchronizes() ==> a.step(release).step(next).step(read).workers[next.worker as int].reg
            == a.payload(),
{
    let b = a.step(release);
    let c = b.step(next);
    lemma_step_valid(a, release);
    lemma_step_valid(b, next);
    assert(c.worker_valid(next.worker as int));
}

} // verus!
