//! Facts about sums, schedules and single steps that the laws of
//! [`crate::laws`] are proved from.
use crate::acquire::Phase;
use crate::model::{chain, fair, occurrences, total, ArenaView, Discipline, Move, Pc, WorkerView};
use vstd::prelude::*;

verus! {

/// Replacing one entry of a sequence changes its sum by the difference.
pub proof fn lemma_total_update(s: Seq<nat>, i: int, v: nat)
    requires
        0 <= i < s.len(),
    ensures
        total(s.update(i, v)) + s[i] == total(s) + v,
    decreases s.len(),
{
    let t = s.update(i, v);
    if i == s.len() - 1 {
        assert(t.drop_last() =~= s.drop_last());
    } else {
        assert(t.drop_last() =~= s.drop_last().update(i, v));
        lemma_total_update(s.drop_last(), i, v);
    }
}

/// The sum of `n` entries that are all `v` is `n * v`.
pub proof fn lemma_total_uniform(s: Seq<nat>, v: nat)
    requires
        forall|i: int| 0 <= i < s.len() ==> s[i] == v,
    ensures
        total(s) == s.len() * v,
    decreases s.len(),
{
    if s.len() > 0 {
        lemma_total_uniform(s.drop_last(), v);
        assert(s.len() * v == (s.len() - 1) * v + v) by (nonlinear_arith);
    }
}

/// A sum of natural numbers is zero only if every entry is.
pub proof fn lemma_total_zero(s: Seq<nat>)
    requires
        total(s) == 0,
    ensures
        forall|i: int| 0 <= i < s.len() ==> s[i] == 0,
    decreases s.len(),
{
    if s.len() > 0 {
        lemma_total_zero(s.drop_last());
        assert forall|i: int| 0 <= i < s.len() implies s[i] == 0 by {
            if i < s.len() - 1 {
                assert(s.drop_last()[i] == s[i]);
            }
        }
    }
}

/// Replacing worker `i` by `w` changes what is owed, and the work ahead,
/// by the difference between `w` and the worker it replaces.
pub proof fn lemma_replace_worker(a: ArenaView, b: ArenaView, i: int, w: WorkerView)
    requires
        0 <= i < a.workers.len(),
        b.workers == a.workers.update(i, w),
    ensures
        total(b.owed()) + a.workers[i].owed() == total(a.owed()) + w.owed(),
        total(b.work()) + a.workers[i].work() == total(a.work()) + w.work(),
{
    assert(b.owed() =~= a.owed().update(i, w.owed()));
    assert(b.work() =~= a.work().update(i, w.work()));
    lemma_total_update(a.owed(), i, w.owed());
    lemma_total_update(a.work(), i, w.work());
}

/// The initial state is valid.
pub proof fn lemma_init_valid(discipline: Discipline, workers: nat, rounds: nat)
    requires
        workers <= usize::MAX,
    ensures
        ArenaView::init(discipline, workers, rounds).valid(),
{
    let a = ArenaView::init(discipline, workers, rounds);
    assert forall|i: int| 0 <= i < a.workers.len() implies #[trigger] a.worker_valid(i) by {}
    assert forall|i: int| 0 <= i < a.workers.len() implies !(#[trigger] a.workers[i]).holding() by {}
    lemma_total_uniform(a.owed(), rounds);
}

/// A step leads from a valid state to a valid state.
pub proof fn lemma_step_valid(a: ArenaView, mv: Move)
    requires
        a.valid(),
    ensures
        a.step(mv).valid(),
{
    let b = a.step(mv);
    let i = mv.worker as int;
    if i < a.workers.len() && a.workers[i].pc != Pc::Done {
        assert(a.worker_valid(i));
        lemma_replace_worker(a, b, i, b.workers[i]);
        assert forall|j: int| 0 <= j < b.workers.len() implies #[trigger] b.worker_valid(j) by {
            assert(a.worker_valid(j));
        }
        if b.flag && !b.workers[i].holding() {
            let h = choose|h: int| 0 <= h < a.workers.len() && (#[trigger] a.workers[h]).holding();
            assert(b.workers[h].holding());
        }
    }
}

/// Every schedule leads from a valid state to a valid state.
pub proof fn lemma_run_valid(a: ArenaView, schedule: Seq<Move>)
    requires
        a.valid(),
    ensures
        a.run(schedule).valid(),
    decreases schedule.len(),
{
    if schedule.len() > 0 {
        lemma_run_valid(a, schedule.drop_last());
        lemma_step_valid(a.run(schedule.drop_last()), schedule.last());
    }
}

/// A step changes neither the number of workers, nor the rounds they
/// started with, nor the discipline.
pub proof fn lemma_step_frame(a: ArenaView, mv: Move)
    ensures
        a.step(mv).workers.len() == a.workers.len(),
        a.step(mv).rounds == a.rounds,
        a.step(mv).discipline == a.discipline,
{
}

/// A schedule changes neither the number of workers, nor the rounds they
/// started with, nor the discipline.
pub proof fn lemma_run_frame(a: ArenaView, schedule: Seq<Move>)
    ensures
        a.run(schedule).workers.len() == a.workers.len(),
        a.run(schedule).rounds == a.rounds,
        a.run(schedule).discipline == a.discipline,
    decreases schedule.len(),
{
    if schedule.len() > 0 {
        lemma_run_frame(a, schedule.drop_last());
        lemma_step_frame(a.run(schedule.drop_last()), schedule.last());
    }
}

/// Running a schedule with one more move at its end is running the
/// schedule and then taking the move.
pub proof fn lemma_run_push(a: ArenaView, schedule: Seq<Move>, mv: Move)
    ensures
        a.run(schedule.push(mv)) == a.run(schedule).step(mv),
{
    assert(schedule.push(mv).drop_last() =~= schedule);
}

/// Running a schedule with one more move at its front is taking the move
/// and then running the schedule.
pub proof fn lemma_run_prepend(a: ArenaView, mv: Move, schedule: Seq<Move>)
    ensures
        a.run(seq![mv] + schedule) == a.step(mv).run(schedule),
    decreases schedule.len(),
{
    let whole = seq![mv] + schedule;
    if schedule.len() == 0 {
        assert(a.run(whole.drop_last()) == a);
    } else {
        assert(whole.drop_last() =~= seq![mv] + schedule.drop_last());
        lemma_run_prepend(a, mv, schedule.drop_last());
    }
}

/// A schedule is its first move followed by the rest.
pub proof fn lemma_run_first(a: ArenaView, schedule: Seq<Move>)
    requires
        schedule.len() > 0,
    ensures
        a.run(schedule) == a.step(schedule.first()).run(schedule.drop_first()),
{
    assert(schedule =~= seq![schedule.first()] + schedule.drop_first());
    lemma_run_prepend(a, schedule.first(), schedule.drop_first());
}

/// Running one schedule after another is running the first and then, from
/// where it ends, the second.
pub proof fn lemma_run_concat(a: ArenaView, front: Seq<Move>, back: Seq<Move>)
    ensures
        a.run(front + back) == a.run(front).run(back),
    decreases back.len(),
{
    if back.len() == 0 {
        assert(front + back =~= front);
    } else {
        assert((front + back).drop_last() =~= front + back.drop_last());
        lemma_run_concat(a, front, back.drop_last());
    }
}

/// A chain with one more stretch at its end is the chain followed by the
/// stretch.
pub proof fn lemma_chain_push(stretches: Seq<Seq<Move>>, stretch: Seq<Move>)
    ensures
        chain(stretches.push(stretch)) == chain(stretches) + stretch,
    decreases stretches.len(),
{
    if stretches.len() == 0 {
        assert(stretches.push(stretch).drop_first() =~= stretches);
        assert(chain(stretches) =~= Seq::<Move>::empty());
    } else {
        assert(stretches.push(stretch).drop_first() =~= stretches.drop_first().push(stretch));
        lemma_chain_push(stretches.drop_first(), stretch);
    }
}

/// The number of steps of a worker in two schedules, one after the other,
/// is the sum of its steps in each.
pub proof fn lemma_occurrences_concat(front: Seq<Move>, back: Seq<Move>, i: int)
    ensures
        occurrences(front + back, i) == occurrences(front, i) + occurrences(back, i),
    decreases front.len(),
{
    if front.len() == 0 {
        assert(front + back =~= back);
    } else {
        assert((front + back).drop_first() =~= front.drop_first() + back);
        lemma_occurrences_concat(front.drop_first(), back, i);
    }
}

/// A worker that a schedule names at some position steps at least once.
pub proof fn lemma_occurs(schedule: Seq<Move>, k: int)
    requires
        0 <= k < schedule.len(),
    ensures
        occurrences(schedule, schedule[k].worker as int) >= 1,
    decreases schedule.len(),
{
    if k > 0 {
        lemma_occurs(schedule.drop_first(), k - 1);
    }
}

/// Two sweeps over the workers make a fair stretch.
pub proof fn lemma_two_sweeps_fair(a: ArenaView)
    requires
        a.workers.len() <= usize::MAX,
    ensures
        fair(a.sweep() + a.sweep(), a.workers.len()),
{
    let stretch = a.sweep() + a.sweep();
    assert forall|i: int| 0 <= i < a.workers.len() implies #[trigger] occurrences(stretch, i)
        >= 2 by {
        lemma_occurs(a.sweep(), i);
        lemma_occurrences_concat(a.sweep(), a.sweep(), i);
    }
}

/// In a valid state in which every worker is done, nothing is owed and no
/// work is left.
pub proof fn lemma_finished_owes_nothing(a: ArenaView)
    requires
        a.valid(),
        a.finished(),
    ensures
        total(a.owed()) == 0,
        total(a.work()) == 0,
{
    assert forall|i: int| 0 <= i < a.owed().len() implies a.owed()[i] == 0 by {
        assert(a.worker_valid(i));
    }
    lemma_total_uniform(a.owed(), 0);
    lemma_total_uniform(a.work(), 0);
}

/// In a valid state with no work left, every worker is done.
pub proof fn lemma_no_work_is_finished(a: ArenaView)
    requires
        a.valid(),
        total(a.work()) == 0,
    ensures
        a.finished(),
{
    lemma_total_zero(a.work());
    assert forall|i: int| 0 <= i < a.workers.len() implies (#[trigger] a.workers[i]).pc
        == Pc::Done by {
        assert(a.worker_valid(i));
        assert(a.work()[i] == 0);
    }
}

/// The work ahead of `workers` fresh workers with `rounds` rounds each is
/// four steps per worker and round.
pub proof fn lemma_initial_work(discipline: Discipline, workers: nat, rounds: nat)
    ensures
        total(ArenaView::init(discipline, workers, rounds).work()) == workers * (4 * rounds),
{
    let a = ArenaView::init(discipline, workers, rounds);
    lemma_total_uniform(a.work(), 4 * rounds);
}

/// No step adds to the work that is left.
pub proof fn lemma_step_work(a: ArenaView, mv: Move)
    requires
        a.valid(),
    ensures
        total(a.step(mv).work()) <= total(a.work()),
{
    let i = mv.worker as int;
    let b = a.step(mv);
    if i < a.workers.len() && a.workers[i].pc != Pc::Done {
        assert(a.worker_valid(i));
        lemma_replace_worker(a, b, i, b.workers[i]);
    }
}

/// No schedule adds to the work that is left.
pub proof fn lemma_run_work(a: ArenaView, schedule: Seq<Move>)
    requires
        a.valid(),
    ensures
        total(a.run(schedule).work()) <= total(a.work()),
    decreases schedule.len(),
{
    if schedule.len() > 0 {
        lemma_run_work(a, schedule.drop_last());
        lemma_run_valid(a, schedule.drop_last());
        lemma_step_work(a.run(schedule.drop_last()), schedule.last());
    }
}

/// A step of the worker that owns the lock takes one unit off the work
/// that is left, and so does a compare-and-swap that takes the lock.
pub proof fn lemma_step_progress(a: ArenaView, mv: Move)
    requires
        a.valid(),
        mv.worker < a.workers.len(),
        a.workers[mv.worker as int].holding() || a.step(mv).workers[mv.worker as int].pc
            == Pc::Read,
    ensures
        total(a.step(mv).work()) < total(a.work()),
{
    let i = mv.worker as int;
    let b = a.step(mv);
    assert(a.worker_valid(i));
    lemma_replace_worker(a, b, i, b.workers[i]);
}

/// While a worker owns the lock, any schedule in which it steps at least
/// once takes off some of the work that is left.
pub proof fn lemma_owner_progress(a: ArenaView, schedule: Seq<Move>, owner: int)
    requires
        a.valid(),
        0 <= owner < a.workers.len(),
        a.workers[owner].holding(),
        occurrences(schedule, owner) >= 1,
    ensures
        total(a.run(schedule).work()) < total(a.work()),
    decreases schedule.len(),
{
    let mv = schedule.first();
    let rest = schedule.drop_first();
    let b = a.step(mv);
    lemma_run_first(a, schedule);
    lemma_step_valid(a, mv);
    lemma_run_work(b, rest);
    if mv.worker == owner {
        lemma_step_progress(a, mv);
    } else {
        lemma_step_work(a, mv);
        lemma_owner_progress(b, rest, owner);
    }
}

/// While the lock is free, any schedule without glitches in which a worker
/// that wants the lock steps often enough takes off some of the work that
/// is left: once is enough for a worker about to compare and swap, twice
/// for a worker that watches.
pub proof fn lemma_free_progress(a: ArenaView, schedule: Seq<Move>, waiting: int)
    requires
        a.valid(),
        !a.flag,
        0 <= waiting < a.workers.len(),
        a.workers[waiting].pc != Pc::Done,
        forall|k: int| 0 <= k < schedule.len() ==> !(#[trigger] schedule[k]).glitch,
        occurrences(schedule, waiting) >= 2 || (occurrences(schedule, waiting) >= 1
            && a.workers[waiting].pc == Pc::Acquiring(Phase::Attempt)),
    ensures
        total(a.run(schedule).work()) < total(a.work()),
    decreases schedule.len(),
{
    let mv = schedule.first();
    let rest = schedule.drop_first();
    let b = a.step(mv);
    let i = mv.worker as int;
    lemma_run_first(a, schedule);
    lemma_step_valid(a, mv);
    lemma_run_work(b, rest);
    lemma_step_work(a, mv);
    if i < a.workers.len() && b.workers[i].pc == Pc::Read {
        lemma_step_progress(a, mv);
    } else {
        lemma_free_progress(b, rest, waiting);
    }
}

} // verus!
