use spinlock::flags::Thread::{AfterX, AfterY, SetX, SetY};
use spinlock::flags::{outcome, witness, Flags, Shared, Thread, Waiter};
use spinlock::relaxed::{is_reachable, observe, Cells, Outcome, Reads, Source};

#[test]
fn too_relaxed() {
    let both = Reads { y: Source::Stored, x: Source::Stored };
    let o = observe(42, both);
    assert_eq!(o.r1, 42);
    assert_eq!(o.r2, 42);
    assert!(is_reachable(42, Outcome { r1: 42, r2: 42 }));
}

#[test]
fn too_relaxed_has_other_outcomes() {
    let none = Reads { y: Source::Initial, x: Source::Initial };
    assert_eq!(observe(42, none), Outcome { r1: 0, r2: 0 });
    let first = Reads { y: Source::Stored, x: Source::Initial };
    assert_eq!(observe(42, first), Outcome { r1: 42, r2: 0 });
    // The second thread can only load what the first stored, which is what
    // the first loaded.
    let second = Reads { y: Source::Initial, x: Source::Stored };
    assert_eq!(observe(42, second), Outcome { r1: 0, r2: 0 });
}

#[test]
fn too_relaxed_reachable_set() {
    for r1 in [0usize, 1, 41, 42, 43] {
        for r2 in [0usize, 1, 41, 42, 43] {
            let expected = (r1, r2) == (0, 0) || (r1, r2) == (42, 0) || (r1, r2) == (42, 42);
            assert_eq!(is_reachable(42, Outcome { r1, r2 }), expected);
        }
    }
    assert!(is_reachable(0, Outcome { r1: 0, r2: 0 }));
    assert!(!is_reachable(0, Outcome { r1: 0, r2: 1 }));
}

#[test]
fn flags_start_unset() {
    let f = Flags::new();
    assert_eq!(
        f,
        Flags { x: false, y: false, z: 0, after_x: Waiter::Spin, after_y: Waiter::Spin }
    );
    assert!(!f.done());
}

#[test]
fn waiter_spins_until_its_flag_is_set() {
    let mut f = Flags::new();
    f.step(Thread::AfterX);
    f.step(Thread::AfterX);
    assert_eq!(f.after_x, Waiter::Spin);
    f.step(Thread::SetY);
    f.step(Thread::AfterX);
    assert_eq!(f.after_x, Waiter::Spin);
    f.step(Thread::SetX);
    f.step(Thread::AfterX);
    assert_eq!(f.after_x, Waiter::Check);
    f.step(Thread::AfterX);
    assert_eq!(f.after_x, Waiter::Bump);
    assert_eq!(f.z, 0);
    f.step(Thread::AfterX);
    assert_eq!(f.after_x, Waiter::Counted);
    assert_eq!(f.z, 1);
    f.step(Thread::AfterX);
    assert_eq!(f.z, 1);
    assert!(!f.done());
}

#[test]
fn waiter_steps() {
    assert_eq!(Waiter::Spin.advance(false, true), Waiter::Spin);
    assert_eq!(Waiter::Spin.advance(true, false), Waiter::Check);
    assert_eq!(Waiter::Check.advance(true, false), Waiter::Skipped);
    assert_eq!(Waiter::Check.advance(true, true), Waiter::Bump);
    assert_eq!(Waiter::Bump.advance(false, false), Waiter::Counted);
    assert_eq!(Waiter::Counted.advance(true, true), Waiter::Counted);
    assert_eq!(Waiter::Skipped.advance(true, true), Waiter::Skipped);
}

#[test]
fn counter_wraps_like_an_atomic_addition() {
    let mut f = Flags { x: true, y: true, z: usize::MAX, after_x: Waiter::Bump, after_y: Waiter::Spin };
    f.step(Thread::AfterX);
    assert_eq!(f.z, 0);
}

#[test]
fn one_is_reached_when_a_waiter_runs_between_the_stores() {
    assert_eq!(outcome(&vec![SetX, AfterX, AfterX, SetY, AfterY, AfterY, AfterY]), Some(1));
    assert_eq!(outcome(&vec![SetY, AfterY, AfterY, SetX, AfterX, AfterX, AfterX]), Some(1));
}

#[test]
fn two_is_reached_when_both_stores_come_first() {
    assert_eq!(
        outcome(&vec![SetX, SetY, AfterX, AfterX, AfterX, AfterY, AfterY, AfterY]),
        Some(2)
    );
    assert_eq!(
        outcome(&vec![SetY, SetX, AfterY, AfterX, AfterY, AfterX, AfterY, AfterX]),
        Some(2)
    );
}

#[test]
fn unfinished_schedules_have_no_outcome() {
    assert_eq!(outcome(&vec![]), None);
    assert_eq!(outcome(&vec![SetX, SetY, AfterX, AfterX, AfterX]), None);
    assert_eq!(outcome(&vec![AfterX, AfterY, AfterX, AfterY, AfterX, AfterY]), None);
}

#[test]
fn witnesses_give_what_they_promise() {
    for z in [1usize, 2] {
        let schedule = witness(z).expect("one and two are reachable");
        assert_eq!(outcome(&schedule), Some(z));
    }
    assert_eq!(witness(0), None);
    assert_eq!(witness(3), None);
    assert_eq!(witness(usize::MAX), None);
}

#[test]
fn counter_is_never_zero_over_all_short_schedules() {
    // Every schedule of up to nine steps over the four threads.
    let threads = [Thread::SetX, Thread::SetY, Thread::AfterX, Thread::AfterY];
    let mut seen = [0usize; 3];
    for len in 0..10u32 {
        for code in 0..4u64.pow(len) {
            let mut c = code;
            let mut schedule = Vec::new();
            for _ in 0..len {
                schedule.push(threads[(c % 4) as usize]);
                c /= 4;
            }
            if let Some(z) = outcome(&schedule) {
                assert!(z == 1 || z == 2, "z = {} under {:?}", z, schedule);
                seen[z] += 1;
            }
        }
    }
    assert_eq!(seen[0], 0);
    assert!(seen[1] > 0);
    assert!(seen[2] > 0);
}

/// Lets thread `t` perform `steps` operations on `shared`, starting from
/// `w`.
fn drive(shared: &Shared, t: Thread, mut w: Waiter, steps: usize) -> Waiter {
    for _ in 0..steps {
        w = shared.perform(t, w);
    }
    w
}

#[test]
fn shared_memory_starts_unset() {
    let shared = Shared::new();
    assert_eq!(shared.count(), 0);
    // Neither flag is set, so both waiting threads spin.
    assert_eq!(drive(&shared, AfterX, Waiter::Spin, 5), Waiter::Spin);
    assert_eq!(drive(&shared, AfterY, Waiter::Spin, 5), Waiter::Spin);
    assert_eq!(shared.count(), 0);
}

#[test]
fn shared_memory_counts_one() {
    // The order of the schedule that `witness(1)` gives.
    let shared = Shared::new();
    assert_eq!(shared.perform(SetX, Waiter::Spin), Waiter::Spin);
    assert_eq!(shared.perform(AfterX, Waiter::Spin), Waiter::Check);
    assert_eq!(shared.perform(AfterX, Waiter::Check), Waiter::Skipped);
    assert_eq!(shared.perform(AfterX, Waiter::Skipped), Waiter::Skipped);
    assert_eq!(shared.perform(SetY, Waiter::Check), Waiter::Check);
    assert_eq!(shared.perform(AfterY, Waiter::Spin), Waiter::Check);
    assert_eq!(shared.perform(AfterY, Waiter::Check), Waiter::Bump);
    assert_eq!(shared.count(), 0);
    assert_eq!(shared.perform(AfterY, Waiter::Bump), Waiter::Counted);
    assert_eq!(shared.count(), 1);
    assert_eq!(shared.perform(AfterY, Waiter::Counted), Waiter::Counted);
    assert_eq!(shared.count(), 1);
}

#[test]
fn shared_memory_counts_two() {
    let shared = Shared::new();
    shared.perform(SetY, Waiter::Spin);
    shared.perform(SetX, Waiter::Spin);
    assert_eq!(drive(&shared, AfterY, Waiter::Spin, 3), Waiter::Counted);
    assert_eq!(drive(&shared, AfterX, Waiter::Spin, 3), Waiter::Counted);
    assert_eq!(shared.count(), 2);
}

#[test]
fn shared_memory_follows_every_short_schedule() {
    // One thread takes the steps of each schedule in turn, so the
    // operations take effect in the order of the schedule.
    let threads = [SetX, SetY, AfterX, AfterY];
    for len in 0..9u32 {
        for code in 0..4u64.pow(len) {
            let mut c = code;
            let mut schedule = Vec::new();
            for _ in 0..len {
                schedule.push(threads[(c % 4) as usize]);
                c /= 4;
            }
            let shared = Shared::new();
            let mut model = Flags::new();
            let mut after_x = Waiter::Spin;
            let mut after_y = Waiter::Spin;
            for t in &schedule {
                model.step(*t);
                match t {
                    AfterX => after_x = shared.perform(*t, after_x),
                    AfterY => after_y = shared.perform(*t, after_y),
                    _ => {
                        shared.perform(*t, Waiter::Spin);
                    }
                }
            }
            assert_eq!(after_x, model.after_x);
            assert_eq!(after_y, model.after_y);
            assert_eq!(shared.count(), model.z);
        }
    }
}

#[test]
fn waiter_is_through_at_its_two_ends() {
    assert!(Waiter::Counted.is_through());
    assert!(Waiter::Skipped.is_through());
    assert!(!Waiter::Spin.is_through());
    assert!(!Waiter::Check.is_through());
    assert!(!Waiter::Bump.is_through());
}

#[test]
fn cells_first_thread_first() {
    // Run one after the other, the threads give the outcome in which the
    // first loads the initial zero and the second loads what the first
    // stored.
    let cells = Cells::new();
    let r1 = cells.first();
    let r2 = cells.second(42);
    let o = Outcome { r1, r2 };
    assert_eq!(o, observe(42, Reads { y: Source::Initial, x: Source::Stored }));
    assert_eq!(o, Outcome { r1: 0, r2: 0 });
    assert!(is_reachable(42, o));
}

#[test]
fn cells_second_thread_first() {
    let cells = Cells::new();
    let r2 = cells.second(42);
    let r1 = cells.first();
    let o = Outcome { r1, r2 };
    assert_eq!(o, observe(42, Reads { y: Source::Stored, x: Source::Initial }));
    assert_eq!(o, Outcome { r1: 42, r2: 0 });
    assert!(is_reachable(42, o));
}

#[test]
fn cells_keep_what_was_stored() {
    let cells = Cells::new();
    assert_eq!(cells.second(7), 0);
    // The first thread copies `y` into `x`.
    assert_eq!(cells.first(), 7);
    assert_eq!(cells.second(9), 7);
    assert_eq!(cells.first(), 9);
}
