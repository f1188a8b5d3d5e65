use spinlock::acquire::{decide, Phase, Verdict, LOCKED, UNLOCKED};
use spinlock::mutex::{Mutex, Step};
use std::cell::Cell;

/// Repeats `advance` until the operation has run, as a caller on a thread
/// would, and counts the calls that did not finish.
fn with_lock<T, R, F: FnOnce(&T) -> R>(m: &Mutex<T>, f: F) -> (R, usize) {
    let mut phase = Phase::Attempt;
    let mut f = f;
    let mut pending = 0;
    loop {
        match m.advance(phase, f) {
            Step::Finished(r) => return (r, pending),
            Step::Pending { phase: next, f: back, yield_turn } => {
                assert!(pending < 1_000_000, "the lock never became free");
                assert_eq!(decide(phase, next == Phase::Attempt).next, next);
                assert_eq!(yield_turn, phase == Phase::Watch);
                phase = next;
                f = back;
                pending += 1;
            }
        }
    }
}

#[test]
fn mutex_test() {
    let l = Mutex::new(Cell::new(0));
    for _ in 0..100 {
        for _ in 0..1000 {
            with_lock(&l, |v| {
                v.set(v.get() + 1);
            });
        }
    }
    assert_eq!(with_lock(&l, |v| v.get()).0, 100 * 1000);
}

#[test]
fn new_guards_the_initial_value() {
    let m = Mutex::new(String::from("payload"));
    let (seen, _) = with_lock(&m, |v| v.clone());
    assert_eq!(seen, "payload");
}

#[test]
fn operation_result_is_returned() {
    let m = Mutex::new(41u64);
    let (r, _) = with_lock(&m, |v| *v + 1);
    assert_eq!(r, 42);
}

#[test]
fn lock_is_free_again_after_each_section() {
    let m = Mutex::new(Cell::new(7u32));
    let mut waited = 0;
    for round in 0..50u32 {
        let (before, pending) = with_lock(&m, |v| {
            let before = v.get();
            v.set(before + 1);
            before
        });
        assert_eq!(before, 7 + round);
        waited += pending;
    }
    // Nobody else holds the lock, so waiting can only come from a
    // compare-and-swap that failed on a free flag.
    assert!(waited < 50);
}

#[test]
fn held_lock_turns_others_away() {
    let m = Mutex::new(Cell::new(0u32));
    let (inside, _) = with_lock(&m, |v| {
        // The lock is held here: a compare-and-swap fails, and a load sees
        // the flag taken.
        match m.advance(Phase::Attempt, |w: &Cell<u32>| w.set(100)) {
            Step::Finished(()) => panic!("two operations ran at once"),
            Step::Pending { phase, yield_turn, .. } => {
                assert_eq!(phase, Phase::Watch);
                assert!(!yield_turn);
            }
        }
        match m.advance(Phase::Watch, |w: &Cell<u32>| w.set(200)) {
            Step::Finished(()) => panic!("a load cannot take the lock"),
            Step::Pending { phase, yield_turn, .. } => {
                assert_eq!(phase, Phase::Watch);
                assert!(yield_turn);
            }
        }
        v.set(v.get() + 1);
        v.get()
    });
    assert_eq!(inside, 1);
    // Released: a load sees the flag free, and the next operation runs.
    match m.advance(Phase::Watch, |w: &Cell<u32>| w.set(300)) {
        Step::Finished(()) => panic!("a load cannot take the lock"),
        Step::Pending { phase, yield_turn, .. } => {
            assert_eq!(phase, Phase::Attempt);
            assert!(yield_turn);
        }
    }
    assert_eq!(with_lock(&m, |v| v.get()).0, 1);
}

#[test]
fn watching_never_runs_the_operation() {
    let m = Mutex::new(Cell::new(0u8));
    match m.advance(Phase::Watch, |v: &Cell<u8>| v.set(1)) {
        Step::Finished(()) => panic!("a load cannot take the lock"),
        Step::Pending { phase, yield_turn, .. } => {
            assert_eq!(phase, Phase::Attempt);
            assert!(yield_turn);
        }
    }
    assert_eq!(with_lock(&m, |v| v.get()).0, 0);
}

#[test]
fn operation_is_handed_back_when_pending() {
    let m = Mutex::new(3u32);
    let tag = 9u32;
    match m.advance(Phase::Watch, move |v: &u32| *v + tag) {
        Step::Finished(_) => panic!("a load cannot take the lock"),
        Step::Pending { f, .. } => assert_eq!(f(&1), 10),
    }
}

#[test]
fn flag_values() {
    assert!(LOCKED);
    assert!(!UNLOCKED);
}

#[test]
fn verdict_table() {
    assert_eq!(
        decide(Phase::Attempt, true),
        Verdict { enter: true, next: Phase::Attempt, yield_turn: false }
    );
    assert_eq!(
        decide(Phase::Attempt, false),
        Verdict { enter: false, next: Phase::Watch, yield_turn: false }
    );
    assert_eq!(
        decide(Phase::Watch, true),
        Verdict { enter: false, next: Phase::Attempt, yield_turn: true }
    );
    assert_eq!(
        decide(Phase::Watch, false),
        Verdict { enter: false, next: Phase::Watch, yield_turn: true }
    );
}
