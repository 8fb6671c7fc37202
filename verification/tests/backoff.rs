//! Retry pauses.

use std::cell::Cell;

use toyrcu::{retry, Backoff, Cleanup, Pause};

#[test]
fn pauses_double_and_then_stay() {
    let mut backoff = Backoff::new(7);
    let mut pauses = Vec::new();
    while backoff.may_try() {
        pauses.push(backoff.refuse());
    }
    assert_eq!(
        pauses,
        vec![
            Pause { spins: 2, yields: false },
            Pause { spins: 4, yields: false },
            Pause { spins: 8, yields: true },
            Pause { spins: 16, yields: true },
            Pause { spins: 16, yields: true },
            Pause { spins: 16, yields: true },
            Pause { spins: 16, yields: true },
        ]
    );
}

#[test]
fn no_try_without_a_limit() {
    assert!(!Backoff::new(0).may_try());
    assert!(Backoff::new(1).may_try());
}

#[test]
fn retry_stops_at_the_first_settled_attempt() {
    let tries = Cell::new(0);
    let settled = retry(
        5,
        || {
            tries.set(tries.get() + 1);
            if tries.get() == 3 {
                Some("done")
            } else {
                None
            }
        },
        || {},
    );
    assert_eq!(settled, Some("done"));
    assert_eq!(tries.get(), 3);
}

#[test]
fn retry_gives_up_at_the_limit() {
    let tries = Cell::new(0);
    let yields = Cell::new(0);
    let settled: Option<u8> = retry(
        4,
        || {
            tries.set(tries.get() + 1);
            None
        },
        || yields.set(yields.get() + 1),
    );
    assert_eq!(settled, None);
    assert_eq!(tries.get(), 4);
    assert_eq!(yields.get(), 2);
}

#[test]
fn only_a_busy_cleanup_is_worth_asking_again() {
    assert_eq!(Cleanup::Done.settled(), Some(true));
    assert_eq!(Cleanup::Nothing.settled(), Some(false));
    assert_eq!(Cleanup::Shared.settled(), Some(false));
    assert_eq!(Cleanup::Busy.settled(), None);
}
