use client_side::registry::{CancelError, DispatchDecision, TaskRegistry};

#[test]
fn generations_are_allocated_in_order_and_distinct() {
    let mut reg = TaskRegistry::new();
    let g0 = reg.register();
    let g1 = reg.register();
    let g2 = reg.register();
    assert_eq!(g0, 0);
    assert_eq!(g1, 1);
    assert_eq!(g2, 2);
    assert!(g0 != g1 && g1 != g2 && g0 != g2);
    assert_eq!(reg.outstanding(), 3);
}

#[test]
fn session_reservations_share_the_generation_counter() {
    let mut reg = TaskRegistry::new();
    let g0 = reg.register();
    let s = reg.reserve();
    let g1 = reg.register();
    assert_eq!((g0, s, g1), (0, 1, 2));
    assert_eq!(reg.peek_next(), 3);
    // a reserved generation never carries a record
    assert_eq!(reg.cancel(s), Err(CancelError::NotFound));
    assert_eq!(reg.complete(s), DispatchDecision::AlreadyRemoved);
}

#[test]
fn cancel_of_unknown_generation_reports_not_found() {
    let mut reg = TaskRegistry::new();
    assert_eq!(reg.cancel(0), Err(CancelError::NotFound));
}

#[test]
fn cancel_wins_race_and_silences_callback() {
    let mut reg = TaskRegistry::new();
    let g = reg.register();
    assert_eq!(reg.cancel(g), Ok(()));
    // the result arriving later finds no record: the callback never fires
    assert_eq!(reg.complete(g), DispatchDecision::AlreadyRemoved);
}

#[test]
fn cancel_is_idempotent() {
    let mut reg = TaskRegistry::new();
    let g = reg.register();
    assert_eq!(reg.cancel(g), Ok(()));
    assert_eq!(reg.cancel(g), Err(CancelError::NotFound));
}

#[test]
fn callback_fires_exactly_once() {
    let mut reg = TaskRegistry::new();
    let g = reg.register();
    assert_eq!(reg.complete(g), DispatchDecision::Deliver);
    assert_eq!(reg.complete(g), DispatchDecision::AlreadyRemoved);
    assert_eq!(reg.cancel(g), Err(CancelError::NotFound));
}

#[test]
fn completion_only_touches_its_own_generation() {
    let mut reg = TaskRegistry::new();
    let g0 = reg.register();
    let g1 = reg.register();
    assert_eq!(reg.complete(g0), DispatchDecision::Deliver);
    assert_eq!(reg.outstanding(), 1);
    assert_eq!(reg.cancel(g1), Ok(()));
    assert_eq!(reg.outstanding(), 0);
}

#[test]
fn shutdown_aborts_every_outstanding_task() {
    let mut reg = TaskRegistry::new();
    let g0 = reg.register();
    let g1 = reg.register();
    let g2 = reg.register();
    assert_eq!(reg.complete(g1), DispatchDecision::Deliver);
    let mut aborted = reg.shutdown();
    aborted.sort();
    assert_eq!(aborted, vec![g0, g2]);
    assert_eq!(reg.outstanding(), 0);
    assert_eq!(reg.complete(g0), DispatchDecision::AlreadyRemoved);
}
