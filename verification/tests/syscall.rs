use ring_runtime::syscall::{outcome, Lifecycle, OsError, Polled, SysCall};

#[test]
fn new_operation_is_submitted() {
    let op = SysCall::new();
    assert_eq!(op.state, Lifecycle::Submitted);
    assert!(!op.drained);
    assert!(op.is_outstanding());
}

#[test]
fn first_poll_parks_the_task() {
    let mut op = SysCall::new();
    assert_eq!(op.poll(3), Polled::Pending);
    assert_eq!(op.state, Lifecycle::Waiting(3));
    assert!(!op.drained);
}

#[test]
fn completion_before_first_poll_is_ready_at_once() {
    let mut op = SysCall::new();
    assert_eq!(op.complete(42), None);
    assert_eq!(op.state, Lifecycle::Completed(42));
    assert_eq!(op.poll(1), Polled::Ready(Ok(42)));
    assert!(op.drained);
}

#[test]
fn completion_after_poll_wakes_the_parked_task_once() {
    let mut op = SysCall::new();
    assert_eq!(op.poll(5), Polled::Pending);
    assert_eq!(op.complete(9), Some(5));
    assert!(!op.is_outstanding());
    assert_eq!(op.state, Lifecycle::Completed(9));
    assert_eq!(op.poll(5), Polled::Ready(Ok(9)));
}

#[test]
fn repolling_replaces_the_waker() {
    let mut op = SysCall::new();
    assert_eq!(op.poll(1), Polled::Pending);
    assert_eq!(op.poll(2), Polled::Pending);
    assert_eq!(op.state, Lifecycle::Waiting(2));
    assert_eq!(op.complete(0), Some(2));
}

#[test]
fn repolling_with_the_same_waker_keeps_it() {
    let mut op = SysCall::new();
    assert_eq!(op.poll(4), Polled::Pending);
    assert_eq!(op.poll(4), Polled::Pending);
    assert_eq!(op.state, Lifecycle::Waiting(4));
    assert_eq!(op.complete(1), Some(4));
}

#[test]
fn ready_marks_the_operation_as_drained() {
    let mut op = SysCall::new();
    op.complete(1);
    assert!(!op.drained);
    assert_eq!(op.poll(0), Polled::Ready(Ok(1)));
    assert!(op.drained);
    assert_eq!(op.state, Lifecycle::Completed(1));
}

#[test]
fn recv_of_zero_bytes_is_ok_zero() {
    assert_eq!(outcome(0), Ok(0));
    let mut op = SysCall::new();
    op.complete(0);
    assert_eq!(op.poll(0), Polled::Ready(Ok(0)));
}

#[test]
fn negative_return_code_is_an_os_error() {
    assert_eq!(outcome(-104), Err(OsError { errno: 104 }));
    assert_eq!(outcome(-1), Err(OsError { errno: 1 }));
    let mut op = SysCall::new();
    op.poll(0);
    op.complete(-32);
    assert_eq!(op.poll(0), Polled::Ready(Err(OsError { errno: 32 })));
}

#[test]
fn extreme_return_codes() {
    assert_eq!(outcome(i32::MAX), Ok(2147483647));
    assert_eq!(outcome(i32::MIN), Err(OsError { errno: 2147483648 }));
}
