use ring_runtime::executor::Work;
use ring_runtime::reactor::{Completion, IouError, SUBMISSION_CAPACITY};
use ring_runtime::runtime::Runtime;
use ring_runtime::syscall::{OsError, Polled};

/// A kernel entry of the simulated ring.
#[derive(Clone, Debug, PartialEq)]
enum Entry {
    Accept { listener: i32 },
    Recv { fd: i32, len: usize },
    Send { fd: i32, bytes: Vec<u8> },
    Close { fd: i32 },
}

/// A task that awaits a fixed list of operations, one after the other, and
/// stops at the first that fails.
#[derive(Debug, PartialEq)]
struct Script {
    entries: Vec<Entry>,
    awaiting: Option<usize>,
    results: Vec<Result<u32, OsError>>,
}

fn script(entries: Vec<Entry>) -> Script {
    Script { entries, awaiting: None, results: Vec::new() }
}

type Sim = Runtime<Script, Entry>;

/// Polls a script once. Returns the script if it is still pending, and its
/// results if it finished.
fn poll_script(rt: &mut Sim, task: usize, mut s: Script) -> Result<Script, Vec<Result<u32, OsError>>> {
    loop {
        if let Some(op) = s.awaiting {
            assert!(rt.pollable(op));
            match rt.poll(op, task) {
                Polled::Pending => return Ok(s),
                Polled::Ready(r) => {
                    s.results.push(r);
                    s.awaiting = None;
                }
            }
        }
        let failed = s.results.last().map_or(false, |r| r.is_err());
        if failed || s.results.len() == s.entries.len() {
            return Err(s.results);
        }
        s.awaiting = Some(rt.register(s.entries[s.results.len()].clone()).unwrap());
    }
}

/// Runs the drive loop against a simulated kernel that completes every entry
/// in flight, newest first, with the code that `kernel` gives. Returns what
/// each finished task awaited, in the order in which the tasks finished, and
/// the number of iterations.
fn drive(rt: &mut Sim, kernel: fn(&Entry) -> i32) -> (Vec<(usize, Vec<Result<u32, OsError>>)>, usize) {
    let mut finished = Vec::new();
    let mut ring: Vec<(u64, Entry)> = Vec::new();
    let mut iterations = 0;
    loop {
        iterations += 1;
        let progressed = loop {
            match rt.next_work() {
                Work::Poll { task, future } => match poll_script(rt, task, future) {
                    Ok(pending) => rt.park(task, pending),
                    Err(results) => finished.push((task, results)),
                },
                Work::Idle { progressed } => break progressed,
            }
        };
        while let Some((entry, tag)) = rt.next_submission(false).unwrap() {
            ring.push((tag, entry));
        }
        assert_eq!(rt.should_block(), !ring.is_empty());
        let batch: Vec<(u64, i32)> = ring.drain(..).rev().map(|(tag, e)| (tag, kernel(&e))).collect();
        for (tag, ret) in batch {
            assert!(matches!(rt.complete(tag, ret), Completion::Fire { .. }));
        }
        if !Sim::keep_running(progressed, rt.outstanding()) {
            return (finished, iterations);
        }
    }
}

fn echo_kernel(entry: &Entry) -> i32 {
    match entry {
        Entry::Accept { listener } => listener + 100,
        Entry::Recv { fd, len } => (*len).min(*fd as usize) as i32,
        Entry::Send { bytes, .. } => bytes.len() as i32,
        Entry::Close { .. } => 0,
    }
}

fn closed_peer_kernel(entry: &Entry) -> i32 {
    match entry {
        Entry::Accept { listener } => listener + 100,
        Entry::Recv { .. } => 0,
        Entry::Send { .. } => -32,
        Entry::Close { .. } => 0,
    }
}

#[test]
fn idle_runtime_stops_after_one_iteration() {
    let mut rt = Sim::new();
    let (finished, iterations) = drive(&mut rt, echo_kernel);
    assert!(finished.is_empty());
    assert_eq!(iterations, 1);
}

#[test]
fn keep_running_is_a_disjunction() {
    assert!(Sim::keep_running(true, true));
    assert!(Sim::keep_running(true, false));
    assert!(Sim::keep_running(false, true));
    assert!(!Sim::keep_running(false, false));
}

#[test]
fn single_accept() {
    let mut rt = Sim::new();
    let task = rt.spawn(script(vec![Entry::Accept { listener: 3 }])).unwrap();
    let (finished, iterations) = drive(&mut rt, echo_kernel);
    assert_eq!(finished, vec![(task, vec![Ok(103)])]);
    assert_eq!(iterations, 3);
    assert!(!rt.outstanding());
}

#[test]
fn echo_one_buffer() {
    let mut rt = Sim::new();
    let task = rt.spawn(script(vec![
        Entry::Accept { listener: 3 },
        Entry::Recv { fd: 5, len: 512 },
        Entry::Send { fd: 5, bytes: b"hello".to_vec() },
        Entry::Close { fd: 5 },
    ])).unwrap();
    let (finished, _) = drive(&mut rt, echo_kernel);
    assert_eq!(finished, vec![(task, vec![Ok(103), Ok(5), Ok(5), Ok(0)])]);
    assert_eq!(rt.next_tag(), 4);
}

#[test]
fn peer_closed() {
    let mut rt = Sim::new();
    let task = rt.spawn(script(vec![
        Entry::Accept { listener: 3 },
        Entry::Recv { fd: 103, len: 512 },
        Entry::Close { fd: 103 },
    ])).unwrap();
    let (finished, _) = drive(&mut rt, closed_peer_kernel);
    assert_eq!(finished, vec![(task, vec![Ok(103), Ok(0), Ok(0)])]);
}

#[test]
fn failed_operation_is_an_error_of_its_task_only() {
    let mut rt = Sim::new();
    let a = rt.spawn(script(vec![Entry::Send { fd: 4, bytes: b"x".to_vec() }])).unwrap();
    let b = rt.spawn(script(vec![Entry::Close { fd: 5 }])).unwrap();
    let (mut finished, _) = drive(&mut rt, closed_peer_kernel);
    finished.sort_by_key(|f| f.0);
    assert_eq!(finished, vec![(a, vec![Err(OsError { errno: 32 })]), (b, vec![Ok(0)])]);
}

fn reset_kernel(entry: &Entry) -> i32 {
    match entry {
        Entry::Recv { fd: 7, .. } => -104,
        other => echo_kernel(other),
    }
}

#[test]
fn failed_receive_ends_its_task_and_the_other_is_served() {
    let mut rt = Sim::new();
    let a = rt
        .spawn(script(vec![
            Entry::Recv { fd: 7, len: 512 },
            Entry::Send { fd: 7, bytes: b"never".to_vec() },
        ]))
        .unwrap();
    let b = rt
        .spawn(script(vec![
            Entry::Recv { fd: 9, len: 512 },
            Entry::Send { fd: 9, bytes: b"nine.....".to_vec() },
            Entry::Close { fd: 9 },
        ]))
        .unwrap();
    let (mut finished, _) = drive(&mut rt, reset_kernel);
    finished.sort_by_key(|f| f.0);
    assert_eq!(
        finished,
        vec![(a, vec![Err(OsError { errno: 104 })]), (b, vec![Ok(9), Ok(9), Ok(0)])]
    );
    assert_eq!((rt.in_flight(), rt.queued(), rt.awaited()), (0, 0, 0));
}

#[test]
fn submission_channel_holds_ten_entries() {
    let mut rt: Sim = Runtime::new();
    for i in 0..SUBMISSION_CAPACITY {
        assert!(!rt.channel_full());
        assert_eq!(rt.register(Entry::Close { fd: i as i32 }), Ok(i));
    }
    assert!(rt.channel_full());
    assert_eq!(rt.queued(), 10);
    assert_eq!(rt.register(Entry::Close { fd: 99 }), Err(Entry::Close { fd: 99 }));
    assert_eq!((rt.in_flight(), rt.queued(), rt.awaited()), (0, 10, 10));
    assert_eq!(rt.next_submission(false), Ok(Some((Entry::Close { fd: 0 }, 0))));
    assert!(!rt.channel_full());
    assert_eq!(rt.register(Entry::Close { fd: 99 }), Ok(10));
    assert!(rt.channel_full());
    assert_eq!((rt.in_flight(), rt.queued(), rt.awaited()), (1, 10, 11));
}

#[test]
fn registration_names_a_new_submitted_operation() {
    let mut rt: Sim = Runtime::new();
    let a = rt.register(Entry::Close { fd: 1 }).unwrap();
    let b = rt.register(Entry::Close { fd: 2 }).unwrap();
    assert_eq!((a, b), (0, 1));
    assert!(rt.pollable(a) && rt.pollable(b));
    assert_eq!((rt.in_flight(), rt.queued(), rt.awaited()), (0, 2, 2));
    assert_eq!(rt.next_submission(false), Ok(Some((Entry::Close { fd: 1 }, 0))));
    assert_eq!(rt.next_submission(false), Ok(Some((Entry::Close { fd: 2 }, 1))));
}

#[test]
fn two_concurrent_connections() {
    let mut rt = Sim::new();
    let a = rt.spawn(script(vec![
        Entry::Recv { fd: 7, len: 512 },
        Entry::Send { fd: 7, bytes: b"seven..".to_vec() },
        Entry::Close { fd: 7 },
    ])).unwrap();
    let b = rt.spawn(script(vec![
        Entry::Recv { fd: 9, len: 512 },
        Entry::Send { fd: 9, bytes: b"nine.....".to_vec() },
        Entry::Close { fd: 9 },
    ])).unwrap();
    let (mut finished, _) = drive(&mut rt, echo_kernel);
    finished.sort_by_key(|f| f.0);
    assert_eq!(
        finished,
        vec![(a, vec![Ok(7), Ok(7), Ok(0)]), (b, vec![Ok(9), Ok(9), Ok(0)])]
    );
    assert_eq!(rt.next_tag(), 6);
}

#[test]
fn registered_operation_is_in_flight_only_after_submission() {
    let mut rt: Sim = Runtime::new();
    let op = rt.register(Entry::Close { fd: 1 }).unwrap();
    assert_eq!(op, 0);
    assert!(rt.pollable(op));
    assert!(!rt.should_block());
    assert_eq!(rt.next_submission(false), Ok(Some((Entry::Close { fd: 1 }, 0))));
    assert!(rt.should_block());
    assert_eq!(rt.next_submission(false), Ok(None));
    assert_eq!(rt.complete(0, 0), Completion::Fire { callback: op, ret: 0 });
    assert!(!rt.should_block());
    assert!(!rt.outstanding());
}

#[test]
fn full_ring_is_a_push_error() {
    let mut rt: Sim = Runtime::new();
    rt.register(Entry::Close { fd: 1 }).unwrap();
    assert_eq!(rt.next_submission(true), Err(IouError::Push));
    assert_eq!(rt.next_tag(), 0);
}

#[test]
fn drained_channel_ignores_a_full_ring() {
    let mut rt: Sim = Runtime::new();
    assert_eq!(rt.next_submission(true), Ok(None));
}

#[test]
fn completion_wakes_the_task_that_polled_last() {
    let mut rt: Sim = Runtime::new();
    let a = rt.spawn(script(Vec::new())).unwrap();
    let b = rt.spawn(script(Vec::new())).unwrap();
    assert!(matches!(rt.next_work(), Work::Poll { task, .. } if task == a));
    assert!(matches!(rt.next_work(), Work::Poll { task, .. } if task == b));
    rt.park(a, script(Vec::new()));
    rt.park(b, script(Vec::new()));
    assert_eq!(rt.next_work(), Work::Idle { progressed: true });
    let op = rt.register(Entry::Accept { listener: 3 }).unwrap();
    assert_eq!(rt.poll(op, a), Polled::Pending);
    assert_eq!(rt.poll(op, b), Polled::Pending);
    let (_, tag) = rt.next_submission(false).unwrap().unwrap();
    assert_eq!(rt.complete(tag, 8), Completion::Fire { callback: op, ret: 8 });
    assert!(matches!(rt.next_work(), Work::Poll { task, .. } if task == b));
    assert_eq!(rt.next_work(), Work::Idle { progressed: true });
    assert_eq!(rt.poll(op, b), Polled::Ready(Ok(8)));
    assert!(!rt.pollable(op));
}

#[test]
fn completion_before_the_first_poll_wakes_nobody() {
    let mut rt: Sim = Runtime::new();
    let op = rt.register(Entry::Accept { listener: 3 }).unwrap();
    let (_, tag) = rt.next_submission(false).unwrap().unwrap();
    rt.complete(tag, 6);
    assert_eq!(rt.next_work(), Work::Idle { progressed: false });
    assert_eq!(rt.poll(op, 0), Polled::Ready(Ok(6)));
}

#[test]
fn second_completion_of_a_tag_is_unknown() {
    let mut rt: Sim = Runtime::new();
    rt.register(Entry::Accept { listener: 3 }).unwrap();
    rt.next_submission(false).unwrap();
    assert!(matches!(rt.complete(0, 6), Completion::Fire { .. }));
    assert_eq!(rt.complete(0, 6), Completion::Unknown);
    assert_eq!(rt.complete(u64::MAX, 6), Completion::Cancelled);
}

#[test]
fn outside_waker_requeues_a_task() {
    let mut rt: Sim = Runtime::new();
    let a = rt.spawn(script(Vec::new())).unwrap();
    assert!(matches!(rt.next_work(), Work::Poll { .. }));
    rt.park(a, script(vec![Entry::Close { fd: 2 }]));
    assert_eq!(rt.next_work(), Work::Idle { progressed: true });
    rt.wake(a);
    assert_eq!(
        rt.next_work(),
        Work::Poll { task: a, future: script(vec![Entry::Close { fd: 2 }]) }
    );
}

#[test]
fn unpollable_operations() {
    let mut rt: Sim = Runtime::new();
    assert!(!rt.pollable(0));
    let op = rt.register(Entry::Close { fd: 2 }).unwrap();
    assert!(rt.pollable(op));
    assert!(!rt.pollable(op + 1));
}

#[test]
fn in_flight_and_queued_entries_match_the_operations_awaited() {
    let mut rt: Sim = Runtime::new();
    let check = |rt: &Sim| assert_eq!(rt.in_flight() + rt.queued(), rt.awaited());
    check(&rt);
    let a = rt.register(Entry::Accept { listener: 3 }).unwrap();
    let b = rt.register(Entry::Close { fd: 4 }).unwrap();
    check(&rt);
    assert_eq!((rt.in_flight(), rt.queued(), rt.awaited()), (0, 2, 2));
    rt.poll(a, 0);
    check(&rt);
    rt.next_submission(false).unwrap();
    check(&rt);
    assert_eq!((rt.in_flight(), rt.queued(), rt.awaited()), (1, 1, 2));
    rt.next_submission(false).unwrap();
    assert_eq!((rt.in_flight(), rt.queued(), rt.awaited()), (2, 0, 2));
    rt.complete(1, 0);
    check(&rt);
    assert_eq!((rt.in_flight(), rt.queued(), rt.awaited()), (1, 0, 1));
    rt.complete(1, 0);
    rt.complete(u64::MAX, 0);
    rt.complete(5, 0);
    assert_eq!((rt.in_flight(), rt.queued(), rt.awaited()), (1, 0, 1));
    rt.complete(0, 9);
    assert_eq!((rt.in_flight(), rt.queued(), rt.awaited()), (0, 0, 0));
    assert_eq!(rt.poll(a, 0), Polled::Ready(Ok(9)));
    assert_eq!(rt.poll(b, 0), Polled::Ready(Ok(0)));
    assert_eq!((rt.in_flight(), rt.queued(), rt.awaited()), (0, 0, 0));
}

#[test]
fn dropped_entry_is_never_completed() {
    let mut rt: Sim = Runtime::new();
    let op = rt.register(Entry::Close { fd: 1 }).unwrap();
    assert_eq!(rt.next_submission(true), Err(IouError::Push));
    assert_eq!((rt.in_flight(), rt.queued(), rt.awaited()), (0, 0, 1));
    assert_eq!(rt.complete(0, 0), Completion::Unknown);
    assert_eq!(rt.poll(op, 0), Polled::Pending);
    assert!(!rt.should_block());
}
