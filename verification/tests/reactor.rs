use gjio::handle_table::{Handle, HandleTable};
use gjio::reactor::{
    completion_port_timeout, dispatch_completions, dispatch_readiness, poll_timeout,
    timeout_millis, CompletionStatus, FdObserver, Observer, Readiness, Wakeup,
};

#[test]
fn registering_a_reader_replaces_the_previous_one() {
    let mut o = FdObserver::new();
    assert_eq!(o.when_becomes_readable(1), None);
    assert_eq!(o.when_becomes_readable(2), Some(1));
    assert_eq!(o.when_becomes_writable(3), None);
    assert_eq!(o.read_waiter, Some(2));
    assert_eq!(o.write_waiter, Some(3));
}

#[test]
fn readiness_wakes_reader_then_writer_once() {
    let mut o = FdObserver::new();
    o.when_becomes_readable(1);
    o.when_becomes_writable(2);
    assert_eq!(o.on_ready(true, true), vec![1, 2]);
    assert_eq!(o.on_ready(true, true), Vec::<u64>::new());
}

#[test]
fn readiness_wakes_only_the_side_that_is_ready() {
    let mut o = FdObserver::new();
    o.when_becomes_readable(1);
    o.when_becomes_writable(2);
    assert_eq!(o.on_ready(false, true), vec![2]);
    assert_eq!(o.read_waiter, Some(1));
    assert_eq!(o.on_ready(true, false), vec![1]);
}

#[test]
fn dispatching_events_over_the_table() {
    let mut t: HandleTable<FdObserver> = HandleTable::new();
    let a = t.push(FdObserver::new());
    let b = t.push(FdObserver::new());
    let mut oa = *t.get(a);
    oa.when_becomes_readable(10);
    oa.when_becomes_writable(11);
    t.replace(a, oa);
    let mut ob = *t.get(b);
    ob.when_becomes_readable(20);
    t.replace(b, ob);

    let events = vec![
        Readiness { handle: b, readable: true, writable: true },
        Readiness { handle: a, readable: false, writable: true },
        Readiness { handle: a, readable: false, writable: true },
    ];
    assert_eq!(dispatch_readiness(&mut t, &events), vec![20, 11]);
    assert_eq!(t.get(a).read_waiter, Some(10));
    assert_eq!(t.get(a).write_waiter, None);
    assert_eq!(*t.get(b), FdObserver::new());
    assert_eq!(t.len(), 2);
}

#[test]
fn completions_wake_the_operation_that_completed() {
    let mut t: HandleTable<Observer> = HandleTable::new();
    let h = t.push(Observer::new(0x1000, 0x2000));
    let mut o = *t.get(h);
    assert_eq!(o.when_read_done(5), None);
    assert_eq!(o.when_write_done(6), None);
    assert_eq!(o.when_read_done(7), Some(5));
    t.replace(h, o);

    let statuses = vec![
        CompletionStatus { token: h.val, overlapped: 0x2000, bytes_transferred: 12 },
        CompletionStatus { token: h.val, overlapped: 0x3000, bytes_transferred: 1 },
        CompletionStatus { token: h.val, overlapped: 0x1000, bytes_transferred: 40 },
    ];
    assert_eq!(
        dispatch_completions(&mut t, &statuses),
        vec![
            Wakeup { waiter: 6, bytes_transferred: 12 },
            Wakeup { waiter: 7, bytes_transferred: 40 },
        ]
    );
    assert_eq!(t.get(Handle { val: h.val }).read_waiter, None);
    assert_eq!(t.get(h).write_waiter, None);
}

#[test]
fn observer_completion_on_its_own() {
    let mut o = Observer::new(1, 2);
    o.when_read_done(3);
    assert_eq!(o.on_completion(2, 9), Vec::<Wakeup>::new());
    assert_eq!(o.on_completion(1, 9), vec![Wakeup { waiter: 3, bytes_transferred: 9 }]);
}

#[test]
fn timeouts_in_milliseconds_round_toward_zero() {
    assert_eq!(timeout_millis(1_999_999), 1);
    assert_eq!(timeout_millis(2_000_000), 2);
    assert_eq!(timeout_millis(999_999), 0);
    assert_eq!(timeout_millis(-1_999_999), -1);
    assert_eq!(timeout_millis(0), 0);
}

#[test]
fn completion_port_timeout_is_cut_to_32_bits() {
    assert_eq!(completion_port_timeout(None), None);
    assert_eq!(completion_port_timeout(Some(1500)), Some(1500));
    assert_eq!(completion_port_timeout(Some(-1)), Some(u32::MAX));
    assert_eq!(completion_port_timeout(Some(5_000_000_000)), Some(705_032_704));
}

#[test]
fn poll_timeout_stays_in_range() {
    assert_eq!(poll_timeout(None), -1);
    assert_eq!(poll_timeout(Some(-5)), 0);
    assert_eq!(poll_timeout(Some(250)), 250);
    assert_eq!(poll_timeout(Some(i64::MAX)), i32::MAX);
}
