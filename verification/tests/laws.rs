use gjio::handle_table::HandleTable;
use gjio::io::{try_read_start, try_read_step, write_start, write_step, Errno, ReadAction, WriteAction};
use gjio::reactor::FdObserver;
use gjio::timer::{AtTime, TimerInner};

#[test]
fn timer_fires_once_its_delay_has_passed() {
    let mut t = TimerInner::starting_at(5_000);
    assert_eq!(t.after_delay(0, 2_000, 1), Ok(()));
    t.set_current_time(6_999);
    assert!(t.process().is_empty());
    t.set_current_time(7_000);
    assert_eq!(t.process(), vec![AtTime { time: 7_000, waiter: 1 }]);
    t.set_current_time(9_000);
    assert!(t.process().is_empty());
}

#[test]
fn sleeping_for_the_wait_timeout_fires_the_earliest() {
    let mut t = TimerInner::starting_at(10);
    assert_eq!(t.after_delay(0, 400, 4), Ok(()));
    assert_eq!(t.after_delay(0, 90, 9), Ok(()));
    let wait = t.get_wait_timeout().unwrap();
    t.set_current_time((10 + wait) as u64);
    let fired = t.process();
    assert!(fired.contains(&AtTime { time: 100, waiter: 9 }));
}

#[test]
fn read_loop_stops_at_min_bytes_or_end_of_stream() {
    // A stream that hands out 3, then 2 bytes of a 10-byte buffer, asking for at least 4.
    let mut at = match try_read_start(0, 4) {
        ReadAction::ReadAt(k) => k,
        other => panic!("unexpected {:?}", other),
    };
    assert_eq!(at, 0);
    at = match try_read_step(at, 4, 10, Ok(3)) {
        ReadAction::ReadAt(k) => k,
        other => panic!("unexpected {:?}", other),
    };
    assert_eq!(at, 3);
    assert_eq!(try_read_step(at, 4, 10, Err(Errno::WouldBlock)), ReadAction::WaitReadable(3));
    assert_eq!(try_read_step(at, 4, 10, Ok(2)), ReadAction::Finish(5));
    // The end of the stream stops it early.
    assert_eq!(try_read_step(at, 4, 10, Ok(0)), ReadAction::Finish(3));
}

#[test]
fn write_loop_stops_when_all_is_written() {
    assert_eq!(write_start(0, 5), WriteAction::WriteAt(0));
    assert_eq!(write_step(0, 5, Ok(4)), WriteAction::WriteAt(4));
    assert_eq!(write_step(4, 5, Ok(1)), WriteAction::Finish);
}

#[test]
fn readable_event_wakes_the_reader_once() {
    let mut o = FdObserver::new();
    o.when_becomes_readable(8);
    assert_eq!(o.on_ready(true, false), vec![8]);
    assert!(o.read_waiter.is_none());
    assert!(o.on_ready(true, false).is_empty());
}

#[test]
fn replaced_reader_is_not_woken() {
    let mut o = FdObserver::new();
    o.when_becomes_readable(1);
    assert_eq!(o.when_becomes_readable(2), Some(1));
    assert_eq!(o.on_ready(true, true), vec![2]);
}

#[test]
fn push_then_get_and_remove() {
    let mut t: HandleTable<u32> = HandleTable::new();
    let a = t.push(1);
    let h = t.push(2);
    assert_eq!(*t.get(h), 2);
    assert_eq!(*t.get(a), 1);
    assert_eq!(t.remove(h), Some(2));
    assert!(!t.contains(h));
    assert_eq!(*t.get(a), 1);
}

#[test]
fn len_counts_live_handles_through_pushes_and_live_removes() {
    let mut t: HandleTable<u32> = HandleTable::new();
    let a = t.push(1);
    let b = t.push(2);
    let c = t.push(3);
    assert_eq!(t.len(), 3);
    t.remove(b);
    assert_eq!(t.len(), 2);
    t.push(4);
    t.remove(a);
    t.remove(c);
    assert_eq!(t.len(), 1);
}
