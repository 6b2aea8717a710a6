use gjio::timer::{AtTime, TimerError, TimerInner};

#[test]
fn wait_timeout_is_none_when_empty() {
    let t = TimerInner::starting_at(100);
    assert_eq!(t.get_wait_timeout(), None);
    assert_eq!(t.len(), 0);
}

#[test]
fn wait_timeout_is_earliest_deadline_plus_a_millisecond() {
    let mut t = TimerInner::starting_at(100);
    assert_eq!(t.after_delay(0, 500, 1), Ok(()));
    assert_eq!(t.after_delay(0, 50, 2), Ok(()));
    assert_eq!(t.after_delay(1, 0, 3), Ok(()));
    assert_eq!(t.get_wait_timeout(), Some(1_000_050));
    assert_eq!(t.len(), 3);
}

#[test]
fn wait_timeout_can_be_negative_once_time_moves_past_a_deadline() {
    let mut t = TimerInner::starting_at(0);
    assert_eq!(t.after_delay(0, 10, 1), Ok(()));
    t.set_current_time(3_000_000);
    assert_eq!(t.get_wait_timeout(), Some(10 - 3_000_000 + 1_000_000));
}

#[test]
fn process_fires_due_waiters_earliest_first() {
    let mut t = TimerInner::starting_at(1_000);
    assert_eq!(t.after_delay(0, 300, 30), Ok(()));
    assert_eq!(t.after_delay(0, 100, 10), Ok(()));
    assert_eq!(t.after_delay(0, 200, 20), Ok(()));
    assert_eq!(t.after_delay(0, 900, 90), Ok(()));
    t.set_current_time(1_300);
    let fired = t.process();
    assert_eq!(
        fired,
        vec![
            AtTime { time: 1_100, waiter: 10 },
            AtTime { time: 1_200, waiter: 20 },
            AtTime { time: 1_300, waiter: 30 },
        ]
    );
    assert_eq!(t.len(), 1);
    assert_eq!(t.get_wait_timeout(), Some(1_900 - 1_300 + 1_000_000));
}

#[test]
fn process_before_the_deadline_fires_nothing() {
    let mut t = TimerInner::starting_at(100);
    assert_eq!(t.after_delay(0, 50, 7), Ok(()));
    t.set_current_time(149);
    assert!(t.process().is_empty());
    assert_eq!(t.len(), 1);
    t.set_current_time(150);
    assert_eq!(t.process(), vec![AtTime { time: 150, waiter: 7 }]);
    assert_eq!(t.len(), 0);
}

#[test]
fn zero_delay_fires_at_the_same_turn() {
    let mut t = TimerInner::starting_at(42);
    assert_eq!(t.after_delay(0, 0, 5), Ok(()));
    assert_eq!(t.get_wait_timeout(), Some(1_000_000));
    assert_eq!(t.process(), vec![AtTime { time: 42, waiter: 5 }]);
}

#[test]
fn equal_deadlines_all_fire() {
    let mut t = TimerInner::starting_at(0);
    assert_eq!(t.after_delay(0, 5, 1), Ok(()));
    assert_eq!(t.after_delay(0, 5, 2), Ok(()));
    t.set_current_time(5);
    let mut waiters: Vec<u64> = t.process().iter().map(|e| e.waiter).collect();
    waiters.sort();
    assert_eq!(waiters, vec![1, 2]);
}

#[test]
fn delay_of_whole_seconds_and_nanoseconds() {
    let mut t = TimerInner::starting_at(7);
    assert_eq!(t.after_delay(2, 3, 1), Ok(()));
    t.set_current_time(2_000_000_009);
    assert!(t.process().is_empty());
    t.set_current_time(2_000_000_010);
    assert_eq!(t.process(), vec![AtTime { time: 2_000_000_010, waiter: 1 }]);
}

#[test]
fn longest_delay_that_fits_is_accepted() {
    let mut t = TimerInner::starting_at(0);
    assert_eq!(t.after_delay(9_223_372_036_854_775, 807_000_000, 1), Ok(()));
    assert_eq!(t.len(), 1);
}

#[test]
fn delay_past_the_longest_is_refused() {
    let mut t = TimerInner::starting_at(0);
    assert_eq!(
        t.after_delay(9_223_372_036_854_775, 807_000_001, 1),
        Err(TimerError::DelayOutOfRange)
    );
    assert_eq!(t.after_delay(9_223_372_036_854_776, 0, 2), Err(TimerError::DelayOutOfRange));
    assert_eq!(t.after_delay(u64::MAX, 999_999_999, 3), Err(TimerError::DelayOutOfRange));
    assert_eq!(t.len(), 0);
    assert_eq!(t.get_wait_timeout(), None);
}

#[test]
fn deadline_past_the_clock_stays_at_its_end() {
    let mut t = TimerInner::starting_at(u64::MAX - 10);
    assert_eq!(t.after_delay(1, 0, 1), Ok(()));
    t.set_current_time(u64::MAX - 1);
    assert!(t.process().is_empty());
    t.set_current_time(u64::MAX);
    assert_eq!(t.process(), vec![AtTime { time: u64::MAX, waiter: 1 }]);
}

#[test]
fn timer_error_messages() {
    assert_eq!(
        TimerError::DelayOutOfRange.message(),
        "Source duration value is out of range for the target type"
    );
    assert_eq!(TimerError::TimedOut.message(), "operation timed out");
}

#[test]
fn steady_clock_does_not_go_back() {
    let mut t = TimerInner::new();
    let first = t.current_time();
    t.update_current_time();
    let second = t.current_time();
    assert!(second >= first);
    assert!(first > 0);
}

#[test]
fn updating_the_time_keeps_the_waiters() {
    let mut t = TimerInner::new();
    assert_eq!(t.after_delay(3600, 0, 1), Ok(()));
    t.update_current_time();
    assert_eq!(t.len(), 1);
    assert!(t.process().is_empty());
}
