//! The timer queue: deadlines waiting to be fulfilled, read against a clock
//! that is frozen between turns of the event loop.

use vstd::prelude::*;
use vstd::multiset::Multiset;

verus! {

broadcast use vstd::seq_lib::group_to_multiset_ensures;

/// The error that `time::Duration::from_std` reports for a delay it cannot hold.
#[verifier::external_type_specification]
#[verifier::external_body]
pub struct ExOutOfRangeError(time::OutOfRangeError);

/// Nanoseconds in a second.
pub const NANOS_PER_SEC: u64 = 1_000_000_000;

/// Nanoseconds in a millisecond.
pub const NANOS_PER_MILLI: u64 = 1_000_000;

/// The largest delay that `time::Duration` holds, in nanoseconds:
/// `i64::MAX` milliseconds.
pub open spec fn max_delay_nanos() -> int {
    9_223_372_036_854_775_807_000_000int
}

/// A delay of `secs` seconds and `nanos` nanoseconds, in nanoseconds.
pub open spec fn delay_nanos(secs: u64, nanos: u32) -> int {
    secs * 1_000_000_000 + nanos
}

/// Whether a delay can be converted to a `time::Duration`.
pub open spec fn delay_in_range(secs: u64, nanos: u32) -> bool {
    delay_nanos(secs, nanos) <= max_delay_nanos()
}

/// The deadline of a delay that starts at `now`; a deadline past the end of
/// the clock's range stays at its end.
pub open spec fn deadline(now: u64, secs: u64, nanos: u32) -> u64 {
    let t = now + delay_nanos(secs, nanos);
    if t > u64::MAX {
        u64::MAX
    } else {
        t as u64
    }
}

/// Converts the delay with `time::Duration::from_std`, which decides whether
/// a timer can wait that long. That function returns `Err` exactly when the
/// delay is longer than `i64::MAX` milliseconds (whole seconds first, then the
/// nanoseconds below the last second); the contract states that. The converted
/// `time::Duration` is not handed back: only whether the conversion succeeded.
#[verifier::external_body]
fn convert_delay(secs: u64, nanos: u32) -> (r: Result<(), time::OutOfRangeError>)
    requires
        nanos < NANOS_PER_SEC,
    ensures
        r.is_ok() <==> delay_in_range(secs, nanos),
{
    match time::Duration::from_std(std::time::Duration::new(secs, nanos)) {
        Ok(_) => Ok(()),
        Err(e) => Err(e),
    }
}

/// Reads the steady clock with `time::precise_time_ns`: nanoseconds since an
/// unspecified epoch, from the monotonic clock that `time::SteadyTime` reads too.
/// Nothing is stated of the value: it is the time.
#[verifier::external_body]
fn steady_clock_now() -> u64 {
    time::precise_time_ns()
}

/// Why a timer operation failed.
#[derive(Clone, Copy, Debug, PartialEq, Eq, Structural)]
pub enum TimerError {
    /// The delay does not fit in a `time::Duration`.
    DelayOutOfRange,
    /// The timer of `timeout_after` fired before the operation completed.
    TimedOut,
}

impl TimerError {
    /// The text of the error.
    pub fn message(&self) -> (m: &'static str)
        ensures
            *self == TimerError::DelayOutOfRange ==> m@
                == "Source duration value is out of range for the target type"@,
            *self == TimerError::TimedOut ==> m@ == "operation timed out"@,
    {
        match self {
            TimerError::DelayOutOfRange => "Source duration value is out of range for the target type",
            TimerError::TimedOut => "operation timed out",
        }
    }
}

/// A waiter that is due at a time of the steady clock.
#[derive(Clone, Copy, Debug, PartialEq, Eq, Structural)]
pub struct AtTime {
    /// The deadline, in nanoseconds of the steady clock.
    pub time: u64,
    /// Whom to wake at the deadline.
    pub waiter: u64,
}

/// Entries ordered from the latest deadline down to the earliest.
pub open spec fn latest_first(s: Seq<AtTime>) -> bool {
    forall|i: int, j: int| 0 <= i < j < s.len() ==> s[i].time >= s[j].time
}

/// Entries ordered from the earliest deadline up to the latest.
pub open spec fn earliest_first(s: Seq<AtTime>) -> bool {
    forall|i: int, j: int| 0 <= i < j < s.len() ==> s[i].time <= s[j].time
}

/// What one round of processing at time `now` does: the waiters of
/// `before` that are due at `now` leave, earliest first, in `fired`; those
/// not yet due stay, in `after`.
pub open spec fn processed(
    before: Multiset<AtTime>,
    now: u64,
    after: Multiset<AtTime>,
    fired: Seq<AtTime>,
) -> bool {
    &&& fired.to_multiset().add(after) == before
    &&& forall|i: int| 0 <= i < fired.len() ==> #[trigger] fired[i].time <= now
    &&& forall|e: AtTime| #[trigger] after.contains(e) ==> e.time > now
    &&& earliest_first(fired)
}

/// Whether `t` is the earliest deadline among `pending`.
pub open spec fn is_earliest(pending: Multiset<AtTime>, t: u64) -> bool {
    &&& exists|e: AtTime| #[trigger] pending.contains(e) && e.time == t
    &&& forall|e: AtTime| #[trigger] pending.contains(e) ==> t <= e.time
}

/// The queue of timers, with the time of the steady clock at which the
/// current turn of the event loop takes place.
pub struct TimerInner {
    heap: Vec<AtTime>,
    frozen_steady_time: u64,
}

impl TimerInner {
    /// The queue's internal order holds.
    pub closed spec fn wf(self) -> bool {
        latest_first(self.heap@)
    }

    /// The waiters in the queue.
    pub closed spec fn pending(self) -> Multiset<AtTime> {
        self.heap@.to_multiset()
    }

    /// The time of the current turn.
    pub closed spec fn now(self) -> u64 {
        self.frozen_steady_time
    }

    /// An empty queue whose current time is `now`.
    pub fn starting_at(now: u64) -> (t: TimerInner)
        ensures
            t.wf(),
            t.pending() == Multiset::<AtTime>::empty(),
            t.now() == now,
    {
        let t = TimerInner { heap: Vec::new(), frozen_steady_time: now };
        assert(t.heap@ =~= Seq::<AtTime>::empty());
        t
    }

    /// An empty queue whose current time is read from the steady clock.
    pub fn new() -> (t: TimerInner)
        ensures
            t.wf(),
            t.pending() == Multiset::<AtTime>::empty(),
    {
        TimerInner::starting_at(steady_clock_now())
    }

    /// The time of the current turn.
    pub fn current_time(&self) -> (t: u64)
        ensures
            t == self.now(),
    {
        self.frozen_steady_time
    }

    /// The number of waiters in the queue.
    pub fn len(&self) -> (n: usize)
        ensures
            n == self.pending().len(),
    {
        self.heap.len()
    }

    /// Moves the current time to `now`; the waiters stay.
    pub fn set_current_time(&mut self, now: u64)
        requires
            old(self).wf(),
        ensures
            final(self).wf(),
            final(self).pending() == old(self).pending(),
            final(self).now() == now,
    {
        self.frozen_steady_time = now;
    }

    /// Moves the current time to what the steady clock reads; the waiters stay.
    pub fn update_current_time(&mut self)
        requires
            old(self).wf(),
        ensures
            final(self).wf(),
            final(self).pending() == old(self).pending(),
    {
        let now = steady_clock_now();
        self.set_current_time(now);
    }

    /// How long the event loop may sleep before the earliest waiter is due,
    /// in nanoseconds: the earliest deadline, less the current time, plus a
    /// millisecond; `None` when no waiter is queued.
    pub fn get_wait_timeout(&self) -> (r: Option<i128>)
        requires
            self.wf(),
        ensures
            r.is_none() <==> self.pending().len() == 0,
            r matches Some(t) ==> exists|d: u64|
                is_earliest(self.pending(), d) && t == d - self.now() + NANOS_PER_MILLI,
    {
        let n = self.heap.len();
        if n == 0 {
            None
        } else {
            let e = self.heap[n - 1];
            proof {
                let s = self.heap@;
                assert(s[n - 1] == e);
                assert(s.contains(e));
                assert(self.pending().contains(e));
                assert forall|f: AtTime| #[trigger] self.pending().contains(f) implies e.time
                    <= f.time by {
                    let k = choose|k: int| 0 <= k < s.len() && s[k] == f;
                    assert(s[k].time >= s[n - 1].time);
                }
                assert(is_earliest(self.pending(), e.time));
            }
            Some(e.time as i128 - self.frozen_steady_time as i128 + NANOS_PER_MILLI as i128)
        }
    }

    /// Queues `waiter` to be due `delay_secs` seconds and `delay_nanos`
    /// nanoseconds after the current time. Fails, leaving the queue as it
    /// was, when the delay does not fit in a `time::Duration`.
    pub fn after_delay(&mut self, delay_secs: u64, delay_nanos: u32, waiter: u64) -> (r: Result<
        (),
        TimerError,
    >)
        requires
            old(self).wf(),
            delay_nanos < NANOS_PER_SEC,
        ensures
            final(self).wf(),
            final(self).now() == old(self).now(),
            r.is_ok() <==> delay_in_range(delay_secs, delay_nanos),
            r is Ok ==> final(self).pending() == old(self).pending().insert(
                AtTime { time: deadline(old(self).now(), delay_secs, delay_nanos), waiter },
            ),
            r is Err ==> r == Err::<(), TimerError>(TimerError::DelayOutOfRange)
                && final(self).pending() == old(self).pending(),
    {
        match convert_delay(delay_secs, delay_nanos) {
            Ok(()) => {},
            Err(_) => {
                return Err(TimerError::DelayOutOfRange);
            },
        }
        let total: u128 = self.frozen_steady_time as u128 + delay_secs as u128
            * NANOS_PER_SEC as u128 + delay_nanos as u128;
        let time: u64 = if total > u64::MAX as u128 {
            u64::MAX
        } else {
            total as u64
        };
        assert(time == deadline(self.now(), delay_secs, delay_nanos));
        self.insert(AtTime { time, waiter });
        Ok(())
    }

    /// Puts `e` into the queue at its place.
    fn insert(&mut self, e: AtTime)
        requires
            old(self).wf(),
        ensures
            final(self).wf(),
            final(self).now() == old(self).now(),
            final(self).pending() == old(self).pending().insert(e),
    {
        let n = self.heap.len();
        let mut i: usize = 0;
        while i < n && self.heap[i].time > e.time
            invariant
                n == self.heap.len(),
                0 <= i <= n,
                forall|k: int| 0 <= k < i ==> self.heap@[k].time > e.time,
            decreases n - i,
        {
            i = i + 1;
        }
        let ghost s = self.heap@;
        self.heap.insert(i, e);
        assert(self.heap@ == s.insert(i as int, e));
        assert(latest_first(self.heap@)) by {
            assert forall|a: int, b: int| 0 <= a < b < self.heap@.len() implies self.heap@[a].time
                >= self.heap@[b].time by {
                if a < i && b == i {
                } else if a == i && b > i {
                    assert(self.heap@[b] == s[b - 1]);
                    if b - 1 > i {
                        assert(s[i as int].time >= s[b - 1].time);
                    }
                } else {
                }
            }
        }
    }

    /// Takes out every waiter that is due at the current time, earliest first.
    pub fn process(&mut self) -> (fired: Vec<AtTime>)
        requires
            old(self).wf(),
        ensures
            final(self).wf(),
            final(self).now() == old(self).now(),
            processed(old(self).pending(), old(self).now(), final(self).pending(), fired@),
    {
        let now = self.frozen_steady_time;
        let ghost orig = self.heap@;
        let mut fired: Vec<AtTime> = Vec::new();
        loop
            invariant_except_break
                latest_first(self.heap@),
                self.frozen_steady_time == now,
                fired@.to_multiset().add(self.heap@.to_multiset()) == orig.to_multiset(),
                forall|i: int| 0 <= i < fired@.len() ==> #[trigger] fired@[i].time <= now,
                earliest_first(fired@),
                forall|i: int, j: int|
                    0 <= i < fired@.len() && 0 <= j < self.heap@.len() ==> fired@[i].time
                        <= self.heap@[j].time,
            ensures
                latest_first(self.heap@),
                self.frozen_steady_time == now,
                fired@.to_multiset().add(self.heap@.to_multiset()) == orig.to_multiset(),
                forall|i: int| 0 <= i < fired@.len() ==> #[trigger] fired@[i].time <= now,
                earliest_first(fired@),
                forall|j: int| 0 <= j < self.heap@.len() ==> self.heap@[j].time > now,
            decreases self.heap@.len(),
        {
            let n = self.heap.len();
            if n == 0 {
                break;
            }
            if self.heap[n - 1].time > now {
                assert forall|j: int| 0 <= j < self.heap@.len() implies self.heap@[j].time
                    > now by {
                    if j < n - 1 {
                        assert(self.heap@[j].time >= self.heap@[n - 1].time);
                    }
                }
                break;
            }
            let ghost before = self.heap@;
            let ghost fired_before = fired@;
            let e = self.heap.pop().unwrap();
            assert(before == self.heap@.push(e));
            fired.push(e);
            assert(fired@ == fired_before.push(e));
            assert(fired@.to_multiset().add(self.heap@.to_multiset()) =~= orig.to_multiset()) by {
                assert(fired@.to_multiset() == fired_before.to_multiset().insert(e));
                assert(before.to_multiset() == self.heap@.to_multiset().insert(e));
            }
            assert forall|i: int, j: int|
                0 <= i < fired@.len() && 0 <= j < self.heap@.len() implies fired@[i].time
                <= self.heap@[j].time by {
                assert(before[j].time >= before[n - 1].time);
                if i < fired_before.len() {
                    assert(fired_before[i].time <= before[j].time);
                }
            }
            assert forall|i: int, j: int| 0 <= i < j < fired@.len() implies fired@[i].time
                <= fired@[j].time by {
                if j == fired_before.len() {
                    assert(fired_before[i].time <= before[n - 1].time);
                }
            }
        }
        proof {
            assert forall|e: AtTime| #[trigger] self.pending().contains(e) implies e.time
                > now by {
                assert(self.heap@.contains(e));
            }
        }
        fired
    }
}

} // verus!
