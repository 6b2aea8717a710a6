//! Properties that span several operations of the library.

use vstd::prelude::*;
use vstd::multiset::Multiset;
use crate::handle_table::HandleTable;
use crate::io::{Errno, ReadAction, WriteAction, read_step_spec, write_step_spec};
use crate::reactor::{
    FdObserver, Observer, after_completion, after_ready, millis_toward_zero, woken_by_completion,
    woken_by_ready,
};
use crate::timer::{AtTime, deadline, delay_nanos, processed, is_earliest};

verus! {

broadcast use vstd::seq_lib::group_to_multiset_ensures;

/// A read loop stops only once at least `min_bytes` bytes are in, or at the
/// end of the stream; and it never loses bytes already read.
pub proof fn law_read_stops_at_min_or_eof(
    already_read: usize,
    min_bytes: usize,
    buf_len: usize,
    outcome: Result<usize, Errno>,
)
    requires
        already_read < min_bytes,
        already_read <= buf_len,
        outcome matches Ok(n) ==> n <= buf_len - already_read,
    ensures
        read_step_spec(already_read, min_bytes, outcome) matches ReadAction::Finish(k) ==> (k
            >= min_bytes || outcome == Ok::<usize, Errno>(0)),
        read_step_spec(already_read, min_bytes, outcome) matches ReadAction::ReadAt(k)
            ==> already_read <= k < min_bytes,
        read_step_spec(already_read, min_bytes, outcome) matches ReadAction::WaitReadable(k)
            ==> k == already_read,
{
}

/// A write loop stops only once every byte of the buffer is written.
pub proof fn law_write_stops_when_all_written(
    already_written: usize,
    len: usize,
    outcome: Result<usize, Errno>,
)
    requires
        already_written < len,
        outcome matches Ok(n) ==> n <= len - already_written,
    ensures
        write_step_spec(already_written, len, outcome) == WriteAction::Finish ==> (outcome matches Ok(
            n,
        ) && already_written + n == len),
{
}

/// Processing takes out exactly the waiters that are due: each waiter with
/// a deadline no later than the current time fires, and each other stays.
pub proof fn law_due_waiters_fire(
    before: Multiset<AtTime>,
    now: u64,
    after: Multiset<AtTime>,
    fired: Seq<AtTime>,
    e: AtTime,
)
    requires
        processed(before, now, after, fired),
        before.contains(e),
    ensures
        e.time <= now ==> fired.contains(e) && !after.contains(e),
        e.time > now ==> after.contains(e) && !fired.contains(e),
{
    assert(fired.to_multiset().add(after).count(e) == before.count(e));
    if e.time <= now {
        if after.contains(e) {
        }
        assert(fired.to_multiset().count(e) > 0);
    } else {
        if fired.contains(e) {
            let i = choose|i: int| 0 <= i < fired.len() && fired[i] == e;
            assert(fired[i].time <= now);
        }
        assert(fired.to_multiset().count(e) == 0);
    }
}

/// A timer fires at the first processing whose time has reached the end of
/// its delay, and not before (a deadline past the end of the clock is
/// reached only at the clock's last value).
pub proof fn law_timer_fires_once_its_delay_has_passed(
    others: Multiset<AtTime>,
    now: u64,
    secs: u64,
    nanos: u32,
    waiter: u64,
    t: u64,
    after: Multiset<AtTime>,
    fired: Seq<AtTime>,
)
    requires
        processed(
            others.insert(AtTime { time: deadline(now, secs, nanos), waiter }),
            t,
            after,
            fired,
        ),
    ensures
        now + delay_nanos(secs, nanos) <= t ==> fired.contains(
            AtTime { time: deadline(now, secs, nanos), waiter },
        ),
        t < now + delay_nanos(secs, nanos) && t < u64::MAX ==> !fired.contains(
            AtTime { time: deadline(now, secs, nanos), waiter },
        ),
{
    let e = AtTime { time: deadline(now, secs, nanos), waiter };
    assert(others.insert(e).contains(e));
    law_due_waiters_fire(others.insert(e), t, after, fired, e);
}

/// Sleeping for the wait timeout and then processing fires the earliest
/// waiter: the timeout reaches past its deadline.
pub proof fn law_wait_timeout_reaches_earliest(
    pending: Multiset<AtTime>,
    now: u64,
    timeout: int,
    later: u64,
    after: Multiset<AtTime>,
    fired: Seq<AtTime>,
)
    requires
        exists|d: u64| is_earliest(pending, d) && timeout == d - now + 1_000_000,
        later >= now + timeout,
        processed(pending, later, after, fired),
    ensures
        exists|e: AtTime| #[trigger] fired.contains(e) && is_earliest(pending, e.time),
{
    let d = choose|d: u64| is_earliest(pending, d) && timeout == d - now + 1_000_000;
    let e = choose|e: AtTime| #[trigger] pending.contains(e) && e.time == d;
    law_due_waiters_fire(pending, later, after, fired, e);
    assert(fired.contains(e));
}

/// A waiter on a readable event is woken once: the event that wakes it also
/// takes it out of the observer.
pub proof fn law_readable_wakes_reader_once(o: FdObserver, w: u64, writable: bool)
    requires
        o.read_waiter == Some(w),
    ensures
        woken_by_ready(o, true, writable)[0] == w,
        after_ready(o, true, writable).read_waiter is None,
{
}

/// A waiter that `when_becomes_readable` replaced is not woken by the
/// events that follow.
pub proof fn law_replaced_reader_not_woken(
    o: FdObserver,
    replaced: u64,
    waiter: u64,
    readable: bool,
    writable: bool,
)
    requires
        o.read_waiter == Some(replaced),
        o.write_waiter != Some(replaced),
        waiter != replaced,
    ensures
        !woken_by_ready(FdObserver { read_waiter: Some(waiter), ..o }, readable, writable).contains(
            replaced,
        ),
{
    let s = woken_by_ready(FdObserver { read_waiter: Some(waiter), ..o }, readable, writable);
    if s.contains(replaced) {
        let i = choose|i: int| 0 <= i < s.len() && s[i] == replaced;
    }
}

/// What `push` stores, `get` reads back: after a push, the new handle holds
/// the value pushed and every other handle keeps its value.
pub proof fn law_push_then_get<T>(before: HandleTable<T>, after: HandleTable<T>, h: usize, v: T, k: usize)
    requires
        after@ == before@.insert(h, v),
        !before@.dom().contains(h),
    ensures
        after@.dom().contains(h) && after@[h] == v,
        k != h ==> (after@.dom().contains(k) == before@.dom().contains(k)),
        k != h && before@.dom().contains(k) ==> after@[k] == before@[k],
{
}

/// A push followed by a remove of the handle it handed out leaves the live
/// handles as they were.
pub proof fn law_push_then_remove<T>(
    before: HandleTable<T>,
    mid: HandleTable<T>,
    after: HandleTable<T>,
    h: usize,
    v: T,
)
    requires
        mid@ == before@.insert(h, v),
        !before@.dom().contains(h),
        after@ == mid@.remove(h),
    ensures
        after@ == before@,
{
    assert(after@ =~= before@);
}

/// A readiness event takes out the waiter of each side that is ready and
/// leaves the waiter of a side that is not ready where it is; it wakes
/// exactly the waiters it takes out, the reader before the writer.
pub proof fn law_ready_wakes_only_ready_sides(o: FdObserver, readable: bool, writable: bool)
    ensures
        !readable ==> after_ready(o, readable, writable).read_waiter == o.read_waiter,
        !writable ==> after_ready(o, readable, writable).write_waiter == o.write_waiter,
        readable ==> after_ready(o, readable, writable).read_waiter is None,
        writable ==> after_ready(o, readable, writable).write_waiter is None,
        forall|w: u64|
            woken_by_ready(o, readable, writable).contains(w) <==> ((readable && o.read_waiter
                == Some(w)) || (writable && o.write_waiter == Some(w))),
        woken_by_ready(o, readable, writable).len() == (if readable && o.read_waiter is Some {
            1int
        } else {
            0int
        }) + (if writable && o.write_waiter is Some {
            1int
        } else {
            0int
        }),
        readable && o.read_waiter is Some ==> woken_by_ready(o, readable, writable)[0]
            == o.read_waiter->Some_0,
{
    let s = woken_by_ready(o, readable, writable);
    assert forall|w: u64| s.contains(w) <==> ((readable && o.read_waiter == Some(w)) || (writable
        && o.write_waiter == Some(w))) by {
        if s.contains(w) {
            let i = choose|i: int| 0 <= i < s.len() && s[i] == w;
        }
        if readable && o.read_waiter == Some(w) {
            assert(s[0] == w);
        }
        if writable && o.write_waiter == Some(w) {
            assert(s[s.len() - 1] == w);
        }
    }
}

/// A completion takes out the waiter of each side whose overlapped
/// operation completed and leaves the other side's waiter where it is; it
/// wakes exactly the waiters it takes out, each with the bytes transferred.
pub proof fn law_completion_wakes_only_completed_side(o: Observer, overlapped: usize, bytes: u32)
    ensures
        o.read_overlapped != overlapped ==> after_completion(o, overlapped).read_waiter
            == o.read_waiter,
        o.write_overlapped != overlapped ==> after_completion(o, overlapped).write_waiter
            == o.write_waiter,
        o.read_overlapped == overlapped ==> after_completion(o, overlapped).read_waiter is None,
        o.write_overlapped == overlapped ==> after_completion(o, overlapped).write_waiter is None,
        after_completion(o, overlapped).read_overlapped == o.read_overlapped,
        after_completion(o, overlapped).write_overlapped == o.write_overlapped,
        forall|i: int|
            0 <= i < woken_by_completion(o, overlapped, bytes).len() ==> #[trigger] woken_by_completion(
                o,
                overlapped,
                bytes,
            )[i].bytes_transferred == bytes,
        forall|w: u64|
            (exists|i: int|
                0 <= i < woken_by_completion(o, overlapped, bytes).len()
                    && #[trigger] woken_by_completion(o, overlapped, bytes)[i].waiter == w) <==> ((
            o.read_overlapped == overlapped && o.read_waiter == Some(w)) || (o.write_overlapped
                == overlapped && o.write_waiter == Some(w))),
        woken_by_completion(o, overlapped, bytes).len() == (if o.read_overlapped == overlapped
            && o.read_waiter is Some {
            1int
        } else {
            0int
        }) + (if o.write_overlapped == overlapped && o.write_waiter is Some {
            1int
        } else {
            0int
        }),
{
    let s = woken_by_completion(o, overlapped, bytes);
    assert forall|w: u64|
        (exists|i: int| 0 <= i < s.len() && #[trigger] s[i].waiter == w) <==> ((o.read_overlapped
            == overlapped && o.read_waiter == Some(w)) || (o.write_overlapped == overlapped
            && o.write_waiter == Some(w))) by {
        if o.read_overlapped == overlapped && o.read_waiter == Some(w) {
            assert(s[0].waiter == w);
        }
        if o.write_overlapped == overlapped && o.write_waiter == Some(w) {
            assert(s[s.len() - 1].waiter == w);
        }
    }
}

/// A read that got `n > 0` bytes adds exactly `n` to the count: the loop
/// goes on from, or finishes with, `already_read + n`, and finishes exactly
/// when that reaches `min_bytes`. A read of zero bytes (the end of the
/// stream) finishes with the count unchanged.
pub proof fn law_read_step_counts_every_byte(
    already_read: usize,
    min_bytes: usize,
    buf_len: usize,
    n: usize,
)
    requires
        already_read < min_bytes,
        already_read <= buf_len,
        n <= buf_len - already_read,
    ensures
        n == 0 ==> read_step_spec(already_read, min_bytes, Ok(n)) == ReadAction::Finish(
            already_read,
        ),
        n > 0 && already_read + n >= min_bytes ==> read_step_spec(already_read, min_bytes, Ok(n))
            == ReadAction::Finish((already_read + n) as usize),
        n > 0 && already_read + n < min_bytes ==> read_step_spec(already_read, min_bytes, Ok(n))
            == ReadAction::ReadAt((already_read + n) as usize),
{
}

/// A write that put out `n` bytes moves the offset on by exactly `n`: the
/// loop goes on from `already_written + n`, or finishes when that is the
/// whole buffer.
pub proof fn law_write_step_advances_by_written(already_written: usize, len: usize, n: usize)
    requires
        already_written < len,
        n <= len - already_written,
    ensures
        already_written + n < len ==> write_step_spec(already_written, len, Ok(n))
            == WriteAction::WriteAt((already_written + n) as usize),
        already_written + n == len ==> write_step_spec(already_written, len, Ok(n))
            == WriteAction::Finish,
{
}

/// The wait timeout in milliseconds is the whole span, less than one
/// millisecond short of it in the direction of zero.
pub proof fn law_timeout_millis_is_whole_span(nanos: int)
    ensures
        nanos >= 0 ==> 0 <= nanos - millis_toward_zero(nanos) * 1_000_000 < 1_000_000,
        nanos < 0 ==> -1_000_000 < nanos - millis_toward_zero(nanos) * 1_000_000 <= 0,
{
    if nanos >= 0 {
        assert(0 <= nanos - (nanos / 1_000_000) * 1_000_000 < 1_000_000) by (nonlinear_arith)
            requires
                nanos >= 0,
        ;
    } else {
        let m = -nanos;
        assert(0 <= m - (m / 1_000_000) * 1_000_000 < 1_000_000) by (nonlinear_arith)
            requires
                m > 0,
        ;
    }
}

} // verus!
