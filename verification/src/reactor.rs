//! What the reactor does with the events that the operating system reports:
//! which waiters each readiness event or completion wakes, and how long the
//! reactor may sleep.

use vstd::prelude::*;
use crate::handle_table::{Handle, HandleTable};

verus! {

/// The one value that an `Option` holds, as a sequence of at most one.
pub open spec fn opt_seq(o: Option<u64>) -> Seq<u64> {
    match o {
        Some(w) => seq![w],
        None => Seq::<u64>::empty(),
    }
}

/// The waiters of a descriptor watched for readiness (epoll, kqueue):
/// the one that waits for it to become readable and the one that waits for
/// it to become writable.
#[derive(Clone, Copy, Debug, PartialEq, Eq, Structural)]
pub struct FdObserver {
    pub read_waiter: Option<u64>,
    pub write_waiter: Option<u64>,
}

/// The observer once an event with the given readiness has been handled.
pub open spec fn after_ready(o: FdObserver, readable: bool, writable: bool) -> FdObserver {
    FdObserver {
        read_waiter: if readable {
            None
        } else {
            o.read_waiter
        },
        write_waiter: if writable {
            None
        } else {
            o.write_waiter
        },
    }
}

/// The waiters that an event with the given readiness wakes: the reader
/// first, then the writer.
pub open spec fn woken_by_ready(o: FdObserver, readable: bool, writable: bool) -> Seq<u64> {
    opt_seq(
        if readable {
            o.read_waiter
        } else {
            None
        },
    ) + opt_seq(
        if writable {
            o.write_waiter
        } else {
            None
        },
    )
}

impl FdObserver {
    /// An observer with nobody waiting.
    pub fn new() -> (o: FdObserver)
        ensures
            o.read_waiter is None,
            o.write_waiter is None,
    {
        FdObserver { read_waiter: None, write_waiter: None }
    }

    /// Makes `waiter` the one to wake when the descriptor becomes readable;
    /// hands back the waiter it replaces, who will not be woken.
    pub fn when_becomes_readable(&mut self, waiter: u64) -> (previous: Option<u64>)
        ensures
            previous == old(self).read_waiter,
            final(self).read_waiter == Some(waiter),
            final(self).write_waiter == old(self).write_waiter,
    {
        let previous = self.read_waiter;
        self.read_waiter = Some(waiter);
        previous
    }

    /// Makes `waiter` the one to wake when the descriptor becomes writable;
    /// hands back the waiter it replaces, who will not be woken.
    pub fn when_becomes_writable(&mut self, waiter: u64) -> (previous: Option<u64>)
        ensures
            previous == old(self).write_waiter,
            final(self).write_waiter == Some(waiter),
            final(self).read_waiter == old(self).read_waiter,
    {
        let previous = self.write_waiter;
        self.write_waiter = Some(waiter);
        previous
    }

    /// Handles a readiness event: takes out the waiters it wakes.
    pub fn on_ready(&mut self, readable: bool, writable: bool) -> (woken: Vec<u64>)
        ensures
            *final(self) == after_ready(*old(self), readable, writable),
            woken@ == woken_by_ready(*old(self), readable, writable),
            !readable ==> final(self).read_waiter == old(self).read_waiter,
            !writable ==> final(self).write_waiter == old(self).write_waiter,
            readable ==> final(self).read_waiter is None,
            writable ==> final(self).write_waiter is None,
            forall|w: u64|
                woken@.contains(w) <==> ((readable && old(self).read_waiter == Some(w)) || (writable
                    && old(self).write_waiter == Some(w))),
    {
        proof {
            crate::laws::law_ready_wakes_only_ready_sides(*old(self), readable, writable);
        }
        let mut woken: Vec<u64> = Vec::new();
        if readable {
            match self.read_waiter {
                Some(w) => woken.push(w),
                None => {},
            }
            self.read_waiter = None;
        }
        if writable {
            match self.write_waiter {
                Some(w) => woken.push(w),
                None => {},
            }
            self.write_waiter = None;
        }
        assert(woken@ =~= woken_by_ready(*old(self), readable, writable));
        woken
    }
}

/// A readiness event for the descriptor under a handle.
#[derive(Clone, Copy, Debug, PartialEq, Eq, Structural)]
pub struct Readiness {
    pub handle: Handle,
    pub readable: bool,
    pub writable: bool,
}

/// The observers, and the waiters woken in order, after the events are
/// handled one after the other.
pub open spec fn dispatch_ready(m: Map<usize, FdObserver>, events: Seq<Readiness>) -> (Map<
    usize,
    FdObserver,
>, Seq<u64>)
    decreases events.len(),
{
    if events.len() == 0 {
        (m, Seq::<u64>::empty())
    } else {
        let (m1, w1) = dispatch_ready(m, events.drop_last());
        let ev = events.last();
        let o = m1[ev.handle.val];
        (
            m1.insert(ev.handle.val, after_ready(o, ev.readable, ev.writable)),
            w1 + woken_by_ready(o, ev.readable, ev.writable),
        )
    }
}

/// Handling events keeps the set of observed handles.
pub proof fn lemma_dispatch_ready_dom(m: Map<usize, FdObserver>, events: Seq<Readiness>)
    requires
        forall|i: int| 0 <= i < events.len() ==> m.dom().contains(#[trigger] events[i].handle.val),
    ensures
        dispatch_ready(m, events).0.dom() == m.dom(),
    decreases events.len(),
{
    if events.len() > 0 {
        let pre = events.drop_last();
        assert forall|i: int| 0 <= i < pre.len() implies m.dom().contains(
            #[trigger] pre[i].handle.val,
        ) by {
            assert(pre[i] == events[i]);
        }
        lemma_dispatch_ready_dom(m, pre);
        assert(events.last() == events[events.len() - 1]);
        assert(dispatch_ready(m, events).0.dom() =~= m.dom());
    }
}

/// Handles the readiness events that one wait of the reactor reported, in
/// order, and hands back the waiters to wake, in order. Every event names a
/// live handle.
pub fn dispatch_readiness(observers: &mut HandleTable<FdObserver>, events: &Vec<Readiness>) -> (woken:
    Vec<u64>)
    requires
        old(observers).wf(),
        forall|i: int|
            0 <= i < events@.len() ==> old(observers)@.dom().contains(#[trigger] events@[i].handle.val),
    ensures
        final(observers).wf(),
        (final(observers)@, woken@) == dispatch_ready(old(observers)@, events@),
        final(observers).slot_count() == old(observers).slot_count(),
        final(observers).active() == old(observers).active(),
        final(observers).live_count() == old(observers).live_count(),
{
    let mut woken: Vec<u64> = Vec::new();
    let n = events.len();
    let mut i: usize = 0;
    while i < n
        invariant
            n == events@.len(),
            0 <= i <= n,
            observers.wf(),
            forall|k: int|
                0 <= k < events@.len() ==> old(observers)@.dom().contains(
                    #[trigger] events@[k].handle.val,
                ),
            (observers@, woken@) == dispatch_ready(old(observers)@, events@.subrange(0, i as int)),
            observers.slot_count() == old(observers).slot_count(),
            observers.active() == old(observers).active(),
            observers.live_count() == old(observers).live_count(),
        decreases n - i,
    {
        let ev = events[i];
        let ghost pre = events@.subrange(0, i as int);
        let ghost next = events@.subrange(0, i + 1);
        proof {
            assert(next.drop_last() =~= pre);
            assert forall|k: int| 0 <= k < pre.len() implies old(observers)@.dom().contains(
                #[trigger] pre[k].handle.val,
            ) by {
                assert(pre[k] == events@[k]);
            }
            lemma_dispatch_ready_dom(old(observers)@, pre);
        }
        let mut o = *observers.get(ev.handle);
        let more = o.on_ready(ev.readable, ev.writable);
        observers.replace(ev.handle, o);
        let ghost w0 = woken@;
        let mut j: usize = 0;
        while j < more.len()
            invariant
                0 <= j <= more@.len(),
                woken@ == w0 + more@.subrange(0, j as int),
            decreases more@.len() - j,
        {
            woken.push(more[j]);
            j = j + 1;
            assert(woken@ =~= w0 + more@.subrange(0, j as int));
        }
        proof {
            assert(more@.subrange(0, more@.len() as int) =~= more@);
            assert(next.last() == ev);
        }
        i = i + 1;
    }
    assert(events@.subrange(0, n as int) =~= events@);
    woken
}

/// The waiters of a socket registered with a completion port (IOCP): the
/// overlapped structures of its reads and writes, by address, and the one
/// waiting for each to complete.
#[derive(Clone, Copy, Debug, PartialEq, Eq, Structural)]
pub struct Observer {
    pub read_overlapped: usize,
    pub write_overlapped: usize,
    pub read_waiter: Option<u64>,
    pub write_waiter: Option<u64>,
}

/// A completion that the port reported: the token that the socket was
/// registered under, the overlapped structure that completed, and the number
/// of bytes transferred.
#[derive(Clone, Copy, Debug, PartialEq, Eq, Structural)]
pub struct CompletionStatus {
    pub token: usize,
    pub overlapped: usize,
    pub bytes_transferred: u32,
}

/// A waiter to wake with the number of bytes that its operation transferred.
#[derive(Clone, Copy, Debug, PartialEq, Eq, Structural)]
pub struct Wakeup {
    pub waiter: u64,
    pub bytes_transferred: u32,
}

/// The observer once a completion of `overlapped` has been handled.
pub open spec fn after_completion(o: Observer, overlapped: usize) -> Observer {
    Observer {
        read_waiter: if o.read_overlapped == overlapped {
            None
        } else {
            o.read_waiter
        },
        write_waiter: if o.write_overlapped == overlapped {
            None
        } else {
            o.write_waiter
        },
        ..o
    }
}

/// The waiter that the completion of an operation wakes, with the bytes transferred.
pub open spec fn wake_seq(o: Option<u64>, bytes: u32) -> Seq<Wakeup> {
    match o {
        Some(w) => seq![Wakeup { waiter: w, bytes_transferred: bytes }],
        None => Seq::<Wakeup>::empty(),
    }
}

/// The waiters that a completion of `overlapped` wakes: the reader first, then the writer.
pub open spec fn woken_by_completion(o: Observer, overlapped: usize, bytes: u32) -> Seq<Wakeup> {
    wake_seq(
        if o.read_overlapped == overlapped {
            o.read_waiter
        } else {
            None
        },
        bytes,
    ) + wake_seq(
        if o.write_overlapped == overlapped {
            o.write_waiter
        } else {
            None
        },
        bytes,
    )
}

impl Observer {
    /// An observer of the reads and writes through the given overlapped
    /// structures, with nobody waiting.
    pub fn new(read_overlapped: usize, write_overlapped: usize) -> (o: Observer)
        ensures
            o.read_overlapped == read_overlapped,
            o.write_overlapped == write_overlapped,
            o.read_waiter is None,
            o.write_waiter is None,
    {
        Observer { read_overlapped, write_overlapped, read_waiter: None, write_waiter: None }
    }

    /// Makes `waiter` the one to wake when the pending read completes; hands
    /// back the waiter it replaces, who will not be woken.
    pub fn when_read_done(&mut self, waiter: u64) -> (previous: Option<u64>)
        ensures
            previous == old(self).read_waiter,
            *final(self) == (Observer { read_waiter: Some(waiter), ..*old(self) }),
    {
        let previous = self.read_waiter;
        self.read_waiter = Some(waiter);
        previous
    }

    /// Makes `waiter` the one to wake when the pending write completes;
    /// hands back the waiter it replaces, who will not be woken.
    pub fn when_write_done(&mut self, waiter: u64) -> (previous: Option<u64>)
        ensures
            previous == old(self).write_waiter,
            *final(self) == (Observer { write_waiter: Some(waiter), ..*old(self) }),
    {
        let previous = self.write_waiter;
        self.write_waiter = Some(waiter);
        previous
    }

    /// Handles the completion of `overlapped`: takes out the waiters it wakes.
    pub fn on_completion(&mut self, overlapped: usize, bytes_transferred: u32) -> (woken: Vec<
        Wakeup,
    >)
        ensures
            *final(self) == after_completion(*old(self), overlapped),
            woken@ == woken_by_completion(*old(self), overlapped, bytes_transferred),
            old(self).read_overlapped != overlapped ==> final(self).read_waiter == old(
                self,
            ).read_waiter,
            old(self).write_overlapped != overlapped ==> final(self).write_waiter == old(
                self,
            ).write_waiter,
            forall|i: int|
                0 <= i < woken@.len() ==> #[trigger] woken@[i].bytes_transferred
                    == bytes_transferred,
            forall|w: u64|
                (exists|i: int| 0 <= i < woken@.len() && #[trigger] woken@[i].waiter == w) <==> ((
                old(self).read_overlapped == overlapped && old(self).read_waiter == Some(w)) || (old(
                    self,
                ).write_overlapped == overlapped && old(self).write_waiter == Some(w))),
    {
        proof {
            crate::laws::law_completion_wakes_only_completed_side(
                *old(self),
                overlapped,
                bytes_transferred,
            );
        }
        let mut woken: Vec<Wakeup> = Vec::new();
        if self.read_overlapped == overlapped {
            match self.read_waiter {
                Some(w) => woken.push(Wakeup { waiter: w, bytes_transferred }),
                None => {},
            }
            self.read_waiter = None;
        }
        if self.write_overlapped == overlapped {
            match self.write_waiter {
                Some(w) => woken.push(Wakeup { waiter: w, bytes_transferred }),
                None => {},
            }
            self.write_waiter = None;
        }
        assert(woken@ =~= woken_by_completion(*old(self), overlapped, bytes_transferred));
        woken
    }
}

/// The observers, and the waiters woken in order, after the completions
/// are handled one after the other.
pub open spec fn dispatch_done(m: Map<usize, Observer>, statuses: Seq<CompletionStatus>) -> (Map<
    usize,
    Observer,
>, Seq<Wakeup>)
    decreases statuses.len(),
{
    if statuses.len() == 0 {
        (m, Seq::<Wakeup>::empty())
    } else {
        let (m1, w1) = dispatch_done(m, statuses.drop_last());
        let st = statuses.last();
        let o = m1[st.token];
        (
            m1.insert(st.token, after_completion(o, st.overlapped)),
            w1 + woken_by_completion(o, st.overlapped, st.bytes_transferred),
        )
    }
}

/// Handling completions keeps the set of observed handles.
pub proof fn lemma_dispatch_done_dom(m: Map<usize, Observer>, statuses: Seq<CompletionStatus>)
    requires
        forall|i: int| 0 <= i < statuses.len() ==> m.dom().contains(#[trigger] statuses[i].token),
    ensures
        dispatch_done(m, statuses).0.dom() == m.dom(),
    decreases statuses.len(),
{
    if statuses.len() > 0 {
        let pre = statuses.drop_last();
        assert forall|i: int| 0 <= i < pre.len() implies m.dom().contains(
            #[trigger] pre[i].token,
        ) by {
            assert(pre[i] == statuses[i]);
        }
        lemma_dispatch_done_dom(m, pre);
        assert(statuses.last() == statuses[statuses.len() - 1]);
        assert(dispatch_done(m, statuses).0.dom() =~= m.dom());
    }
}

/// Handles the completions that one wait on the port reported, in order,
/// and hands back the waiters to wake, in order. Every completion names a
/// live handle as its token.
pub fn dispatch_completions(observers: &mut HandleTable<Observer>, statuses: &Vec<CompletionStatus>) -> (woken:
    Vec<Wakeup>)
    requires
        old(observers).wf(),
        forall|i: int|
            0 <= i < statuses@.len() ==> old(observers)@.dom().contains(#[trigger] statuses@[i].token),
    ensures
        final(observers).wf(),
        (final(observers)@, woken@) == dispatch_done(old(observers)@, statuses@),
        final(observers).slot_count() == old(observers).slot_count(),
        final(observers).active() == old(observers).active(),
        final(observers).live_count() == old(observers).live_count(),
{
    let mut woken: Vec<Wakeup> = Vec::new();
    let n = statuses.len();
    let mut i: usize = 0;
    while i < n
        invariant
            n == statuses@.len(),
            0 <= i <= n,
            observers.wf(),
            forall|k: int|
                0 <= k < statuses@.len() ==> old(observers)@.dom().contains(
                    #[trigger] statuses@[k].token,
                ),
            (observers@, woken@) == dispatch_done(old(observers)@, statuses@.subrange(0, i as int)),
            observers.slot_count() == old(observers).slot_count(),
            observers.active() == old(observers).active(),
            observers.live_count() == old(observers).live_count(),
        decreases n - i,
    {
        let st = statuses[i];
        let ghost pre = statuses@.subrange(0, i as int);
        let ghost next = statuses@.subrange(0, i + 1);
        proof {
            assert(next.drop_last() =~= pre);
            assert forall|k: int| 0 <= k < pre.len() implies old(observers)@.dom().contains(
                #[trigger] pre[k].token,
            ) by {
                assert(pre[k] == statuses@[k]);
            }
            lemma_dispatch_done_dom(old(observers)@, pre);
        }
        let handle = Handle { val: st.token };
        let mut o = *observers.get(handle);
        let more = o.on_completion(st.overlapped, st.bytes_transferred);
        observers.replace(handle, o);
        let ghost w0 = woken@;
        let mut j: usize = 0;
        while j < more.len()
            invariant
                0 <= j <= more@.len(),
                woken@ == w0 + more@.subrange(0, j as int),
            decreases more@.len() - j,
        {
            woken.push(more[j]);
            j = j + 1;
            assert(woken@ =~= w0 + more@.subrange(0, j as int));
        }
        proof {
            assert(more@.subrange(0, more@.len() as int) =~= more@);
            assert(next.last() == st);
        }
        i = i + 1;
    }
    assert(statuses@.subrange(0, n as int) =~= statuses@);
    woken
}

/// Milliseconds in a span of nanoseconds, rounded toward zero, as
/// `time::Duration::num_milliseconds` counts them.
pub open spec fn millis_toward_zero(nanos: int) -> int {
    if nanos >= 0 {
        nanos / 1_000_000
    } else {
        -((-nanos) / 1_000_000)
    }
}

/// The whole milliseconds in a wait timeout given in nanoseconds, rounded
/// toward zero.
pub fn timeout_millis(nanos: i128) -> (ms: i64)
    requires
        -0x7fff_ffff_ffff_ffff_ffff <= nanos <= 0x7fff_ffff_ffff_ffff_ffff,
    ensures
        ms == millis_toward_zero(nanos as int),
        nanos >= 0 ==> 0 <= nanos - ms * 1_000_000 < 1_000_000,
        nanos < 0 ==> -1_000_000 < nanos - ms * 1_000_000 <= 0,
{
    proof {
        crate::laws::law_timeout_millis_is_whole_span(nanos as int);
    }
    if nanos >= 0 {
        (nanos / 1_000_000) as i64
    } else {
        -(((-nanos) / 1_000_000) as i64)
    }
}

/// The timeout for one wait on a completion port, in milliseconds: the
/// milliseconds cut to 32 bits, as the port's interface takes them;
/// `None` to wait until something completes.
pub fn completion_port_timeout(ms: Option<i64>) -> (t: Option<u32>)
    ensures
        t == match ms {
            Some(m) => Some(m as u32),
            None => None::<u32>,
        },
{
    match ms {
        Some(m) => Some(#[verifier::truncate] (m as u32)),
        None => None,
    }
}

/// The timeout for one wait on an epoll instance, in milliseconds: `-1` to
/// wait until something is ready; otherwise the milliseconds, no fewer than
/// zero and no more than `i32::MAX`.
pub fn poll_timeout(ms: Option<i64>) -> (t: i32)
    ensures
        t == match ms {
            None => -1int,
            Some(m) => if m < 0 {
                0int
            } else if m > i32::MAX {
                i32::MAX as int
            } else {
                m as int
            },
        },
{
    match ms {
        None => -1,
        Some(m) => if m < 0 {
            0
        } else if m > i32::MAX as i64 {
            i32::MAX
        } else {
            m as i32
        },
    }
}

} // verus!
