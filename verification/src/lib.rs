//! Asynchronous input and output on top of an event loop: the bookkeeping
//! that decides what the event loop does next, verified.
//!
//! - `timer`: the queue of timers and the wait timeout of the event loop;
//! - `handle_table`: handles for registered descriptors;
//! - `reactor`: which waiters a readiness event or a completion wakes;
//! - `io`: the steps of nonblocking reads, writes, accepts and connects;
//! - `slice`: a buffer of which a prefix is in use;
//! - `laws`: properties that span several operations.

use vstd::prelude::*;

pub mod handle_table;
pub mod io;
pub mod laws;
pub mod reactor;
pub mod slice;
pub mod timer;

verus! {

/// Access to the network through a reactor, which every address, listener
/// and stream made from it is registered with.
pub struct Network<R> {
    reactor: R,
}

impl<R> Network<R> {
    /// The reactor that the network registers its sockets with.
    pub closed spec fn spec_reactor(&self) -> R {
        self.reactor
    }

    /// Network access through `reactor`.
    pub fn new(reactor: R) -> (n: Network<R>)
        ensures
            n.spec_reactor() == reactor,
    {
        Network { reactor: reactor }
    }

    /// The reactor that the network registers its sockets with.
    pub fn reactor(&self) -> (r: &R)
        ensures
            *r == self.spec_reactor(),
    {
        &self.reactor
    }
}

} // verus!
