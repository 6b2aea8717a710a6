//! A byte buffer of which only a prefix is meant.

use vstd::prelude::*;

verus! {

/// A buffer together with the end of the part of it that is in use.
pub struct Slice<T> {
    pub buf: T,
    pub end: usize,
}

impl<T> Slice<T> {
    /// Wraps `buf`, of which the first `end` bytes are meant.
    pub fn new(buf: T, end: usize) -> (s: Slice<T>)
        ensures
            s.buf == buf,
            s.end == end,
    {
        Slice { buf: buf, end: end }
    }
}

impl Slice<Vec<u8>> {
    /// The bytes in use: the first `end` bytes of the buffer.
    pub fn as_ref(&self) -> (r: &[u8])
        requires
            self.end <= self.buf.len(),
        ensures
            r@ == self.buf@.subrange(0, self.end as int),
    {
        &self.buf.as_slice()[0..self.end]
    }
}

} // verus!
