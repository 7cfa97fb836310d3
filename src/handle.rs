use crate::event::EventWait;
use vstd::prelude::*;

verus! {

/// A handle returned by a read: keeps the target buffer borrowed for as long
/// as the wait for the read is outstanding.
pub struct ReadHandle<'buf> {
    buffer: &'buf [u8],
    waiter: EventWait,
}

/// A handle returned by a write: keeps the source buffer borrowed for as long
/// as the wait for the write is outstanding.
pub struct WriteHandle<'buf> {
    buffer: &'buf [u8],
    waiter: EventWait,
}

impl<'buf> ReadHandle<'buf> {
    pub closed spec fn spec_buffer(&self) -> Seq<u8> {
        self.buffer@
    }

    pub closed spec fn spec_waiter(&self) -> EventWait {
        self.waiter
    }

    pub fn new(dst: &'buf [u8], w: EventWait) -> (r: ReadHandle<'buf>)
        ensures
            r.spec_buffer() == dst@,
            r.spec_waiter() == w,
    {
        ReadHandle { buffer: dst, waiter: w }
    }

    pub fn buffer(&self) -> (r: &'buf [u8])
        ensures
            r@ == self.spec_buffer(),
    {
        self.buffer
    }

    pub fn waiter(&self) -> (r: &EventWait)
        ensures
            *r == self.spec_waiter(),
    {
        &self.waiter
    }
}

impl<'buf> WriteHandle<'buf> {
    pub closed spec fn spec_buffer(&self) -> Seq<u8> {
        self.buffer@
    }

    pub closed spec fn spec_waiter(&self) -> EventWait {
        self.waiter
    }

    pub fn new(src: &'buf [u8], w: EventWait) -> (r: WriteHandle<'buf>)
        ensures
            r.spec_buffer() == src@,
            r.spec_waiter() == w,
    {
        WriteHandle { buffer: src, waiter: w }
    }

    pub fn buffer(&self) -> (r: &'buf [u8])
        ensures
            r@ == self.spec_buffer(),
    {
        self.buffer
    }

    pub fn waiter(&self) -> (r: &EventWait)
        ensures
            *r == self.spec_waiter(),
    {
        &self.waiter
    }
}

} // verus!
