//! A stream read through a buffer of its own.

use vstd::prelude::*;

verus! {

/// How large the buffer is where nobody says.
pub const SCRATCH: usize = 16_384;

/// A stream and the buffer that it is read into.
#[derive(Debug)]
pub struct HyperIo<S> {
    inner: S,
    scratch: Vec<u8>,
}

/// How many octets a buffer that was asked for holds: never none, because a
/// read of none looks like the end of the stream.
pub open spec fn room_for(cap: usize) -> nat {
    if cap == 0 {
        1
    } else {
        cap as nat
    }
}

/// How many octets are read into a buffer where so many are wanted.
pub open spec fn wanted(remaining: usize, room: nat) -> nat {
    if remaining <= room {
        remaining as nat
    } else {
        room
    }
}

impl<S> HyperIo<S> {
    /// The stream.
    pub closed spec fn stream(self) -> S {
        self.inner
    }

    /// The buffer.
    pub closed spec fn buffer(self) -> Seq<u8> {
        self.scratch@
    }

    /// A stream with a buffer of the usual size.
    pub fn new(inner: S) -> (r: Self)
        ensures
            r.stream() == inner,
            r.buffer() == Seq::new(SCRATCH as nat, |i: int| 0u8),
    {
        HyperIo::with_capacity(inner, SCRATCH)
    }

    /// A stream with a buffer of this size, and of at least one octet.
    pub fn with_capacity(inner: S, cap: usize) -> (r: Self)
        ensures
            r.stream() == inner,
            r.buffer() == Seq::new(room_for(cap), |i: int| 0u8),
    {
        let size: usize = if cap == 0 {
            1
        } else {
            cap
        };
        let scratch: Vec<u8> = vec![0u8; size];
        assert(scratch@ =~= Seq::new(room_for(cap), |i: int| 0u8));
        HyperIo { inner, scratch }
    }

    /// The stream back.
    pub fn into_inner(self) -> (r: S)
        ensures
            r == self.stream(),
    {
        self.inner
    }

    /// The stream, to be read or written.
    pub fn stream_mut(&mut self) -> (r: &mut S)
        ensures
            *r == old(self).stream(),
            final(self).stream() == *final(r),
            final(self).buffer() == old(self).buffer(),
    {
        &mut self.inner
    }

    /// The stream and the buffer that it is read into.
    pub fn parts_mut(&mut self) -> (r: (&mut S, &mut [u8]))
        ensures
            *r.0 == old(self).stream(),
            r.1@ == old(self).buffer(),
            final(self).stream() == *final(r.0),
            final(self).buffer() == final(r.1)@,
    {
        (&mut self.inner, self.scratch.as_mut_slice())
    }

    /// How many octets to read where so many are wanted.
    pub fn want(&self, remaining: usize) -> (r: usize)
        ensures
            r == wanted(remaining, self.buffer().len()),
    {
        if remaining <= self.scratch.len() {
            remaining
        } else {
            self.scratch.len()
        }
    }
}

/// Nothing is read only where nothing is wanted, so that a read of nothing
/// means the end of the stream.
pub proof fn law_an_empty_read_is_asked_for(cap: usize, remaining: usize)
    ensures
        wanted(remaining, room_for(cap)) == 0 <==> remaining == 0,
{
}

/// As much is read as is wanted and there is room for, and there is as much
/// room as was asked for.
pub proof fn law_as_much_as_fits_is_read(cap: usize, remaining: usize)
    ensures
        wanted(remaining, room_for(cap)) <= remaining,
        wanted(remaining, room_for(cap)) <= room_for(cap),
        wanted(remaining, room_for(cap)) == remaining || wanted(remaining, room_for(cap))
            == room_for(cap),
        cap > 0 ==> room_for(cap) == cap,
        cap == 0 ==> room_for(cap) == 1,
{
}

} // verus!
