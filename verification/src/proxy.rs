//! The exchange of octets with a proxy that ends in an open tunnel.
//!
//! What is said is the proxy protocol's business. It is asked for the next
//! step with everything that was received and not yet used, and what it wants
//! written is written in full before it is asked again.

use std::sync::Arc;

use vstd::prelude::*;
use vstd::slice::slice_subrange;

use crate::error::{Error, ErrorKind, IoFailure, Source};

verus! {

/// How many octets are read at once, at most.
pub const READ_CHUNK: usize = 4096;

/// What the protocol wants.
#[derive(Debug)]
pub enum Step {
    /// Nothing more: the tunnel is open.
    Done,
    /// That this is written.
    Write(Vec<u8>),
    /// More octets.
    NeedMore,
}

/// What to do next.
#[derive(Debug)]
pub enum Next {
    /// Write what [`Tunnel::to_write`] holds, or part of it.
    Write,
    /// Flush what was written.
    Flush,
    /// Ask the protocol, with what [`Tunnel::received`] holds.
    Advance,
    /// Read up to [`READ_CHUNK`] octets.
    Read,
    /// The tunnel is open, and what was received is beyond the handshake.
    Open,
    /// There is no tunnel.
    Fail(Error),
}

/// A tunnel being opened.
#[derive(Debug)]
pub struct Tunnel {
    received: Vec<u8>,
    out: Vec<u8>,
    sent: usize,
}

/// The failure of the connection to a proxy.
pub open spec fn broken(io: IoFailure) -> Error {
    Error { kind: ErrorKind::Connect, source: Arc::new(Source::Io(io)) }
}

/// What follows once there is something, or nothing, to write.
pub open spec fn writing(left: Seq<u8>) -> Next {
    if left.len() == 0 {
        Next::Flush
    } else {
        Next::Write
    }
}

/// What is left to write once so many octets were written.
pub open spec fn left_after(left: Seq<u8>, n: nat) -> Seq<u8> {
    left.skip(n as int)
}

/// What follows a write of so many octets.
pub open spec fn next_after_write(left: Seq<u8>, n: nat) -> Next {
    if n == 0 {
        Next::Fail(broken(IoFailure::WriteZero))
    } else {
        writing(left_after(left, n))
    }
}

/// What is held once these octets were read.
pub open spec fn held_after(held: Seq<u8>, octets: Seq<u8>) -> Seq<u8> {
    held + octets
}

/// What follows a read of these octets.
pub open spec fn next_after_read(octets: Seq<u8>) -> Next {
    if octets.len() == 0 {
        Next::Fail(broken(IoFailure::UnexpectedEof))
    } else {
        Next::Advance
    }
}

/// What is left to write, and what follows, once the protocol has said what it
/// wants.
pub open spec fn advanced_to(left: Seq<u8>, step: Step) -> (Seq<u8>, Next) {
    match step {
        Step::Done => (left, Next::Open),
        Step::Write(octets) => (octets@, writing(octets@)),
        Step::NeedMore => (left, Next::Read),
    }
}

impl Tunnel {
    /// No more was sent than there was.
    pub closed spec fn wf(self) -> bool {
        self.sent <= self.out@.len()
    }

    /// What is still to be written.
    pub closed spec fn left(self) -> Seq<u8> {
        self.out@.skip(self.sent as int)
    }

    /// What was received and not yet used.
    pub closed spec fn held(self) -> Seq<u8> {
        self.received@
    }

    /// Start with what the protocol opens with.
    pub fn begin(opening: Vec<u8>) -> (r: (Self, Next))
        ensures
            r.0.wf(),
            r.0.left() == opening@,
            r.0.held() == Seq::<u8>::empty(),
            r.1 == writing(opening@),
    {
        let next = if opening.len() == 0 {
            Next::Flush
        } else {
            Next::Write
        };
        let t = Tunnel { received: Vec::new(), out: opening, sent: 0 };
        assert(t.left() =~= opening@);
        (t, next)
    }

    /// What is still to be written.
    pub fn to_write(&self) -> (r: &[u8])
        requires
            self.wf(),
        ensures
            r@ == self.left(),
    {
        let r = slice_subrange(self.out.as_slice(), self.sent, self.out.len());
        assert(r@ =~= self.left());
        r
    }

    /// What was received and not yet used.
    pub fn received(&self) -> (r: &[u8])
        ensures
            r@ == self.held(),
    {
        self.received.as_slice()
    }

    /// What was received, for whoever takes over the open tunnel.
    pub fn into_received(self) -> (r: Vec<u8>)
        ensures
            r@ == self.held(),
    {
        self.received
    }

    /// So many octets were written.
    pub fn wrote(&mut self, n: usize) -> (r: Next)
        requires
            old(self).wf(),
            n <= old(self).left().len(),
        ensures
            final(self).wf(),
            final(self).held() == old(self).held(),
            final(self).left() == left_after(old(self).left(), n as nat),
            r == next_after_write(old(self).left(), n as nat),
    {
        if n == 0 {
            assert(self.left().skip(0) =~= self.left());
            return Next::Fail(Error::new(ErrorKind::Connect, Source::Io(IoFailure::WriteZero)));
        }
        let ghost before = self.left();
        let total: usize = self.out.len();
        assert(n <= total - self.sent);
        self.sent = self.sent + n;
        assert(self.left() =~= before.skip(n as int));
        if self.sent == self.out.len() {
            Next::Flush
        } else {
            Next::Write
        }
    }

    /// What was written is on its way.
    pub fn flushed(&self) -> (r: Next)
        ensures
            r == Next::Advance,
    {
        Next::Advance
    }

    /// The protocol was asked. `unused` is what it left of what was received.
    pub fn advanced(&mut self, step: Step, unused: Vec<u8>) -> (r: Next)
        requires
            old(self).wf(),
        ensures
            final(self).wf(),
            final(self).held() == unused@,
            (final(self).left(), r) == advanced_to(old(self).left(), step),
    {
        self.received = unused;
        match step {
            Step::Done => Next::Open,
            Step::Write(octets) => {
                let next = if octets.len() == 0 {
                    Next::Flush
                } else {
                    Next::Write
                };
                let ghost wanted = octets@;
                self.out = octets;
                self.sent = 0;
                assert(self.left() =~= wanted);
                next
            },
            Step::NeedMore => Next::Read,
        }
    }

    /// These octets were read; none means that no more will come.
    pub fn read(&mut self, octets: &[u8]) -> (r: Next)
        requires
            old(self).wf(),
        ensures
            final(self).wf(),
            final(self).left() == old(self).left(),
            final(self).held() == held_after(old(self).held(), octets@),
            r == next_after_read(octets@),
    {
        let ghost before = self.received@;
        let mut i: usize = 0;
        while i < octets.len()
            invariant
                i <= octets@.len(),
                self.received@ =~= before + octets@.take(i as int),
                self.out == old(self).out,
                self.sent == old(self).sent,
            decreases octets@.len() - i,
        {
            self.received.push(octets[i]);
            i = i + 1;
        }
        assert(octets@.take(i as int) =~= octets@);
        if octets.len() == 0 {
            return Next::Fail(Error::new(ErrorKind::Connect, Source::Io(IoFailure::UnexpectedEof)));
        }
        Next::Advance
    }

    /// The connection to the proxy failed, in its own words.
    pub fn failed(&self, text: String) -> (r: Next)
        ensures
            r == Next::Fail(
                (Error { kind: ErrorKind::Connect, source: Arc::new(Source::Outside(text)) }),
            ),
    {
        Next::Fail(Error::new(ErrorKind::Connect, Source::Outside(text)))
    }
}

/// The protocol is asked again only once all it wanted written was: a flush
/// follows a write exactly where nothing is left.
pub proof fn law_written_in_full_before_asking(left: Seq<u8>)
    ensures
        writing(left) == Next::Flush <==> left.len() == 0,
        writing(left) == Next::Write <==> left.len() > 0,
{
}

/// Received octets reach the protocol in the order they came, however they
/// were cut up: two reads are as good as one of both.
pub proof fn law_reads_may_be_cut_anywhere(held: Seq<u8>, a: Seq<u8>, b: Seq<u8>)
    ensures
        held_after(held_after(held, a), b) == held_after(held, a + b),
        held_after(held, a).take(held.len() as int) == held,
        held_after(held, a).skip(held.len() as int) == a,
{
    assert(held_after(held_after(held, a), b) =~= held_after(held, a + b));
    assert(held_after(held, a).take(held.len() as int) =~= held);
    assert(held_after(held, a).skip(held.len() as int) =~= a);
}

/// Octets are written in order, however few a write takes: two writes are as
/// good as one of both.
pub proof fn law_writes_may_be_cut_anywhere(left: Seq<u8>, a: nat, b: nat)
    requires
        a + b <= left.len(),
    ensures
        left_after(left_after(left, a), b) == left_after(left, a + b),
        left == left.take(a as int) + left_after(left, a),
{
    assert(left_after(left_after(left, a), b) =~= left_after(left, a + b));
    assert(left =~= left.take(a as int) + left_after(left, a));
}

/// A write that took something is followed by another exactly while something
/// is left, and by a flush once nothing is; one that took nothing fails the
/// tunnel. A read that gave something is followed by a question to the
/// protocol, and the end of the stream fails the tunnel.
pub proof fn law_what_follows_a_write_and_a_read(left: Seq<u8>, n: nat, octets: Seq<u8>)
    requires
        n <= left.len(),
    ensures
        n == 0 ==> (next_after_write(left, n) matches Next::Fail(e) && e.kind == ErrorKind::Connect
            && *e.source == Source::Io(IoFailure::WriteZero)),
        0 < n < left.len() ==> next_after_write(left, n) == Next::Write,
        0 < n && n == left.len() ==> next_after_write(left, n) == Next::Flush,
        octets.len() > 0 ==> next_after_read(octets) == Next::Advance,
        octets.len() == 0 ==> (next_after_read(octets) matches Next::Fail(e) && e.kind
            == ErrorKind::Connect && *e.source == Source::Io(IoFailure::UnexpectedEof)),
{
}

/// What the protocol wants is done: what it wants written is all that is left
/// to write, a tunnel that is done is open, and one that needs more is read.
pub proof fn law_the_protocol_is_obeyed(left: Seq<u8>, octets: Vec<u8>)
    ensures
        advanced_to(left, Step::Done).1 == Next::Open,
        advanced_to(left, Step::NeedMore).1 == Next::Read,
        advanced_to(left, Step::Write(octets)).0 == octets@,
        octets@.len() > 0 ==> advanced_to(left, Step::Write(octets)).1 == Next::Write,
        octets@.len() == 0 ==> advanced_to(left, Step::Write(octets)).1 == Next::Flush,
{
}

} // verus!
