//! Deadlines on things that are waited for.
//!
//! What is waited for is always asked before the clock, so an answer that is
//! there is never lost to a deadline that passed in the same moment.

use std::sync::Arc;

use vstd::prelude::*;

use crate::error::{ConnectTimedOut, Error, ErrorKind, FirstByteTimedOut, Phase, Source};
use crate::poll::Polled;
use crate::time::{rest_of, Duration};

verus! {

/// The failure of a connection that was not there in time.
pub open spec fn connect_timeout(bound: Duration) -> Error {
    Error {
        kind: ErrorKind::Timeout(Phase::Connect),
        source: Arc::new(Source::ConnectTimedOut(ConnectTimedOut(bound))),
    }
}

/// What a connection under a bound, or without one, comes to.
pub open spec fn under_bound<T>(
    bound: Option<Duration>,
    polled: Polled<Result<T, Error>>,
    over: bool,
) -> Polled<Result<T, Error>> {
    match (polled, bound) {
        (Polled::Ready(out), _) => Polled::Ready(out),
        (Polled::Pending, Some(d)) => if over {
            Polled::Ready(Err(connect_timeout(d)))
        } else {
            Polled::Pending
        },
        (Polled::Pending, None) => Polled::Pending,
    }
}

/// What a wait for the head of a response comes to.
pub open spec fn head_by<V, Q>(
    bound: Option<Duration>,
    out: Polled<Result<V, Failed<Q>>>,
    bound_over: bool,
) -> Polled<Result<V, Failed<Q>>> {
    match out {
        Polled::Ready(v) => Polled::Ready(v),
        Polled::Pending => match bound {
            Some(d) => if bound_over {
                Polled::Ready(Err(Failed::Sent(first_byte_timeout(d))))
            } else {
                Polled::Pending
            },
            None => Polled::Pending,
        },
    }
}

/// A connection under a bound, or without one: what it answered, else the
/// bound where that is over. `over` is not looked at without a bound.
pub fn within_connect<T>(
    bound: Option<Duration>,
    polled: Polled<Result<T, Error>>,
    over: bool,
) -> (r: Polled<Result<T, Error>>)
    ensures
        r == under_bound(bound, polled, over),
{
    match (polled, bound) {
        (Polled::Ready(out), _) => Polled::Ready(out),
        (Polled::Pending, Some(d)) => if over {
            Polled::Ready(
                Err(
                    Error::new(
                        ErrorKind::Timeout(Phase::Connect),
                        Source::ConnectTimedOut(ConnectTimedOut(d)),
                    ),
                ),
            )
        } else {
            Polled::Pending
        },
        (Polled::Pending, None) => Polled::Pending,
    }
}

/// What is left of a bound once so much of it was spent waiting.
pub fn budget_after(bound: Option<Duration>, waited: Duration) -> (r: Option<Duration>)
    ensures
        r == match bound {
            Some(d) => Some(rest_of(d, waited)),
            None => None,
        },
{
    match bound {
        Some(d) => Some(d.saturating_sub(waited)),
        None => None,
    }
}

/// How an exchange failed: before anything of the request was sent, with the
/// request back, or later.
#[derive(Debug)]
pub enum Failed<Q> {
    NotSent { request: Q, error: Error },
    Sent(Error),
}

impl<Q> Failed<Q> {
    /// What went wrong.
    pub open spec fn why(self) -> Error {
        match self {
            Failed::NotSent { request, error } => error,
            Failed::Sent(error) => error,
        }
    }

    /// What went wrong, for a caller with no use for the request.
    pub fn into_error(self) -> (r: Error)
        ensures
            r == self.why(),
    {
        match self {
            Failed::NotSent { request: _, error } => error,
            Failed::Sent(error) => error,
        }
    }
}

/// The wait for the head of a response: under a bound or not, and with the
/// request body held back behind a latch or not.
///
/// A latch is opened by the peer or, so that a peer that does not know how
/// cannot hold the body back for good, by a clock of its own.
#[derive(Debug, Clone, Copy, PartialEq, Eq, Structural)]
pub struct FirstByte {
    pub bound: Option<Duration>,
    /// How long the latch stays shut where the peer does nothing.
    pub gate: Option<Duration>,
    /// Whether the clock has opened it.
    pub opened: bool,
}

/// The failure of a response whose head was not there in time.
pub open spec fn first_byte_timeout(bound: Duration) -> Error {
    Error {
        kind: ErrorKind::Timeout(Phase::FirstByte),
        source: Arc::new(Source::FirstByteTimedOut(FirstByteTimedOut(bound))),
    }
}

/// Whether a turn opens the latch: the exchange had no answer, and the latch's
/// clock has run out.
pub open spec fn opens(f: FirstByte, gate_over: bool) -> bool {
    !f.opened && f.gate is Some && gate_over
}

/// A wait behind turns in which the exchange had no answer, and how often the
/// latch was opened in them. A turn is whether the latch's clock has run out.
pub open spec fn behind_turns(f: FirstByte, turns: Seq<bool>) -> (FirstByte, nat)
    decreases turns.len(),
{
    if turns.len() == 0 {
        (f, 0)
    } else {
        let (g, n) = behind_turns(f, turns.drop_last());
        if opens(g, turns.last()) {
            (FirstByte { opened: true, ..g }, n + 1)
        } else {
            (g, n)
        }
    }
}

impl FirstByte {
    /// A wait under `bound`. There is a latch where the request has one and a
    /// time for it is configured.
    pub fn new(bound: Option<Duration>, gated: bool, after: Option<Duration>) -> (r: Self)
        ensures
            r == (FirstByte {
                bound,
                gate: if gated {
                    after
                } else {
                    None
                },
                opened: false,
            }),
    {
        FirstByte {
            bound,
            gate: if gated {
                after
            } else {
                None
            },
            opened: false,
        }
    }

    /// The exchange was asked. Where it has no answer yet, the latch's clock
    /// is looked at, unless it has opened the latch before, and then the
    /// bound's. The second part of the result says that the latch is to be
    /// opened now.
    pub fn polled<V, Q>(
        &mut self,
        out: Polled<Result<V, Failed<Q>>>,
        gate_over: bool,
        bound_over: bool,
    ) -> (r: (Polled<Result<V, Failed<Q>>>, bool))
        ensures
            final(self).bound == old(self).bound,
            final(self).gate == old(self).gate,
            match out {
                Polled::Ready(v) => {
                    &&& r.0 == head_by(old(self).bound, out, bound_over)
                    &&& !r.1
                    &&& final(self).opened == old(self).opened
                },
                Polled::Pending => {
                    &&& r.1 == opens(*old(self), gate_over)
                    &&& final(self).opened == (old(self).opened || r.1)
                    &&& r.0 == head_by(old(self).bound, out, bound_over)
                },
            },
    {
        match out {
            Polled::Ready(v) => (Polled::Ready(v), false),
            Polled::Pending => {
                let open = !self.opened && self.gate.is_some() && gate_over;
                if open {
                    self.opened = true;
                }
                match self.bound {
                    Some(d) => if bound_over {
                        let e = Error::new(
                            ErrorKind::Timeout(Phase::FirstByte),
                            Source::FirstByteTimedOut(FirstByteTimedOut(d)),
                        );
                        (Polled::Ready(Err(Failed::Sent(e))), open)
                    } else {
                        (Polled::Pending, open)
                    },
                    None => (Polled::Pending, open),
                }
            },
        }
    }
}

/// Waiting cannot lengthen a bound: what was waited and what is left make no
/// more than there was, unless more was waited than that.
pub proof fn law_budget_is_spent_once(bound: Duration, waited: Duration)
    ensures
        rest_of(bound, waited).nanos <= bound.nanos,
        waited.nanos <= bound.nanos ==> waited.nanos + rest_of(bound, waited).nanos
            == bound.nanos,
{
}

/// The latch's clock opens the latch at most once, and never where there is
/// none.
pub proof fn law_latch_opens_once(f: FirstByte, turns: Seq<bool>)
    requires
        !f.opened,
    ensures
        behind_turns(f, turns).1 == if behind_turns(f, turns).0.opened {
            1nat
        } else {
            0
        },
        behind_turns(f, turns).0.gate == f.gate,
        f.gate is None ==> behind_turns(f, turns).1 == 0,
    decreases turns.len(),
{
    if turns.len() > 0 {
        law_latch_opens_once(f, turns.drop_last());
    }
}

/// An answer that is there is handed on whatever the clock says; without one
/// the bound, where there is one and it is over, is the failure, and says how
/// long it was; and nothing else ends the wait.
pub proof fn law_an_answer_beats_the_bound<T>(
    bound: Option<Duration>,
    out: Result<T, Error>,
    over: bool,
)
    ensures
        under_bound(bound, Polled::Ready(out), over) == Polled::Ready(out),
        under_bound::<T>(bound, Polled::Pending, over) is Pending <==> !(bound is Some && over),
        bound matches Some(d) && over ==> (under_bound::<T>(bound, Polled::Pending, over) matches
            Polled::Ready(Err(e)) && e.kind == ErrorKind::Timeout(Phase::Connect) && *e.source
            == Source::ConnectTimedOut(ConnectTimedOut(bound->0))),
{
}

/// The head of a response that is there is handed on whatever the clock says;
/// without it a bound that is over fails the request as one that was sent, and
/// says how long it was; and nothing else ends the wait.
pub proof fn law_a_head_beats_the_bound<V, Q>(
    bound: Option<Duration>,
    out: Result<V, Failed<Q>>,
    over: bool,
)
    ensures
        head_by(bound, Polled::Ready(out), over) == Polled::Ready(out),
        head_by::<V, Q>(bound, Polled::Pending, over) is Pending <==> !(bound is Some && over),
        bound matches Some(d) && over ==> (head_by::<V, Q>(bound, Polled::Pending, over) matches
            Polled::Ready(Err(Failed::Sent(e))) && e.kind == ErrorKind::Timeout(Phase::FirstByte)
            && *e.source == Source::FirstByteTimedOut(FirstByteTimedOut(bound->0))),
{
}

/// A latch that is shut is opened in the first turn in which its clock has run
/// out.
pub proof fn law_the_clock_opens_a_shut_latch(f: FirstByte, gate_over: bool)
    ensures
        opens(f, gate_over) <==> f.gate is Some && !f.opened && gate_over,
{
}

} // verus!
