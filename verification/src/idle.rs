//! A response body that may not stay silent for too long.
//!
//! The body is asked first and the clock only where it has nothing, so a frame
//! that is there is never lost to a deadline. The clock starts anew with each
//! silence. A body that was silent for too long is dropped, and fails from
//! then on.

use std::sync::Arc;

use vstd::prelude::*;

use crate::error::{Error, ErrorKind, Phase, Source};
use crate::poll::Polled;
use crate::time::Duration;

pub use crate::error::BetweenBytesElapsed;

verus! {

/// A body and the bound on its silences.
#[derive(Debug)]
pub struct IdleTimeout<B> {
    inner: Option<B>,
    every: Option<Duration>,
    asleep: bool,
}

/// What to ask before anything else.
#[derive(Debug)]
pub enum First {
    /// Nothing: the body is gone, and this is why.
    Expired(Error),
    /// The body.
    Inner,
}

/// What follows once the body was asked.
#[derive(Debug)]
pub enum After<T> {
    /// This is the answer.
    Answer(Polled<T>),
    /// Ask the clock, started for so long where it is not running.
    Clock { start: Option<Duration> },
}

/// The failure of a body that was silent for too long.
pub open spec fn elapsed_error(every: Option<Duration>) -> Error {
    Error {
        kind: ErrorKind::Timeout(Phase::BetweenBytes),
        source: Arc::new(
            Source::BetweenBytesElapsed(
                BetweenBytesElapsed(
                    match every {
                        Some(d) => d,
                        None => Duration { nanos: 0 },
                    },
                ),
            ),
        ),
    }
}

/// Where the watch over a body's silences stands.
pub struct Watch {
    /// Whether the body is gone.
    pub gone: bool,
    pub bound: Option<Duration>,
    /// Whether the clock is running.
    pub running: bool,
}

/// Where the watch stands once the body was asked.
pub open spec fn asked(w: Watch, answered: bool) -> Watch {
    if w.bound is None {
        w
    } else {
        Watch { running: !answered, ..w }
    }
}

/// For how long the clock is started once the body was asked, where it is.
pub open spec fn started(w: Watch, answered: bool) -> Option<Duration> {
    if answered || w.running {
        None
    } else {
        w.bound
    }
}

/// Where the watch stands once the clock was asked.
pub open spec fn clocked(w: Watch, over: bool) -> Watch {
    if over {
        Watch { gone: true, running: false, ..w }
    } else {
        w
    }
}

/// One turn: the body answered, or it did not and the clock had run out or
/// had not.
pub enum Turn {
    Answered,
    Silent { over: bool },
}

/// Where the watch stands behind a turn. A body that is gone is not asked, and
/// without a bound there is no clock to ask.
pub open spec fn turned(w: Watch, t: Turn) -> Watch {
    if w.gone {
        w
    } else {
        match t {
            Turn::Answered => asked(w, true),
            Turn::Silent { over } => if w.bound is None {
                asked(w, false)
            } else {
                clocked(asked(w, false), over)
            },
        }
    }
}

/// Where the watch stands behind all turns.
pub open spec fn turned_all(w: Watch, turns: Seq<Turn>) -> Watch
    decreases turns.len(),
{
    if turns.len() == 0 {
        w
    } else {
        turned(turned_all(w, turns.drop_last()), turns.last())
    }
}

impl<B> IdleTimeout<B> {
    /// Where the watch stands.
    pub open spec fn watch(self) -> Watch {
        Watch { gone: self.body() is None, bound: self.bound(), running: self.running() }
    }

    /// The body, unless it is gone.
    pub closed spec fn body(self) -> Option<B> {
        self.inner
    }

    /// The bound.
    pub closed spec fn bound(self) -> Option<Duration> {
        self.every
    }

    /// Whether the clock is running.
    pub closed spec fn running(self) -> bool {
        self.asleep
    }

    /// A body with a bound on its silences, or without one.
    pub fn new(inner: B, every: Option<Duration>) -> (r: Self)
        ensures
            r.body() == Some(inner),
            r.bound() == every,
            !r.running(),
    {
        IdleTimeout { inner: Some(inner), every, asleep: false }
    }

    /// The bound.
    pub fn between_bytes_timeout(&self) -> (r: Option<Duration>)
        ensures
            r == self.bound(),
    {
        self.every
    }

    /// Whether the body was silent for too long.
    pub fn is_expired(&self) -> (r: bool)
        ensures
            r == (self.body() is None),
    {
        self.inner.is_none()
    }

    /// The body, where it is not gone.
    pub fn inner(&self) -> (r: Option<&B>)
        ensures
            match r {
                Some(b) => self.body() == Some(*b),
                None => self.body() is None,
            },
    {
        self.inner.as_ref()
    }

    fn elapsed(&self) -> (e: Error)
        ensures
            e == elapsed_error(self.bound()),
    {
        Error::new(
            ErrorKind::Timeout(Phase::BetweenBytes),
            Source::BetweenBytesElapsed(
                BetweenBytesElapsed(
                    match self.every {
                        Some(d) => d,
                        None => Duration { nanos: 0 },
                    },
                ),
            ),
        )
    }

    /// What to ask for the next frame.
    pub fn first(&self) -> (r: First)
        ensures
            r == match self.body() {
                Some(_) => First::Inner,
                None => First::Expired(elapsed_error(self.bound())),
            },
    {
        if self.inner.is_none() {
            return First::Expired(self.elapsed());
        }
        First::Inner
    }

    /// The body was asked and answered this.
    pub fn polled<T>(&mut self, out: Polled<T>) -> (r: After<T>)
        ensures
            final(self).body() == old(self).body(),
            final(self).watch() == asked(old(self).watch(), out is Ready),
            r == if old(self).bound() is None || out is Ready {
                After::Answer(out)
            } else {
                After::<T>::Clock { start: started(old(self).watch(), false) }
            },
    {
        let every = match self.every {
            Some(d) => d,
            None => return After::Answer(out),
        };
        match out {
            Polled::Ready(v) => {
                self.asleep = false;
                After::Answer(Polled::Ready(v))
            },
            Polled::Pending => {
                let start = if self.asleep {
                    None
                } else {
                    Some(every)
                };
                self.asleep = true;
                After::Clock { start }
            },
        }
    }

    /// The clock was asked: where it has run out the body is dropped and this
    /// is its failure, else there is nothing yet.
    pub fn clock(&mut self, over: bool) -> (r: Polled<Error>)
        ensures
            final(self).watch() == clocked(old(self).watch(), over),
            !over ==> final(self).body() == old(self).body(),
            r == if over {
                Polled::Ready(elapsed_error(old(self).bound()))
            } else {
                Polled::<Error>::Pending
            },
    {
        if over {
            self.inner = None;
            self.asleep = false;
            return Polled::Ready(self.elapsed());
        }
        Polled::Pending
    }

    /// Whether the stream is at its end, given what the body says where there
    /// is one. A body that was dropped is not at its end: it failed.
    pub fn is_end_stream(&self, body_says: bool) -> (r: bool)
        ensures
            r == (self.body() is Some && body_says),
    {
        self.inner.is_some() && body_says
    }
}

/// A body fails only in a turn in which it had nothing to say and the clock had
/// run out; without a bound it never fails.
pub proof fn law_an_answer_is_not_lost(w: Watch, turns: Seq<Turn>)
    requires
        !w.gone,
        turned_all(w, turns).gone,
    ensures
        w.bound is Some,
        exists|i: int|
            0 <= i < turns.len() && #[trigger] turns[i] == (Turn::Silent { over: true }) && !turned_all(
                w,
                turns.take(i),
            ).gone,
    decreases turns.len(),
{
    lemma_bound_stays(w, turns.drop_last());
    let n = turns.len() - 1;
    let before = turns.drop_last();
    assert(before =~= turns.take(n));
    if turned_all(w, before).gone {
        law_an_answer_is_not_lost(w, before);
        let i = choose|i: int|
            0 <= i < before.len() && #[trigger] before[i] == (Turn::Silent { over: true })
                && !turned_all(w, before.take(i)).gone;
        assert(before.take(i) =~= turns.take(i));
        assert(turns[i] == before[i]);
    } else {
        assert(turns[n] == (Turn::Silent { over: true }));
    }
}

/// The bound stays what it was.
proof fn lemma_bound_stays(w: Watch, turns: Seq<Turn>)
    ensures
        turned_all(w, turns).bound == w.bound,
    decreases turns.len(),
{
    if turns.len() > 0 {
        lemma_bound_stays(w, turns.drop_last());
    }
}

/// A body that was silent for too long fails from then on.
pub proof fn law_expired_stays_expired(w: Watch, turns: Seq<Turn>)
    requires
        w.gone,
    ensures
        turned_all(w, turns) == w,
    decreases turns.len(),
{
    if turns.len() > 0 {
        law_expired_stays_expired(w, turns.drop_last());
    }
}

/// Each silence gets the whole bound and one clock: behind an answer the next
/// silence starts it for all of the bound, and no later turn of that silence
/// starts it again.
pub proof fn law_each_silence_gets_the_whole_bound(w: Watch)
    requires
        w.bound is Some,
    ensures
        started(asked(w, true), false) == w.bound,
        started(asked(w, false), false) is None,
        started(clocked(asked(w, false), false), false) is None,
{
}

/// Under a bound the clock runs exactly through a silence: it is started with
/// the bound in the first turn without an answer, and stopped by any answer.
/// Where it has run out the body is gone; until then it stays. Without a bound
/// nothing changes.
pub proof fn law_the_clock_runs_through_a_silence(w: Watch, answered: bool, over: bool)
    ensures
        w.bound is Some ==> (asked(w, answered).running <==> !answered),
        w.bound is None ==> asked(w, answered) == w && started(w, answered) is None,
        asked(w, answered).gone == w.gone,
        asked(w, answered).bound == w.bound,
        started(w, answered) is Some <==> w.bound is Some && !answered && !w.running,
        started(w, answered) matches Some(d) ==> w.bound == Some(d),
        clocked(w, true).gone,
        !clocked(w, true).running,
        clocked(w, false) == w,
        clocked(w, over).bound == w.bound,
{
}

/// A body that was silent for too long fails as one, and says how long it was
/// allowed to be.
pub proof fn law_a_silent_body_says_its_bound(every: Duration)
    ensures
        elapsed_error(Some(every)).kind == ErrorKind::Timeout(Phase::BetweenBytes),
        *elapsed_error(Some(every)).source == Source::BetweenBytesElapsed(
            BetweenBytesElapsed(every),
        ),
{
}

} // verus!
