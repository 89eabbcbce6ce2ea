//! `PING` on a shared HTTP/2 connection (RFC 9113, 6.7): one is sent after
//! each interval, and the connection ends where one is not answered in time.
//!
//! A pong that is there is looked at before the deadline, and the interval
//! starts anew only once the pong came, so that no two pings are under way.

use vstd::prelude::*;

use crate::poll::Polled;
use crate::time::Duration;

verus! {

/// How often a `PING` is sent, and how long the peer has to answer it.
#[derive(Debug, Clone, Copy, PartialEq, Eq, Structural)]
pub struct H2KeepAlive {
    /// From one to the next.
    pub every: Duration,
    /// For the answer.
    pub within: Duration,
}

impl H2KeepAlive {
    /// Both of them: neither is of use alone.
    pub fn new(every: Duration, within: Duration) -> (r: Self)
        ensures
            r == (H2KeepAlive { every, within }),
    {
        H2KeepAlive { every, within }
    }
}

/// What is waited for.
#[derive(Debug, Clone, Copy, PartialEq, Eq, Structural)]
pub enum Phase {
    /// The end of the interval.
    Idle,
    /// The answer to a `PING`.
    Probing,
}

/// A keep-alive under way.
#[derive(Debug, Clone, Copy, PartialEq, Eq, Structural)]
pub struct KeepAlive {
    pub cfg: H2KeepAlive,
    pub phase: Phase,
}

/// Why the connection ends.
#[derive(Debug)]
pub enum Lapsed<E> {
    /// The peer did not answer in time.
    NoPong,
    /// The connection could not be asked.
    Broken(E),
}

/// What to do next.
#[derive(Debug)]
pub enum Next<E> {
    /// Start the clock for so long, and ask it or the peer as the phase says.
    Sleep(Duration),
    /// Ask the deadline.
    AskDeadline,
    /// Nothing, for now.
    Wait,
    /// End the connection.
    End(Lapsed<E>),
}

/// What happens between a keep-alive and the peer.
pub enum Exchanged {
    /// A `PING` was sent.
    Ping,
    /// Its answer came.
    Pong,
    /// Its answer did not come yet.
    Silence,
}

/// What is waited for behind an event, where it can happen at all.
pub open spec fn phase_after(p: Phase, e: Exchanged) -> Option<Phase> {
    match (p, e) {
        (Phase::Idle, Exchanged::Ping) => Some(Phase::Probing),
        (Phase::Probing, Exchanged::Pong) => Some(Phase::Idle),
        (Phase::Probing, Exchanged::Silence) => Some(Phase::Probing),
        _ => None,
    }
}

/// How long the clock is started for behind an event, where it is started.
pub open spec fn clock_for(cfg: H2KeepAlive, e: Exchanged) -> Option<Duration> {
    match e {
        Exchanged::Ping => Some(cfg.within),
        Exchanged::Pong => Some(cfg.every),
        Exchanged::Silence => None,
    }
}

/// What is waited for behind a history of events, where it can be one.
pub open spec fn phase_behind(history: Seq<Exchanged>) -> Option<Phase>
    decreases history.len(),
{
    if history.len() == 0 {
        Some(Phase::Idle)
    } else {
        match phase_behind(history.drop_last()) {
            Some(p) => phase_after(p, history.last()),
            None => None,
        }
    }
}

/// How many of the events are this one.
pub open spec fn times(history: Seq<Exchanged>, e: Exchanged) -> nat
    decreases history.len(),
{
    if history.len() == 0 {
        0
    } else {
        times(history.drop_last(), e) + if history.last() == e {
            1nat
        } else {
            0
        }
    }
}

impl KeepAlive {
    /// Start with a whole interval.
    pub fn new(cfg: H2KeepAlive) -> (r: (Self, Duration))
        ensures
            r.0 == (KeepAlive { cfg, phase: Phase::Idle }),
            r.1 == cfg.every,
    {
        (KeepAlive { cfg, phase: Phase::Idle }, cfg.every)
    }

    /// The interval is over, and sending a `PING` gave this.
    pub fn pinged<E>(&mut self, sent: Result<(), E>) -> (r: Next<E>)
        requires
            old(self).phase == Phase::Idle,
        ensures
            final(self).cfg == old(self).cfg,
            match sent {
                Ok(_) => phase_after(old(self).phase, Exchanged::Ping) == Some(final(self).phase)
                    && (r matches Next::Sleep(d) && Some(d) == clock_for(
                    old(self).cfg,
                    Exchanged::Ping,
                )),
                Err(e) => final(self).phase == old(self).phase && r == Next::End(Lapsed::Broken(e)),
            },
    {
        match sent {
            Ok(_) => {
                self.phase = Phase::Probing;
                Next::Sleep(self.cfg.within)
            },
            Err(e) => Next::End(Lapsed::Broken(e)),
        }
    }

    /// The peer was asked for its answer.
    pub fn ponged<E>(&mut self, pong: Polled<Result<(), E>>) -> (r: Next<E>)
        requires
            old(self).phase == Phase::Probing,
        ensures
            final(self).cfg == old(self).cfg,
            match pong {
                Polled::Ready(Ok(_)) => phase_after(old(self).phase, Exchanged::Pong) == Some(
                    final(self).phase,
                ) && (r matches Next::Sleep(d) && Some(d) == clock_for(
                    old(self).cfg,
                    Exchanged::Pong,
                )),
                Polled::Ready(Err(e)) => final(self).phase == old(self).phase && r == Next::End(
                    Lapsed::Broken(e),
                ),
                Polled::Pending => phase_after(old(self).phase, Exchanged::Silence) == Some(
                    final(self).phase,
                ) && r == Next::<E>::AskDeadline,
            },
    {
        match pong {
            Polled::Ready(Ok(_)) => {
                self.phase = Phase::Idle;
                Next::Sleep(self.cfg.every)
            },
            Polled::Ready(Err(e)) => Next::End(Lapsed::Broken(e)),
            Polled::Pending => Next::AskDeadline,
        }
    }

    /// The deadline was asked, the answer not being there.
    pub fn deadline<E>(&self, over: bool) -> (r: Next<E>)
        requires
            self.phase == Phase::Probing,
        ensures
            r == if over {
                Next::<E>::End(Lapsed::NoPong)
            } else {
                Next::<E>::Wait
            },
    {
        if over {
            Next::End(Lapsed::NoPong)
        } else {
            Next::Wait
        }
    }
}

/// No two pings are ever under way: as many were sent as were answered, and
/// one more while an answer is waited for.
pub proof fn law_one_ping_at_a_time(history: Seq<Exchanged>)
    requires
        phase_behind(history) is Some,
    ensures
        times(history, Exchanged::Ping) == times(history, Exchanged::Pong) + if phase_behind(
            history,
        ) == Some(Phase::Probing) {
            1nat
        } else {
            0
        },
    decreases history.len(),
{
    if history.len() > 0 {
        law_one_ping_at_a_time(history.drop_last());
    }
}

/// A ping gives the peer its time to answer, an answer starts the next
/// interval, and a silence changes neither clock nor phase.
pub proof fn law_which_clock_runs(cfg: H2KeepAlive)
    ensures
        clock_for(cfg, Exchanged::Ping) == Some(cfg.within),
        clock_for(cfg, Exchanged::Pong) == Some(cfg.every),
        clock_for(cfg, Exchanged::Silence) is None,
        phase_after(Phase::Idle, Exchanged::Ping) == Some(Phase::Probing),
        phase_after(Phase::Probing, Exchanged::Pong) == Some(Phase::Idle),
        phase_after(Phase::Probing, Exchanged::Silence) == Some(Phase::Probing),
        phase_after(Phase::Idle, Exchanged::Pong) is None,
        phase_after(Phase::Probing, Exchanged::Ping) is None,
{
}

} // verus!
