//! The race between connection attempts (RFC 8305), as a machine that is told
//! what happened and says what to do.
//!
//! When the next attempt starts is a scheduler's to say. What is kept here is
//! which lookups and attempts are still to be listened to, what failed, and
//! what the race ends in.

use std::sync::Arc;

use vstd::prelude::*;

use crate::error::{
    distinguishing, families, AllAttemptsFailed, Error, ErrorKind, InvalidHeConfig, ResolveErrors,
    Source,
};
use crate::net::{IpAddr, SocketAddr};
use crate::time::Duration;

verus! {

/// What the scheduler says.
#[derive(Debug, Clone, Copy, PartialEq, Eq, Structural)]
pub enum HeAction {
    /// Start an attempt to this address.
    Start(IpAddr),
    /// Nothing to start for so long, unless something happens.
    Wait(Duration),
    /// Nothing to start any more.
    Exhausted,
}

/// A delay between attempts is used only where the scheduler keeps to it:
/// `effective` is what it made of `requested`.
pub fn check_delay(requested: Duration, effective: Duration) -> (r: Result<(), Error>)
    ensures
        match r {
            Ok(_) => requested == effective,
            Err(e) => requested != effective && e.kind == ErrorKind::Connect && *e.source
                == Source::InvalidHeConfig(InvalidHeConfig { requested, effective }),
        },
{
    if effective.nanos != requested.nanos {
        return Err(
            Error::new(
                ErrorKind::Connect,
                Source::InvalidHeConfig(InvalidHeConfig { requested, effective }),
            ),
        );
    }
    Ok(())
}

/// What the winning attempt cost, for whoever watches.
#[derive(Debug, Clone, Copy, PartialEq, Eq, Structural)]
pub struct Attempted {
    /// Where it went, unless it went nowhere that has an address.
    pub remote: Option<SocketAddr>,
    /// From the beginning to the first attempt.
    pub dns: Duration,
    /// The attempt itself.
    pub tcp: Duration,
    /// The handshake on it.
    pub tls: Option<Duration>,
}

/// A race under way.
#[derive(Debug)]
pub struct Race {
    /// The port that every attempt goes to.
    pub port: u16,
    /// Whether somebody wants to know what the winner cost.
    pub watching: bool,
    pub v6_done: bool,
    pub v4_done: bool,
    pub v6_err: Option<Error>,
    pub v4_err: Option<Error>,
    /// How many attempts were started.
    pub launched: usize,
    /// How many of them are still open.
    pub open: usize,
    /// From the beginning to the first attempt.
    pub dns: Duration,
    /// The scheduler has nothing more: only the open attempts are left.
    pub draining: bool,
}

/// What happened.
#[derive(Debug)]
pub enum Event {
    /// The scheduler was asked. `since_began` is the time since the
    /// beginning.
    Scheduled { action: HeAction, since_began: Duration },
    /// The IPv6 lookup answered, failed, or is over.
    V6(Option<Result<IpAddr, Error>>),
    /// The IPv4 lookup answered, failed, or is over.
    V4(Option<Result<IpAddr, Error>>),
    /// An attempt failed.
    AttemptFailed,
    /// An attempt to `remote` succeeded; it took so long.
    AttemptWon { remote: SocketAddr, took: Duration },
    /// What the scheduler waited for is over.
    TimedOut,
}

/// What to do.
#[derive(Debug)]
pub enum Action {
    /// Ask the scheduler.
    Ask,
    /// Tell the scheduler of an IPv6 address, then ask it.
    OfferV6(IpAddr),
    /// Tell the scheduler of an IPv4 address, then ask it.
    OfferV4(IpAddr),
    /// Tell the scheduler that no IPv6 address will come, then ask it.
    MarkV6Done,
    /// Tell the scheduler that no IPv4 address will come, then ask it.
    MarkV4Done,
    /// Start an attempt, then ask the scheduler.
    Launch(SocketAddr),
    /// Wait for the first of these, looked at in this order: the IPv6 lookup,
    /// the IPv4 lookup, an open attempt, and the end of the wait.
    Await { v6: bool, v4: bool, attempts: bool, wait: Option<Duration> },
    /// The race is won.
    Won(Option<Attempted>),
    /// The race is lost.
    Lost(Error),
}

/// What a lost race fails with: a lookup's failure that is about more than the
/// name, else that there was nothing to try, else that everything tried
/// failed.
pub open spec fn verdict(r: Race) -> Error {
    match distinguishing(r.v6_err, r.v4_err) {
        Some(e) => e,
        None => if r.launched == 0 {
            Error {
                kind: ErrorKind::Resolve,
                source: Arc::new(Source::ResolveErrors(families(r.v6_err, r.v4_err))),
            }
        } else {
            Error {
                kind: ErrorKind::Connect,
                source: Arc::new(Source::AllAttemptsFailed(AllAttemptsFailed(r.launched))),
            }
        },
    }
}

/// The race with its failures handed out.
pub open spec fn spent(r: Race) -> Race {
    Race { v6_err: None, v4_err: None, ..r }
}

/// What follows once only the open attempts are left.
pub open spec fn drained(r: Race) -> (Race, Action) {
    if r.open > 0 {
        (r, Action::Await { v6: false, v4: false, attempts: true, wait: None })
    } else {
        (spent(r), Action::Lost(verdict(r)))
    }
}

/// What follows an event.
pub open spec fn stepped(r: Race, event: Event) -> (Race, Action) {
    match event {
        Event::Scheduled { action, since_began } => match action {
            HeAction::Start(ip) => (
                Race {
                    launched: (r.launched + 1) as usize,
                    open: (r.open + 1) as usize,
                    dns: if r.launched == 0 {
                        since_began
                    } else {
                        r.dns
                    },
                    ..r
                },
                Action::Launch(SocketAddr { ip, port: r.port }),
            ),
            HeAction::Wait(d) => (
                r,
                Action::Await {
                    v6: !r.v6_done,
                    v4: !r.v4_done,
                    attempts: r.open > 0,
                    wait: Some(d),
                },
            ),
            HeAction::Exhausted => drained(Race { draining: true, ..r }),
        },
        Event::V6(Some(Ok(ip))) => (r, Action::OfferV6(ip)),
        Event::V6(Some(Err(e))) => (Race { v6_err: Some(e), ..r }, Action::Ask),
        Event::V6(None) => (Race { v6_done: true, ..r }, Action::MarkV6Done),
        Event::V4(Some(Ok(ip))) => (r, Action::OfferV4(ip)),
        Event::V4(Some(Err(e))) => (Race { v4_err: Some(e), ..r }, Action::Ask),
        Event::V4(None) => (Race { v4_done: true, ..r }, Action::MarkV4Done),
        Event::AttemptFailed => {
            let left = Race { open: (r.open - 1) as usize, ..r };
            if r.draining {
                drained(left)
            } else {
                (left, Action::Ask)
            }
        },
        Event::AttemptWon { remote, took } => (
            Race { open: (r.open - 1) as usize, ..r },
            Action::Won(
                if r.watching {
                    Some(Attempted { remote: Some(remote), dns: r.dns, tcp: took, tls: None })
                } else {
                    None
                },
            ),
        ),
        Event::TimedOut => (r, Action::Ask),
    }
}

impl Race {
    /// No more attempts are open than were started.
    pub open spec fn wf(self) -> bool {
        self.open <= self.launched
    }

    /// Whether an event can happen: an attempt ends only where one is open,
    /// and one more can be counted.
    pub open spec fn possible(self, event: Event) -> bool {
        match event {
            Event::AttemptFailed => self.open > 0,
            Event::AttemptWon { remote, took } => self.open > 0,
            Event::Scheduled { action: HeAction::Start(ip), since_began } => self.launched
                < usize::MAX,
            _ => true,
        }
    }

    /// A race that has not started, with its first action.
    pub fn start(port: u16, watching: bool) -> (r: (Self, Action))
        ensures
            r.0 == (Race {
                port,
                watching,
                v6_done: false,
                v4_done: false,
                v6_err: None,
                v4_err: None,
                launched: 0,
                open: 0,
                dns: Duration { nanos: 0 },
                draining: false,
            }),
            r.0.wf(),
            r.1 == Action::Ask,
    {
        (
            Race {
                port,
                watching,
                v6_done: false,
                v4_done: false,
                v6_err: None,
                v4_err: None,
                launched: 0,
                open: 0,
                dns: Duration { nanos: 0 },
                draining: false,
            },
            Action::Ask,
        )
    }

    /// Only the open attempts are left: wait for one, or end the race.
    fn drain(&mut self) -> (action: Action)
        ensures
            (*final(self), action) == drained(*old(self)),
    {
        if self.open > 0 {
            return Action::Await { v6: false, v4: false, attempts: true, wait: None };
        }
        let errs = ResolveErrors::from_families(self.v6_err.take(), self.v4_err.take());
        if let Some(e) = errs.distinguishing_error() {
            return Action::Lost(e.copy());
        }
        if self.launched == 0 {
            return Action::Lost(Error::new(ErrorKind::Resolve, Source::ResolveErrors(errs)));
        }
        Action::Lost(
            Error::new(
                ErrorKind::Connect,
                Source::AllAttemptsFailed(AllAttemptsFailed(self.launched)),
            ),
        )
    }

    /// Something happened: what to do now.
    pub fn step(&mut self, event: Event) -> (action: Action)
        requires
            old(self).wf(),
            old(self).possible(event),
        ensures
            final(self).wf(),
            (*final(self), action) == stepped(*old(self), event),
    {
        match event {
            Event::Scheduled { action, since_began } => match action {
                HeAction::Start(ip) => {
                    if self.launched == 0 {
                        self.dns = since_began;
                    }
                    self.launched = self.launched + 1;
                    self.open = self.open + 1;
                    Action::Launch(SocketAddr { ip, port: self.port })
                },
                HeAction::Wait(d) => Action::Await {
                    v6: !self.v6_done,
                    v4: !self.v4_done,
                    attempts: self.open > 0,
                    wait: Some(d),
                },
                HeAction::Exhausted => {
                    self.draining = true;
                    self.drain()
                },
            },
            Event::V6(Some(Ok(ip))) => Action::OfferV6(ip),
            Event::V6(Some(Err(e))) => {
                self.v6_err = Some(e);
                Action::Ask
            },
            Event::V6(None) => {
                self.v6_done = true;
                Action::MarkV6Done
            },
            Event::V4(Some(Ok(ip))) => Action::OfferV4(ip),
            Event::V4(Some(Err(e))) => {
                self.v4_err = Some(e);
                Action::Ask
            },
            Event::V4(None) => {
                self.v4_done = true;
                Action::MarkV4Done
            },
            Event::AttemptFailed => {
                self.open = self.open - 1;
                if self.draining {
                    self.drain()
                } else {
                    Action::Ask
                }
            },
            Event::AttemptWon { remote, took } => {
                self.open = self.open - 1;
                Action::Won(
                    if self.watching {
                        Some(
                            Attempted { remote: Some(remote), dns: self.dns, tcp: took, tls: None },
                        )
                    } else {
                        None
                    },
                )
            },
            Event::TimedOut => Action::Ask,
        }
    }
}

// ---------------------------------------------------------------------------
// What holds of it all
// ---------------------------------------------------------------------------

/// A failed lookup that says more than that a name did not resolve is what a
/// lost race fails with, whatever was tried besides.
pub proof fn law_distinguishing_failure_is_kept(r: Race)
    ensures
        r.v6_err matches Some(e) && e.kind != ErrorKind::Resolve ==> verdict(r) == r.v6_err->0,
        r.v4_err matches Some(e) && e.kind != ErrorKind::Resolve ==> verdict(r).kind
            != ErrorKind::Resolve,
{
}

/// Without such a failure, a race in which nothing was tried is about the
/// name, and names both lookups; one in which something was is about the
/// connection, and says how many were tried.
pub proof fn law_nothing_tried_is_about_the_name(r: Race)
    requires
        distinguishing(r.v6_err, r.v4_err) is None,
    ensures
        r.launched == 0 ==> verdict(r).kind == ErrorKind::Resolve && *verdict(r).source
            == Source::ResolveErrors(families(r.v6_err, r.v4_err)),
        r.launched > 0 ==> verdict(r).kind == ErrorKind::Connect && *verdict(r).source
            == Source::AllAttemptsFailed(AllAttemptsFailed(r.launched)),
{
}

/// A race is won by the first attempt that succeeds, whenever it does.
pub proof fn law_first_success_wins(r: Race, remote: SocketAddr, took: Duration)
    ensures
        stepped(r, Event::AttemptWon { remote, took }).1 is Won,
{
}

/// A race is lost only once the scheduler has nothing more and no attempt is
/// open.
pub proof fn law_not_lost_while_something_is_open(r: Race, event: Event)
    requires
        r.wf(),
        r.possible(event),
        stepped(r, event).1 is Lost,
    ensures
        stepped(r, event).0.draining,
        stepped(r, event).0.open == 0,
{
}

/// A lookup that is over is not listened to again.
pub proof fn law_finished_lookup_stays_finished(r: Race, event: Event)
    ensures
        r.v6_done ==> stepped(r, event).0.v6_done,
        r.v4_done ==> stepped(r, event).0.v4_done,
        stepped(r, event).1 matches Action::Await { v6, v4, attempts, wait } ==> (r.v6_done ==> !v6)
            && (r.v4_done ==> !v4),
{
}

/// Attempts are counted as they are started, each goes to the race's port,
/// and the time before the first of them is the one that is kept.
pub proof fn law_attempts_are_counted(r: Race, event: Event)
    requires
        r.wf(),
        r.possible(event),
    ensures
        stepped(r, event).0.launched == r.launched + if stepped(r, event).1 is Launch {
            1int
        } else {
            0int
        },
        stepped(r, event).1 matches Action::Launch(a) ==> a.port == r.port,
        r.launched > 0 ==> stepped(r, event).0.dns == r.dns,
{
}

/// The race after some events.
pub open spec fn after(start: Race, events: Seq<Event>) -> Race
    decreases events.len(),
{
    if events.len() == 0 {
        start
    } else {
        stepped(after(start, events.drop_last()), events.last()).0
    }
}

/// Whether each of some events can happen when it does.
pub open spec fn possible_all(start: Race, events: Seq<Event>) -> bool
    decreases events.len(),
{
    events.len() == 0 || {
        &&& possible_all(start, events.drop_last())
        &&& after(start, events.drop_last()).possible(events.last())
    }
}

/// How many attempts some events start.
pub open spec fn starts(events: Seq<Event>) -> nat
    decreases events.len(),
{
    if events.len() == 0 {
        0
    } else {
        starts(events.drop_last()) + if events.last() matches Event::Scheduled {
            action: HeAction::Start(_),
            since_began: _,
        } {
            1nat
        } else {
            0nat
        }
    }
}

/// How many attempts some events end.
pub open spec fn ends(events: Seq<Event>) -> nat
    decreases events.len(),
{
    if events.len() == 0 {
        0
    } else {
        ends(events.drop_last()) + if events.last() is AttemptFailed || events.last() is AttemptWon {
            1nat
        } else {
            0nat
        }
    }
}

/// Over a whole race, as many attempts are counted as were started, and as
/// many are open as were started and have not ended. So a race that is lost
/// because everything failed names the number of attempts, each of which
/// ended.
pub proof fn law_the_count_is_what_was_started(start: Race, events: Seq<Event>)
    requires
        start.launched == 0,
        start.open == 0,
        possible_all(start, events),
    ensures
        after(start, events).wf(),
        after(start, events).launched == starts(events),
        after(start, events).open == starts(events) - ends(events),
    decreases events.len(),
{
    if events.len() > 0 {
        law_the_count_is_what_was_started(start, events.drop_last());
    }
}

/// While the scheduler waits, everything that can still bring the race on is
/// listened to: each lookup exactly while it is not over, whatever else is
/// under way, the attempts exactly while one is open, and the clock for as
/// long as the scheduler said.
pub proof fn law_every_open_lookup_is_listened_to(r: Race, d: Duration, since_began: Duration)
    ensures
        ({
            let (next, action) = stepped(
                r,
                Event::Scheduled { action: HeAction::Wait(d), since_began },
            );
            &&& action matches Action::Await { v6, v4, attempts, wait } && (v6 <==> !r.v6_done) && (
            v4 <==> !r.v4_done) && (attempts <==> r.open > 0) && wait == Some(d)
            &&& next == r
        }),
{
}

/// Whatever a lookup finds is offered to the scheduler, as an address of the
/// family that was looked up, and whenever it comes.
pub proof fn law_what_a_lookup_finds_is_offered(r: Race, ip: IpAddr)
    ensures
        stepped(r, Event::V6(Some(Ok(ip)))) == (r, Action::OfferV6(ip)),
        stepped(r, Event::V4(Some(Ok(ip)))) == (r, Action::OfferV4(ip)),
{
}

/// The end of a lookup is told to the scheduler, ends that lookup and leaves
/// the other one alone.
pub proof fn law_the_end_of_a_lookup_is_told(r: Race)
    ensures
        ({
            let (next, action) = stepped(r, Event::V6(None));
            &&& action == Action::MarkV6Done
            &&& next.v6_done
            &&& next.v4_done == r.v4_done
            &&& next.v6_err == r.v6_err
            &&& next.v4_err == r.v4_err
        }),
        ({
            let (next, action) = stepped(r, Event::V4(None));
            &&& action == Action::MarkV4Done
            &&& next.v4_done
            &&& next.v6_done == r.v6_done
            &&& next.v6_err == r.v6_err
            &&& next.v4_err == r.v4_err
        }),
{
}

/// A failed lookup is kept under its own family, ends neither the lookup nor
/// the race, and the scheduler is asked what to do.
pub proof fn law_a_failed_lookup_ends_nothing(r: Race, e: Error)
    ensures
        ({
            let (next, action) = stepped(r, Event::V6(Some(Err(e))));
            &&& action == Action::Ask
            &&& next.v6_err == Some(e)
            &&& next.v4_err == r.v4_err
            &&& next.v6_done == r.v6_done
            &&& next.v4_done == r.v4_done
        }),
        ({
            let (next, action) = stepped(r, Event::V4(Some(Err(e))));
            &&& action == Action::Ask
            &&& next.v4_err == Some(e)
            &&& next.v6_err == r.v6_err
            &&& next.v6_done == r.v6_done
            &&& next.v4_done == r.v4_done
        }),
{
}

/// What the scheduler starts is started: an attempt to that very address at
/// the race's port. It is counted and open, and the first one ends the time
/// that the lookups are said to have taken.
pub proof fn law_what_is_scheduled_is_started(r: Race, ip: IpAddr, since_began: Duration)
    requires
        r.wf(),
        r.launched < usize::MAX,
    ensures
        ({
            let (next, action) = stepped(
                r,
                Event::Scheduled { action: HeAction::Start(ip), since_began },
            );
            &&& action matches Action::Launch(a) && a.ip == ip && a.port == r.port
            &&& next.launched == r.launched + 1
            &&& next.open == r.open + 1
            &&& r.launched == 0 ==> next.dns == since_began
            &&& r.launched > 0 ==> next.dns == r.dns
            &&& next.v6_err == r.v6_err && next.v4_err == r.v4_err
        }),
{
}

/// Once the scheduler has nothing more, the race waits for the open attempts
/// alone, without a clock, and is lost at once where there is none.
pub proof fn law_the_open_attempts_are_waited_for(r: Race, since_began: Duration)
    ensures
        ({
            let (next, action) = stepped(
                r,
                Event::Scheduled { action: HeAction::Exhausted, since_began },
            );
            &&& next.draining
            &&& next.open == r.open && next.launched == r.launched
            &&& r.open > 0 ==> action == (Action::Await {
                v6: false,
                v4: false,
                attempts: true,
                wait: None,
            })
            &&& r.open == 0 ==> action == Action::Lost(verdict(r))
        }),
{
}

/// A failed attempt is not open any more. The scheduler is asked what comes
/// next, unless it has nothing more: then the other open attempts are waited
/// for, and the race is lost with the last of them.
pub proof fn law_a_failed_attempt_goes_on(r: Race)
    requires
        r.open > 0,
    ensures
        ({
            let (next, action) = stepped(r, Event::AttemptFailed);
            &&& next.open == r.open - 1
            &&& next.launched == r.launched
            &&& !r.draining ==> action == Action::Ask
            &&& r.draining && r.open > 1 ==> action == (Action::Await {
                v6: false,
                v4: false,
                attempts: true,
                wait: None,
            })
            &&& r.draining && r.open == 1 ==> action == Action::Lost(verdict(r))
        }),
{
}

/// Whoever watches is told where the winner went, how long the lookups took
/// before the first attempt and how long the winner took; nobody else is told
/// anything. The end of a wait asks the scheduler again.
pub proof fn law_the_winner_is_reported(r: Race, remote: SocketAddr, took: Duration)
    ensures
        r.watching ==> (stepped(r, Event::AttemptWon { remote, took }).1 matches Action::Won(Some(a))
            && a.remote == Some(remote) && a.dns == r.dns && a.tcp == took && a.tls is None),
        !r.watching ==> stepped(r, Event::AttemptWon { remote, took }).1 == Action::Won(None),
        stepped(r, Event::TimedOut) == (r, Action::Ask),
{
}

/// Where only one lookup failed for more than the name, its failure is what a
/// lost race fails with; where both did, the IPv6 one's is.
pub proof fn law_the_telling_failure_is_the_verdict(r: Race)
    ensures
        (r.v6_err is None || (r.v6_err->0).kind == ErrorKind::Resolve) && (r.v4_err matches Some(e)
            && e.kind != ErrorKind::Resolve) ==> verdict(r) == r.v4_err->0,
        (r.v6_err matches Some(e) && e.kind != ErrorKind::Resolve) ==> verdict(r) == r.v6_err->0,
        (r.v6_err is None || (r.v6_err->0).kind == ErrorKind::Resolve) && (r.v4_err is None || (
        r.v4_err->0).kind == ErrorKind::Resolve) ==> (verdict(r).kind == ErrorKind::Resolve
            <==> r.launched == 0),
{
}

/// Over a whole race the port and the watching stay, and a lookup is over
/// exactly once it said so.
pub proof fn law_a_lookup_is_over_once_it_says_so(start: Race, events: Seq<Event>)
    ensures
        after(start, events).port == start.port,
        after(start, events).watching == start.watching,
        after(start, events).v6_done <==> start.v6_done || exists|i: int|
            0 <= i < events.len() && #[trigger] events[i] == Event::V6(None),
        after(start, events).v4_done <==> start.v4_done || exists|i: int|
            0 <= i < events.len() && #[trigger] events[i] == Event::V4(None),
    decreases events.len(),
{
    if events.len() > 0 {
        let before = events.drop_last();
        let n = events.len() - 1;
        law_a_lookup_is_over_once_it_says_so(start, before);
        assert(forall|i: int| 0 <= i < before.len() ==> before[i] == events[i]);
        if exists|i: int| 0 <= i < before.len() && #[trigger] before[i] == Event::V6(None) {
            let i = choose|i: int| 0 <= i < before.len() && #[trigger] before[i] == Event::V6(None);
            assert(events[i] == Event::V6(None));
        }
        if exists|i: int| 0 <= i < before.len() && #[trigger] before[i] == Event::V4(None) {
            let i = choose|i: int| 0 <= i < before.len() && #[trigger] before[i] == Event::V4(None);
            assert(events[i] == Event::V4(None));
        }
        if exists|i: int| 0 <= i < events.len() && #[trigger] events[i] == Event::V6(None) {
            let i = choose|i: int| 0 <= i < events.len() && #[trigger] events[i] == Event::V6(None);
            if i < n {
                assert(before[i] == Event::V6(None));
            }
        }
        if exists|i: int| 0 <= i < events.len() && #[trigger] events[i] == Event::V4(None) {
            let i = choose|i: int| 0 <= i < events.len() && #[trigger] events[i] == Event::V4(None);
            if i < n {
                assert(before[i] == Event::V4(None));
            }
        }
        assert(events[n] == events.last());
    }
}

} // verus!
