//! The race between connection attempts and what surrounds it, driven by a
//! runtime, a resolver and a scheduler that stand in for real ones.

use hclient_native::connect::{
    first_address, Action, Answers, Connect, ProxyRoute, Reading, Replay, ResolvedAddr,
};
use hclient_native::connect::Approach;
use hclient_native::discovery::{Answer, NegativeCache, Origin, Prefetched, SvcbEndpoint};
use hclient_native::error::{
    AllAttemptsFailed, Error, ErrorKind, Phase, ProxySpokeFirst, ResolveErrors, ResolveTimedOut,
    Source,
};
use hclient_native::net::IpAddr;
use hclient_native::race::{self, check_delay, Attempted, Event, HeAction, Race};
use hclient_native::time::Duration;
use hclient_native::uri::{Target, UriParts};
use std::collections::{HashMap, VecDeque};

fn v6(n: u16) -> IpAddr {
    IpAddr::V6((0x20u128 << 112) | u128::from(n))
}

fn v4(n: u8) -> IpAddr {
    IpAddr::V4(0x0a00_0000 | u32::from(n))
}

fn ms(n: u64) -> Duration {
    Duration::from_millis(n)
}

fn minus(a: Duration, b: Duration) -> Duration {
    a.saturating_sub(b)
}

/// A scheduler after RFC 8305: families take turns, IPv6 first; attempts keep
/// their distance; IPv4 alone waits a little for IPv6.
struct Scheduler {
    attempt_delay: Duration,
    v6: VecDeque<IpAddr>,
    v4: VecDeque<IpAddr>,
    v6_done: bool,
    v4_done: bool,
    last: Option<(Duration, bool)>,
    v4_alone_since: Option<Duration>,
}

impl Scheduler {
    fn new(attempt_delay: Duration) -> Self {
        Scheduler {
            attempt_delay,
            v6: VecDeque::new(),
            v4: VecDeque::new(),
            v6_done: false,
            v4_done: false,
            last: None,
            v4_alone_since: None,
        }
    }

    fn poll(&mut self, elapsed: Duration) -> HeAction {
        if self.v6.is_empty() && self.v4.is_empty() {
            return if self.v6_done && self.v4_done {
                HeAction::Exhausted
            } else {
                HeAction::Wait(ms(1000))
            };
        }
        match self.last {
            None => {
                if self.v6.is_empty() && !self.v6_done {
                    let since = *self.v4_alone_since.get_or_insert(elapsed);
                    let waited = minus(elapsed, since);
                    if waited.nanos < ms(50).nanos {
                        return HeAction::Wait(minus(ms(50), waited));
                    }
                }
            }
            Some((at, _)) => {
                let waited = minus(elapsed, at);
                if waited.nanos < self.attempt_delay.nanos {
                    return HeAction::Wait(minus(self.attempt_delay, waited));
                }
            }
        }
        let want_v6 = match self.last {
            None => true,
            Some((_, was_v6)) => !was_v6,
        };
        let pick_v6 = if want_v6 {
            !self.v6.is_empty()
        } else {
            self.v4.is_empty()
        };
        let ip = if pick_v6 {
            self.v6.pop_front()
        } else {
            self.v4.pop_front()
        };
        self.last = Some((elapsed, pick_v6));
        HeAction::Start(ip.expect("one of the two is not empty"))
    }
}

/// A runtime whose connections succeed or fail as told, on a clock that moves
/// only when somebody waits.
struct FakeRt {
    clock: Duration,
    log: Vec<(IpAddr, Duration)>,
    outcomes: HashMap<String, bool>,
}

impl FakeRt {
    fn new(outcomes: &[(IpAddr, bool)]) -> Self {
        FakeRt {
            clock: ms(0),
            log: Vec::new(),
            outcomes: outcomes
                .iter()
                .map(|(a, ok)| (format!("{a:?}"), *ok))
                .collect(),
        }
    }

    fn tried(&self) -> Vec<IpAddr> {
        self.log.iter().map(|(a, _)| *a).collect()
    }
}

/// A lookup: what it answers, and from when on.
struct Lookup {
    items: VecDeque<Result<IpAddr, Error>>,
    at: Duration,
    asked: usize,
}

impl Lookup {
    fn of(items: Vec<Result<IpAddr, Error>>) -> Self {
        Lookup {
            items: items.into_iter().collect(),
            at: ms(0),
            asked: 0,
        }
    }

    fn addrs(list: Vec<IpAddr>) -> Self {
        Lookup::of(list.into_iter().map(Ok).collect())
    }

    fn poll(&mut self, now: Duration) -> Option<Option<Result<IpAddr, Error>>> {
        if now.nanos < self.at.nanos {
            return None;
        }
        self.asked += 1;
        Some(self.items.pop_front())
    }
}

/// A lookup as one attempt reads it.
struct Reader<'a> {
    replay: Replay,
    answers: &'a mut Answers,
    lookup: &'a mut Lookup,
}

impl Reader<'_> {
    fn poll(&mut self, now: Duration) -> Option<Option<Result<IpAddr, Error>>> {
        match self.replay.next(self.answers) {
            Reading::Item(r) => Some(Some(r.map(|a| a.addr))),
            Reading::End => Some(None),
            Reading::Poll => {
                let item = self.lookup.poll(now)?;
                let item = item.map(|r| r.map(|addr| ResolvedAddr { addr, ttl: None }));
                let item = self.replay.fresh(self.answers, item);
                Some(item.map(|r| r.map(|a| a.addr)))
            }
        }
    }
}

fn drive(
    rt: &mut FakeRt,
    mut sched: Scheduler,
    v6s: &mut Reader<'_>,
    v4s: &mut Reader<'_>,
    port: u16,
) -> Result<Option<Attempted>, Error> {
    let start = rt.clock;
    let mut open: VecDeque<hclient_native::net::SocketAddr> = VecDeque::new();
    let (mut race, mut action) = Race::start(port, true);
    for _ in 0..10_000 {
        let event = match action {
            race::Action::Ask => None,
            race::Action::OfferV6(ip) => {
                sched.v6.push_back(ip);
                None
            }
            race::Action::OfferV4(ip) => {
                sched.v4.push_back(ip);
                None
            }
            race::Action::MarkV6Done => {
                sched.v6_done = true;
                None
            }
            race::Action::MarkV4Done => {
                sched.v4_done = true;
                None
            }
            race::Action::Launch(addr) => {
                rt.log.push((addr.ip, rt.clock));
                open.push_back(addr);
                None
            }
            race::Action::Await {
                v6: ask6,
                v4: ask4,
                attempts,
                wait,
            } => {
                let mut event = None;
                if ask6 {
                    event = v6s.poll(rt.clock).map(Event::V6);
                }
                if event.is_none() && ask4 {
                    event = v4s.poll(rt.clock).map(Event::V4);
                }
                if event.is_none() && attempts {
                    let remote = open.pop_front().expect("an attempt is open");
                    let won = rt.outcomes.get(&format!("{:?}", remote.ip)) == Some(&true);
                    event = Some(if won {
                        Event::AttemptWon {
                            remote,
                            took: ms(0),
                        }
                    } else {
                        Event::AttemptFailed
                    });
                }
                if event.is_none() {
                    rt.clock = rt.clock.saturating_add(wait.expect("nothing else to wait for"));
                    event = Some(Event::TimedOut);
                }
                event
            }
            race::Action::Won(a) => return Ok(a),
            race::Action::Lost(e) => return Err(e),
        };
        let event = match event {
            Some(e) => e,
            None => {
                let elapsed = minus(rt.clock, start);
                Event::Scheduled {
                    action: sched.poll(elapsed),
                    since_began: elapsed,
                }
            }
        };
        action = race.step(event);
    }
    panic!("the race does not end");
}

fn drive_lookups(
    rt: &mut FakeRt,
    sched: Scheduler,
    mut l6: Lookup,
    mut l4: Lookup,
) -> Result<Option<Attempted>, Error> {
    let (mut a6, mut a4) = (Answers::new(), Answers::new());
    drive(
        rt,
        sched,
        &mut Reader {
            replay: Replay::new(Vec::new()),
            answers: &mut a6,
            lookup: &mut l6,
        },
        &mut Reader {
            replay: Replay::new(Vec::new()),
            answers: &mut a4,
            lookup: &mut l4,
        },
        81,
    )
}

/// The delay that a scheduler keeps to is between 100 ms and 2 s.
fn build_scheduler(requested: Duration) -> Result<Scheduler, Error> {
    let effective = if requested.nanos < ms(100).nanos {
        ms(100)
    } else if requested.nanos > ms(2000).nanos {
        ms(2000)
    } else {
        requested
    };
    check_delay(requested, effective)?;
    Ok(Scheduler::new(effective))
}

fn default_scheduler() -> Scheduler {
    build_scheduler(ms(250)).unwrap()
}

fn race_connect(
    rt: &mut FakeRt,
    addrs_v6: Vec<IpAddr>,
    addrs_v4: Vec<IpAddr>,
    delay: u64,
) -> Result<Option<Attempted>, Error> {
    let sched = build_scheduler(ms(delay))?;
    drive_lookups(rt, sched, Lookup::addrs(addrs_v6), Lookup::addrs(addrs_v4))
}

fn outside(kind: ErrorKind, text: &str) -> Error {
    Error::new(kind, Source::Outside(text.to_string()))
}

fn resolve_errors(err: &Error) -> &ResolveErrors {
    match err.source() {
        Source::ResolveErrors(e) => e,
        other => panic!("not about the lookups: {other:?}"),
    }
}

#[test]
fn attempt_staggering_delay_is_respected_through_the_connector() {
    let mut rt = FakeRt::new(&[]);
    let out = race_connect(&mut rt, vec![v6(1), v6(2)], vec![], 100);
    assert!(out.is_err(), "both addresses are dead");
    assert_eq!(rt.log, vec![(v6(1), ms(0)), (v6(2), ms(100))]);
}

#[test]
fn families_interleave_through_the_connector() {
    let mut rt = FakeRt::new(&[]);
    let out = race_connect(
        &mut rt,
        vec![v6(1), v6(2)],
        vec![v4(1), v4(2)],
        100,
    );
    assert!(out.is_err());
    assert_eq!(rt.tried(), vec![v6(1), v4(1), v6(2), v4(2)]);
}

#[test]
fn all_attempts_failed_reports_connect_kind_with_the_launched_count() {
    let mut rt = FakeRt::new(&[]);
    let err = race_connect(&mut rt, vec![v6(1)], vec![v4(1), v4(2)], 100)
        .expect_err("all three addresses are dead");
    assert_eq!(err.kind(), &ErrorKind::Connect);
    assert!(matches!(
        err.source(),
        Source::AllAttemptsFailed(AllAttemptsFailed(3))
    ));
    assert_eq!(err.message(), "Connect: all 3 connection attempts failed");
    assert_eq!(rt.log.len(), 3);
}

#[test]
fn a_successful_attempt_short_circuits_the_remaining_race() {
    let mut rt = FakeRt::new(&[(v4(1), true)]);
    let stream = race_connect(&mut rt, vec![v6(1)], vec![v4(1)], 100);
    assert!(stream.is_ok());
}

#[test]
fn he_config_out_of_range_is_a_typed_error_not_a_silent_clamp() {
    let mut rt = FakeRt::new(&[]);
    let err = race_connect(&mut rt, vec![v6(1)], vec![], 1)
        .expect_err("an out-of-range attempt_delay must be rejected");
    assert_eq!(err.kind(), &ErrorKind::Connect);
    assert!(rt.log.is_empty());
    assert_eq!(
        err.message(),
        "Connect: attempt_delay 1ms is outside the RFC 8305 recommended range and would be \
         silently clamped to 100ms; pass a value inside the range instead"
    );
}

#[test]
fn race_connect_never_requires_send_even_through_the_wait_path() {
    let mut rt = FakeRt::new(&[(v4(1), true)]);
    let stream = race_connect(&mut rt, vec![v6(1), v6(2)], vec![v4(1)], 100);
    assert!(stream.is_ok());
    assert_eq!(rt.log.len(), 2);
}

#[test]
fn resolution_delay_is_honored_when_ipv6_is_still_pending() {
    let mut rt = FakeRt::new(&[(v4(9), true)]);
    let mut l6 = Lookup::addrs(vec![v6(9)]);
    l6.at = ms(80);
    let out = drive_lookups(&mut rt, default_scheduler(), l6, Lookup::addrs(vec![v4(9)]));
    assert!(out.is_ok(), "IPv4 must have been tried after waiting");
    assert_eq!(
        rt.log.len(),
        1,
        "AAAA only arrived at 80ms, already after IPv4 had won"
    );
    assert_eq!(rt.log[0].0, v4(9));
    assert_eq!(rt.log[0].1, ms(50));
}

#[test]
fn late_ipv6_arrival_after_resolution_delay_is_still_attempted() {
    let mut rt = FakeRt::new(&[]);
    let mut l6 = Lookup::addrs(vec![v6(7)]);
    l6.at = ms(300);
    let out = drive_lookups(&mut rt, default_scheduler(), l6, Lookup::addrs(vec![v4(7)]));
    assert!(out.is_err());
    assert_eq!(
        rt.tried(),
        vec![v4(7), v6(7)],
        "a late AAAA must be tried, not dropped"
    );
}

#[test]
fn a_resolve_error_on_one_family_surfaces_as_resolve_kind_when_nothing_else_is_found() {
    let mut rt = FakeRt::new(&[]);
    let err = drive_lookups(
        &mut rt,
        default_scheduler(),
        Lookup::of(vec![Err(outside(ErrorKind::Resolve, "dns down"))]),
        Lookup::addrs(vec![]),
    )
    .expect_err("no address arrived for either family");
    assert_eq!(
        err.kind(),
        &ErrorKind::Resolve,
        "the resolver failed: this is NOT 'all TCP attempts failed', it's 'nothing to try'"
    );
    assert!(
        rt.log.is_empty(),
        "there should not have been a single TCP attempt"
    );
}

#[test]
fn zero_addresses_without_any_resolver_error_also_surfaces_as_resolve_kind() {
    let mut rt = FakeRt::new(&[]);
    let err = drive_lookups(
        &mut rt,
        default_scheduler(),
        Lookup::addrs(vec![]),
        Lookup::addrs(vec![]),
    )
    .expect_err("both families are empty");
    assert_eq!(err.kind(), &ErrorKind::Resolve);
}

#[test]
fn a_cancelled_resolve_error_is_not_flattened_to_resolve_kind_when_nothing_launched() {
    let mut rt = FakeRt::new(&[]);
    let err = drive_lookups(
        &mut rt,
        default_scheduler(),
        Lookup::of(vec![Err(outside(ErrorKind::Cancelled, "boom"))]),
        Lookup::addrs(vec![]),
    )
    .expect_err("v6 resolver was cancelled, v4 found nothing");
    assert_eq!(err.kind(), &ErrorKind::Cancelled);
    assert!(
        rt.log.is_empty(),
        "there should not have been a single TCP attempt"
    );
}

#[test]
fn a_cancelled_resolve_error_is_not_discarded_when_the_other_family_launched_and_failed() {
    let mut rt = FakeRt::new(&[]);
    let err = drive_lookups(
        &mut rt,
        default_scheduler(),
        Lookup::of(vec![Err(outside(ErrorKind::Cancelled, "boom"))]),
        Lookup::addrs(vec![v4(1)]),
    )
    .expect_err("the single v4 address is dead");
    assert_eq!(
        err.kind(),
        &ErrorKind::Cancelled,
        "the v6 cancellation must stay visible even when v4 genuinely started and failed"
    );
    assert_eq!(
        rt.log.len(),
        1,
        "the single (dead) v4 address really was tried"
    );
}

#[test]
fn a_failed_ipv6_lookup_stays_reachable_through_the_source_chain() {
    let mut rt = FakeRt::new(&[]);
    let err = drive_lookups(
        &mut rt,
        default_scheduler(),
        Lookup::of(vec![Err(outside(ErrorKind::Resolve, "v6 lookup exploded"))]),
        Lookup::addrs(vec![]),
    )
    .expect_err("v6 failed and v4 found nothing");
    let errs = resolve_errors(&err);
    assert_eq!(
        errs.message(),
        "ipv6 lookup failed (Resolve: v6 lookup exploded); \
         ipv4 lookup returned no addresses"
    );
    let recorded = errs
        .source()
        .expect("the ipv6 failure must stay reachable, not be flattened into the message");
    assert_eq!(recorded.kind(), &ErrorKind::Resolve);
    assert_eq!(recorded.message(), "Resolve: v6 lookup exploded");
}

#[test]
fn a_failed_ipv4_lookup_stays_reachable_even_though_ipv6_recorded_nothing() {
    let mut rt = FakeRt::new(&[]);
    let err = drive_lookups(
        &mut rt,
        default_scheduler(),
        Lookup::addrs(vec![]),
        Lookup::of(vec![Err(outside(ErrorKind::Resolve, "v4 lookup exploded"))]),
    )
    .expect_err("v4 failed and v6 found nothing");
    let errs = resolve_errors(&err);
    assert_eq!(
        errs.message(),
        "ipv4 lookup failed (Resolve: v4 lookup exploded); \
         ipv6 lookup returned no addresses"
    );
    let recorded = errs
        .source()
        .expect("ipv4's failure must not vanish just because ipv6 recorded nothing");
    assert_eq!(recorded.message(), "Resolve: v4 lookup exploded");
}

#[test]
fn when_both_lookups_fail_the_message_names_both_and_the_chain_leads_to_ipv6() {
    let mut rt = FakeRt::new(&[]);
    let err = drive_lookups(
        &mut rt,
        default_scheduler(),
        Lookup::of(vec![Err(outside(ErrorKind::Resolve, "v6 lookup exploded"))]),
        Lookup::of(vec![Err(outside(ErrorKind::Resolve, "v4 lookup exploded"))]),
    )
    .expect_err("both families failed");
    let errs = resolve_errors(&err);
    assert_eq!(
        errs.message(),
        "ipv6 lookup failed (Resolve: v6 lookup exploded); \
         ipv4 lookup failed (Resolve: v4 lookup exploded)"
    );
    let recorded = errs.source().expect("both were recorded");
    assert_eq!(
        recorded.message(),
        "Resolve: v6 lookup exploded",
        "with both families recorded the chain follows the first one, ipv6"
    );
}

#[test]
fn zero_addresses_and_no_resolver_error_ends_the_chain_instead_of_inventing_a_cause() {
    let mut rt = FakeRt::new(&[]);
    let err = drive_lookups(
        &mut rt,
        default_scheduler(),
        Lookup::addrs(vec![]),
        Lookup::addrs(vec![]),
    )
    .expect_err("both families are empty");
    let errs = resolve_errors(&err);
    assert_eq!(
        errs.message(),
        "resolver returned no addresses for either address family"
    );
    assert!(
        errs.source().is_none(),
        "nothing failed: an empty answer must not acquire a fabricated cause"
    );
}

// ---------------------------------------------------------------------------
// The whole connector
// ---------------------------------------------------------------------------

struct Dns {
    v6: Lookup,
    v4: Lookup,
    records: Option<Vec<SvcbEndpoint>>,
}

impl Dns {
    fn addrs(v6s: Vec<IpAddr>, v4s: Vec<IpAddr>) -> Self {
        Dns {
            v6: Lookup::addrs(v6s),
            v4: Lookup::addrs(v4s),
            records: None,
        }
    }
}

fn record(port: Option<u16>, ipv4hint: Vec<u32>) -> SvcbEndpoint {
    SvcbEndpoint {
        priority: 1,
        target: "example.invalid".to_string(),
        alpn: Vec::new(),
        port,
        ipv4hint,
        ipv6hint: Vec::new(),
        ech_config_list: None,
    }
}

/// What a connection turned out to be: encrypted or not, and the protocols
/// offered in its handshake.
#[derive(Debug)]
struct Got {
    tls: bool,
    offered: Option<Vec<Vec<u8>>>,
    ports: Vec<u16>,
}

fn connect(
    rt: &mut FakeRt,
    mut dns: Dns,
    uri: &str,
    alpn: &[&[u8]],
    cache: &mut NegativeCache,
) -> Result<Got, Error> {
    let parts = UriParts::parse(uri).expect("a URI");
    let target = Target::of(&parts)?;
    let (mut a6, mut a4) = (Answers::new(), Answers::new());
    let (mut c, mut action) = Connect::begin(
        target,
        alpn.iter().map(|p| p.to_vec()).collect(),
        false,
        None,
        None,
        false,
        Prefetched::NotConsulted,
        dns.records.is_some(),
        cache,
        ms(0),
    );
    let mut got = Got {
        tls: false,
        offered: None,
        ports: Vec::new(),
    };
    loop {
        action = match action {
            Action::AskRecord => {
                let records = dns.records.take().expect("records are asked for once");
                c.record(records.into_iter().map(Answer::Https).collect())
            }
            Action::Race { port, hint6, hint4 } => {
                got.ports.push(port);
                let out = drive(
                    rt,
                    default_scheduler(),
                    &mut Reader {
                        replay: Replay::new(hint6.into_iter().map(IpAddr::V6).collect()),
                        answers: &mut a6,
                        lookup: &mut dns.v6,
                    },
                    &mut Reader {
                        replay: Replay::new(hint4.into_iter().map(IpAddr::V4).collect()),
                        answers: &mut a4,
                        lookup: &mut dns.v4,
                    },
                    port,
                );
                c.raced(out.map(|_| ()), cache)
            }
            Action::Secure(req) => {
                got.offered = Some(req.alpn);
                c.secured(Ok(()), cache)
            }
            Action::Ready { tls } => {
                got.tls = tls;
                assert_eq!(dns.v4.asked, a4.seen.len() + usize::from(a4.done));
                return Ok(got);
            }
            Action::Fail(e) => return Err(e),
            other => panic!("not on this way: {other:?}"),
        };
    }
}

#[test]
fn a_failed_discovered_endpoint_is_retried_without_the_record() {
    let hint = 0x0a00_0007;
    let origin = v4(1);
    let mut dns = Dns::addrs(vec![], vec![origin]);
    dns.records = Some(vec![record(None, vec![hint])]);
    let mut rt = FakeRt::new(&[]);
    let mut cache = NegativeCache::default();
    let _ = connect(&mut rt, dns, "https://example.invalid/", &[], &mut cache)
        .expect_err("nothing answers");
    assert_eq!(
        rt.tried(),
        vec![IpAddr::V4(hint), origin, origin],
        "the hint, then the origin, then the origin again without the record"
    );
    assert!(cache.suppressed(&Origin::new("EXAMPLE.invalid", 443), ms(299_999)));
    assert!(!cache.suppressed(&Origin::new("example.invalid", 443), ms(300_000)));
}

#[test]
fn a_record_that_sets_nothing_does_not_buy_a_second_race() {
    let origin = v4(1);
    let mut dns = Dns::addrs(vec![], vec![origin]);
    dns.records = Some(vec![record(None, Vec::new())]);
    let mut rt = FakeRt::new(&[]);
    let mut cache = NegativeCache::default();
    let _ = connect(&mut rt, dns, "https://example.invalid/", &[], &mut cache)
        .expect_err("nothing answers");
    assert_eq!(rt.tried(), vec![origin], "an inert record is not an endpoint");
    assert!(!cache.suppressed(&Origin::new("example.invalid", 443), ms(0)));
}

#[test]
fn the_retry_without_the_record_does_not_resolve_again() {
    let hint = 0x0a00_0007;
    let origin = v4(1);
    let mut dns = Dns::addrs(vec![], vec![origin]);
    dns.records = Some(vec![record(Some(8443), vec![hint])]);
    let mut rt = FakeRt::new(&[]);
    let mut cache = NegativeCache::default();
    let parts = UriParts::parse("https://example.invalid/").unwrap();
    let (mut a6, mut a4) = (Answers::new(), Answers::new());
    let (mut c, action) = Connect::begin(
        Target::of(&parts).unwrap(),
        Vec::new(),
        false,
        None,
        None,
        false,
        Prefetched::NotConsulted,
        true,
        &mut cache,
        ms(0),
    );
    assert!(matches!(action, Action::AskRecord));
    let answers = dns.records.take().unwrap();
    let mut action = c.record(answers.into_iter().map(Answer::Https).collect());
    let mut ports = Vec::new();
    while let Action::Race { port, hint6, hint4 } = action {
        ports.push(port);
        let out = drive(
            &mut rt,
            default_scheduler(),
            &mut Reader {
                replay: Replay::new(hint6.into_iter().map(IpAddr::V6).collect()),
                answers: &mut a6,
                lookup: &mut dns.v6,
            },
            &mut Reader {
                replay: Replay::new(hint4.into_iter().map(IpAddr::V4).collect()),
                answers: &mut a4,
                lookup: &mut dns.v4,
            },
            port,
        );
        action = c.raced(out.map(|_| ()), &mut cache);
    }
    assert!(matches!(action, Action::Fail(_)));
    assert_eq!(
        rt.tried(),
        vec![IpAddr::V4(hint), origin, origin],
        "the record's endpoint failed and the origin's own was tried again"
    );
    assert_eq!(ports, vec![8443, 443]);
    assert_eq!(dns.v4.asked, 2, "one address and the end, once");
    assert_eq!(dns.v6.asked, 1, "the end, once");
}

#[test]
fn connect_returns_success_via_the_wait_branch_not_only_via_exhausted() {
    let live = IpAddr::V4(0x7f00_0001);
    let mut rt = FakeRt::new(&[(live, true)]);
    let got = connect(
        &mut rt,
        Dns::addrs(vec![v6(1), v6(2)], vec![live]),
        "http://example.invalid:4242/",
        &[],
        &mut NegativeCache::default(),
    )
    .expect("the v4 address must win the race");
    assert!(!got.tls);
    assert_eq!(got.ports, vec![4242]);
    assert_eq!(
        rt.log.len(),
        2,
        "v6(1) (dead), then a live v4; v6(2) never started"
    );
}

#[test]
fn connect_uses_plain_for_http_and_reports_no_tls_info() {
    let live = IpAddr::V4(0x7f00_0001);
    let mut rt = FakeRt::new(&[(live, true)]);
    let got = connect(
        &mut rt,
        Dns::addrs(vec![], vec![live]),
        "http://example.invalid:4242/",
        &[],
        &mut NegativeCache::default(),
    )
    .expect("connect");
    assert!(!got.tls);
    assert!(got.offered.is_none());
}

#[test]
fn connect_uses_tls_for_https_and_returns_tls_info() {
    let live = IpAddr::V4(0x7f00_0001);
    let mut rt = FakeRt::new(&[(live, true)]);
    let got = connect(
        &mut rt,
        Dns::addrs(vec![], vec![live]),
        "https://example.invalid:4242/",
        &[b"h2"],
        &mut NegativeCache::default(),
    )
    .expect("connect");
    assert!(got.tls);
    assert_eq!(got.offered, Some(vec![b"h2".to_vec()]));
}

#[test]
fn connect_rejects_an_unsupported_scheme() {
    let err = connect(
        &mut FakeRt::new(&[]),
        Dns::addrs(vec![], vec![]),
        "ftp://example.invalid/",
        &[],
        &mut NegativeCache::default(),
    )
    .expect_err("ftp isn't supported");
    assert_eq!(err.kind(), &ErrorKind::Unsupported);
    assert_eq!(
        err.message(),
        "Unsupported: unsupported URI scheme: \"ftp\""
    );
}

#[test]
fn connect_defaults_the_port_from_the_scheme_when_absent() {
    let addr = IpAddr::V4(0xcb00_7101);
    let mut rt = FakeRt::new(&[(addr, true)]);
    let got = connect(
        &mut rt,
        Dns::addrs(vec![], vec![addr]),
        "https://example.invalid/",
        &[],
        &mut NegativeCache::default(),
    )
    .expect("it answers");
    assert_eq!(rt.log.len(), 1);
    assert_eq!(rt.log[0].0, addr);
    assert_eq!(got.ports, vec![443]);
    let mut rt = FakeRt::new(&[(addr, true)]);
    let got = connect(
        &mut rt,
        Dns::addrs(vec![], vec![addr]),
        "http://example.invalid/",
        &[],
        &mut NegativeCache::default(),
    )
    .expect("it answers");
    assert_eq!(got.ports, vec![80]);
}

#[test]
fn connect_rejects_a_uri_without_a_host() {
    let err = connect(
        &mut FakeRt::new(&[]),
        Dns::addrs(vec![], vec![]),
        "/just/a/path",
        &[],
        &mut NegativeCache::default(),
    )
    .expect_err("no host: nowhere to connect to");
    assert_eq!(err.kind(), &ErrorKind::Connect);
    assert_eq!(
        err.message(),
        "Connect: request URI has no host to connect to"
    );
}

// ---------------------------------------------------------------------------
// The other ways
// ---------------------------------------------------------------------------

fn target(host: &str, use_tls: bool, port: u16) -> Target {
    Target {
        host: host.to_string(),
        use_tls,
        port,
    }
}

fn begin(
    t: Target,
    unix: bool,
    proxy: Option<ProxyRoute>,
    resolve: Option<Duration>,
    found: Prefetched,
    cache: &mut NegativeCache,
) -> (Connect, Action) {
    Connect::begin(
        t,
        vec![b"h2".to_vec(), b"http/1.1".to_vec()],
        unix,
        proxy,
        resolve,
        true,
        found,
        true,
        cache,
        ms(0),
    )
}

fn tunnel_proxy() -> Option<ProxyRoute> {
    Some(ProxyRoute {
        port: 3128,
        approach: Approach::Tunnel,
    })
}

#[test]
fn a_unix_socket_comes_before_everything() {
    let mut cache = NegativeCache::default();
    let (mut c, a) = begin(
        target("[::1]", true, 443),
        true,
        tunnel_proxy(),
        None,
        Prefetched::NotConsulted,
        &mut cache,
    );
    assert!(matches!(a, Action::DialUnix));
    match c.dialed(Ok(())) {
        Action::Secure(r) => {
            assert_eq!(r.server_name, "::1", "without the brackets");
            assert_eq!(r.alpn.len(), 2);
            assert!(r.ech.is_none());
        }
        other => panic!("{other:?}"),
    }
    assert!(matches!(
        c.secured(Ok(()), &mut cache),
        Action::Ready { tls: true }
    ));
    let (mut c, _) = begin(
        target("h", false, 80),
        true,
        None,
        None,
        Prefetched::NotConsulted,
        &mut cache,
    );
    match c.dialed(Err("no such file".to_string())) {
        Action::Fail(e) => assert_eq!(e.message(), "Connect: no such file"),
        other => panic!("{other:?}"),
    }
}

#[test]
fn a_tunnel_carries_the_handshake_with_the_origin() {
    let mut cache = NegativeCache::default();
    let (mut c, a) = begin(
        target("example.com", true, 443),
        false,
        tunnel_proxy(),
        None,
        Prefetched::NotConsulted,
        &mut cache,
    );
    assert!(matches!(a, Action::RaceProxy { port: 3128 }));
    assert!(matches!(c.raced(Ok(()), &mut cache), Action::Tunnel));
    match c.tunnelled(Ok(0)) {
        Action::Secure(r) => assert_eq!(r.server_name, "example.com"),
        other => panic!("{other:?}"),
    }
}

#[test]
fn a_proxy_that_spoke_first_is_refused() {
    let mut cache = NegativeCache::default();
    let (mut c, _) = begin(
        target("example.com", true, 443),
        false,
        tunnel_proxy(),
        None,
        Prefetched::NotConsulted,
        &mut cache,
    );
    let _ = c.raced(Ok(()), &mut cache);
    match c.tunnelled(Ok(5)) {
        Action::Fail(e) => {
            assert_eq!(e.kind(), &ErrorKind::Connect);
            assert!(matches!(
                e.source(),
                Source::ProxySpokeFirst(ProxySpokeFirst(5))
            ));
            assert_eq!(
                e.message(),
                "Connect: the proxy sent 5 bytes past its own handshake, before anything was \
                 sent to the origin"
            );
        }
        other => panic!("{other:?}"),
    }
}

#[test]
fn a_proxy_that_takes_the_whole_request_needs_no_tunnel() {
    let mut cache = NegativeCache::default();
    let (mut c, _) = begin(
        target("example.com", false, 80),
        false,
        Some(ProxyRoute {
            port: 8080,
            approach: Approach::Absolute,
        }),
        None,
        Prefetched::NotConsulted,
        &mut cache,
    );
    assert!(matches!(
        c.raced(Ok(()), &mut cache),
        Action::Ready { tls: false }
    ));
    let (mut c, _) = begin(
        target("example.com", false, 80),
        false,
        tunnel_proxy(),
        None,
        Prefetched::NotConsulted,
        &mut cache,
    );
    let e = outside(ErrorKind::Connect, "refused");
    assert!(matches!(c.raced(Err(e), &mut cache), Action::Fail(_)));
}

#[test]
fn a_record_is_asked_for_at_the_default_port_of_https_only() {
    let mut cache = NegativeCache::default();
    for (t, asks) in [
        (target("h", true, 443), true),
        (target("h", true, 8443), false),
        (target("h", false, 443), false),
    ] {
        let (_, a) = begin(t, false, None, None, Prefetched::NotConsulted, &mut cache);
        assert_eq!(matches!(a, Action::AskRecord), asks);
    }
    cache.record(Origin::new("h", 443), ms(0));
    let (_, a) = begin(
        target("H", true, 443),
        false,
        None,
        None,
        Prefetched::NotConsulted,
        &mut cache,
    );
    assert!(matches!(a, Action::Race { port: 443, .. }));
}

#[test]
fn a_record_brings_its_port_its_protocols_and_its_configuration() {
    let mut cache = NegativeCache::default();
    let mut r = record(Some(8443), vec![7]);
    r.alpn = vec![b"h2".to_vec(), b"h3".to_vec()];
    r.ech_config_list = Some(vec![1, 2]);
    let (mut c, a) = begin(
        target("h", true, 443),
        false,
        None,
        Some(ms(5)),
        Prefetched::Looked(hclient_native::discovery::lookup(vec![Answer::Https(r)])),
        &mut cache,
    );
    match a {
        Action::Race { port, hint6, hint4 } => {
            assert_eq!((port, hint6.len(), hint4), (8443, 0, vec![7]));
        }
        other => panic!("{other:?}"),
    }
    match c.raced(Ok(()), &mut cache) {
        Action::Secure(r) => {
            assert_eq!(r.alpn, vec![b"h2".to_vec(), b"http/1.1".to_vec()]);
            assert_eq!(r.ech, Some(vec![1, 2]));
        }
        other => panic!("{other:?}"),
    }
    let e = outside(ErrorKind::Tls, "bad certificate");
    assert!(matches!(
        c.secured(Err(e), &mut cache),
        Action::Race { port: 443, .. }
    ));
    match c.raced(Ok(()), &mut cache) {
        Action::Secure(r) => assert!(r.ech.is_none()),
        other => panic!("{other:?}"),
    }
    let e = outside(ErrorKind::Tls, "still bad");
    match c.secured(Err(e), &mut cache) {
        Action::Fail(e) => assert_eq!(e.message(), "Tls: still bad"),
        other => panic!("{other:?}"),
    }
}

#[test]
fn a_bound_on_the_lookup_counts_only_without_an_address() {
    let mut cache = NegativeCache::default();
    let (mut c, a) = begin(
        target("h", false, 80),
        false,
        None,
        Some(ms(5)),
        Prefetched::NotConsulted,
        &mut cache,
    );
    assert!(matches!(a, Action::AwaitAddress(d) if d == ms(5)));
    let (mut a6, mut a4) = (Answers::new(), Answers::new());
    assert!(first_address(&a6, &a4, ms(5), false).is_none());
    a6.arrived(Some(Err(outside(ErrorKind::Resolve, "no"))));
    a6.arrived(None);
    assert!(
        first_address(&a6, &a4, ms(5), false).is_none(),
        "a failure is no address"
    );
    let e = match first_address(&a6, &a4, ms(5), true) {
        Some(Err(e)) => e,
        other => panic!("{other:?}"),
    };
    assert_eq!(e.kind(), &ErrorKind::Timeout(Phase::Resolve));
    assert!(matches!(e.source(), Source::ResolveTimedOut(ResolveTimedOut(d)) if *d == ms(5)));
    assert_eq!(
        e.message(),
        "Timeout(Resolve): no address from the resolver within the resolve timeout of 5ms"
    );
    a4.arrived(Some(Ok(ResolvedAddr {
        addr: v4(1),
        ttl: None,
    })));
    assert!(
        matches!(first_address(&a6, &a4, ms(5), true), Some(Ok(()))),
        "an address that is there beats the bound"
    );
    assert!(matches!(c.address(Ok(())), Action::Race { port: 80, .. }));
}

#[test]
fn both_lookups_over_end_the_wait() {
    let (mut a6, mut a4) = (Answers::new(), Answers::new());
    a6.arrived(None);
    assert!(first_address(&a6, &a4, ms(5), false).is_none());
    a4.arrived(None);
    assert!(matches!(
        first_address(&a6, &a4, ms(5), true),
        Some(Ok(()))
    ));
}

#[test]
fn the_winner_is_reported_to_whoever_watches() {
    let mut rt = FakeRt::new(&[(v6(1), true)]);
    let won = race_connect(&mut rt, vec![v6(1)], vec![], 100)
        .unwrap()
        .expect("somebody watches");
    assert_eq!(won.remote.unwrap().ip, v6(1));
    assert_eq!(won.remote.unwrap().port, 81);
    assert_eq!(won.tls, None);
    let (mut race, _) = Race::start(81, false);
    let _ = race.step(Event::Scheduled {
        action: HeAction::Start(v6(1)),
        since_began: ms(3),
    });
    assert!(matches!(
        race.step(Event::AttemptWon {
            remote: won.remote.unwrap(),
            took: ms(1)
        }),
        race::Action::Won(None)
    ));
}
