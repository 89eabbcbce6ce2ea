//! From a target to a connection that can carry a request, as a machine that
//! is told what happened and says what to do.
//!
//! A Unix socket comes before a proxy, and a proxy before the origin's own
//! addresses. Only the last of these looks at the origin's HTTPS record, and
//! a connection that fails under a record is tried once more without it.

use std::sync::Arc;

use vstd::prelude::*;
use vstd::string::*;

use crate::altsvc::{origin_of, Origin, OriginView};
use crate::discovery::{
    alpn_offer, best_record, effective, failed, inert, left_alone, lookup, names, offer_of,
    opt_endpoint, opt_octets, slices, to_act_on, Answer, Endpoint, EndpointView, NegativeCache,
    Prefetched,
};
use crate::error::{Error, ErrorKind, Phase, ProxySpokeFirst, Source};
use crate::net::IpAddr;
use crate::time::Duration;
use crate::uri::{bare, bare_host, Target, HTTPS_DEFAULT_PORT};

pub use crate::error::ResolveTimedOut;

verus! {

/// A connection, in the clear or encrypted.
#[derive(Debug)]
pub enum Conn<P, T> {
    Plain(P),
    Tls(T),
}

// ---------------------------------------------------------------------------
// What the address lookups answered
// ---------------------------------------------------------------------------

/// One address that a lookup found.
#[derive(Debug, Clone, Copy, PartialEq, Eq, Structural)]
pub struct ResolvedAddr {
    pub addr: IpAddr,
    pub ttl: Option<Duration>,
}

/// Another one of the same.
fn copy_found(r: &Result<ResolvedAddr, Error>) -> (c: Result<ResolvedAddr, Error>)
    ensures
        c == *r,
{
    match r {
        Ok(a) => Ok(*a),
        Err(e) => Err(e.copy()),
    }
}

/// Everything a lookup has answered so far, kept so that a second attempt need
/// not ask again.
#[derive(Debug)]
pub struct Answers {
    pub seen: Vec<Result<ResolvedAddr, Error>>,
    /// No more will come.
    pub done: bool,
}

/// Whether some address was found.
pub open spec fn any_address(seen: Seq<Result<ResolvedAddr, Error>>) -> bool {
    exists|i: int| 0 <= i < seen.len() && #[trigger] seen[i] is Ok
}

impl Answers {
    /// A lookup that has not answered.
    pub fn new() -> (r: Self)
        ensures
            r.seen@.len() == 0,
            !r.done,
    {
        Answers { seen: Vec::new(), done: false }
    }

    /// The lookup answered, or is over.
    pub fn arrived(&mut self, item: Option<Result<ResolvedAddr, Error>>)
        ensures
            match item {
                Some(a) => final(self).seen@ == old(self).seen@.push(a) && final(self).done
                    == old(self).done,
                None => final(self).seen@ == old(self).seen@ && final(self).done,
            },
    {
        match item {
            Some(a) => {
                self.seen.push(a);
            },
            None => {
                self.done = true;
            },
        }
    }

    /// Whether some address was found.
    pub fn any(&self) -> (r: bool)
        ensures
            r == any_address(self.seen@),
    {
        let mut i: usize = 0;
        while i < self.seen.len()
            invariant
                i <= self.seen@.len(),
                forall|j: int| 0 <= j < i ==> !(#[trigger] self.seen@[j] is Ok),
            decreases self.seen@.len() - i,
        {
            if self.seen[i].is_ok() {
                return true;
            }
            i = i + 1;
        }
        false
    }
}

/// One attempt's reading of a lookup: first the addresses that a record
/// hinted at, then everything that was seen, then what is new.
#[derive(Debug)]
pub struct Replay {
    pub hints: Vec<IpAddr>,
    /// How many hints were handed out.
    pub hinted: usize,
    /// How many answers were handed out.
    pub at: usize,
}

/// Hints as what a lookup would have found.
pub open spec fn as_found(hints: Seq<IpAddr>) -> Seq<Result<ResolvedAddr, Error>> {
    hints.map_values(|a: IpAddr| Ok::<ResolvedAddr, Error>(ResolvedAddr { addr: a, ttl: None }))
}

/// What an attempt reads next.
#[derive(Debug)]
pub enum Reading {
    /// This, which may be a failure.
    Item(Result<ResolvedAddr, Error>),
    /// Nothing more.
    End,
    /// Whatever the lookup answers next; see [`Replay::fresh`].
    Poll,
}

impl Replay {
    /// No more was handed out than there is, and answers only once the hints
    /// were.
    pub open spec fn wf(self, src: Answers) -> bool {
        &&& self.hinted <= self.hints@.len()
        &&& self.at <= src.seen@.len()
        &&& self.at > 0 ==> self.hinted == self.hints@.len()
    }

    /// Everything that was handed out so far.
    pub open spec fn handed(self, src: Answers) -> Seq<Result<ResolvedAddr, Error>> {
        as_found(self.hints@.take(self.hinted as int)) + src.seen@.take(self.at as int)
    }

    /// A reading from the beginning.
    pub fn new(hints: Vec<IpAddr>) -> (r: Self)
        ensures
            r == (Replay { hints, hinted: 0, at: 0 }),
            forall|src: Answers| r.wf(src),
    {
        Replay { hints, hinted: 0, at: 0 }
    }

    /// What comes next.
    pub fn next(&mut self, src: &Answers) -> (r: Reading)
        requires
            old(self).wf(*src),
        ensures
            final(self).wf(*src),
            final(self).hints == old(self).hints,
            if old(self).hinted < old(self).hints@.len() {
                &&& r == Reading::Item(
                    Ok(ResolvedAddr { addr: old(self).hints@[old(self).hinted as int], ttl: None }),
                )
                &&& final(self).hinted == old(self).hinted + 1
                &&& final(self).at == old(self).at
            } else if old(self).at < src.seen@.len() {
                &&& r == Reading::Item(src.seen@[old(self).at as int])
                &&& final(self).hinted == old(self).hinted
                &&& final(self).at == old(self).at + 1
            } else {
                &&& r == if src.done {
                    Reading::End
                } else {
                    Reading::Poll
                }
                &&& *final(self) == *old(self)
            },
            match r {
                Reading::Item(item) => final(self).handed(*src) == old(self).handed(*src).push(
                    item,
                ),
                _ => final(self).handed(*src) == as_found(old(self).hints@) + src.seen@,
            },
    {
        proof {
            lemma_handed(*self, *src);
        }
        if self.hinted < self.hints.len() {
            let addr = self.hints[self.hinted];
            self.hinted = self.hinted + 1;
            return Reading::Item(Ok(ResolvedAddr { addr, ttl: None }));
        }
        if self.at < src.seen.len() {
            let item = copy_found(&src.seen[self.at]);
            self.at = self.at + 1;
            return Reading::Item(item);
        }
        if src.done {
            Reading::End
        } else {
            Reading::Poll
        }
    }

    /// The lookup answered, or is over: the answer is kept for later
    /// readings and handed on.
    pub fn fresh(
        &mut self,
        src: &mut Answers,
        item: Option<Result<ResolvedAddr, Error>>,
    ) -> (r: Option<Result<ResolvedAddr, Error>>)
        requires
            old(self).wf(*old(src)),
            old(self).hinted == old(self).hints@.len(),
            old(self).at == old(src).seen@.len(),
        ensures
            final(self).wf(*final(src)),
            r == item,
            final(self).hints == old(self).hints,
            final(self).hinted == old(self).hinted,
            match item {
                Some(a) => final(src).seen@ == old(src).seen@.push(a) && final(src).done
                    == old(src).done && final(self).at == final(src).seen@.len(),
                None => final(src).seen@ == old(src).seen@ && final(src).done && final(self).at
                    == old(self).at,
            },
    {
        match item {
            Some(a) => {
                src.seen.push(copy_found(&a));
                self.at = src.seen.len();
                Some(a)
            },
            None => {
                src.done = true;
                None
            },
        }
    }
}

/// What is handed out next, and what was once there is nothing to hand out.
proof fn lemma_handed(reading: Replay, src: Answers)
    requires
        reading.wf(src),
    ensures
        reading.hinted < reading.hints@.len() ==> as_found(reading.hints@.take(reading.hinted + 1))
            + src.seen@.take(reading.at as int) == reading.handed(src).push(
            Ok(ResolvedAddr { addr: reading.hints@[reading.hinted as int], ttl: None }),
        ),
        reading.hinted == reading.hints@.len() && reading.at < src.seen@.len() ==> as_found(
            reading.hints@.take(reading.hinted as int),
        ) + src.seen@.take(reading.at + 1) == reading.handed(src).push(
            src.seen@[reading.at as int],
        ),
        reading.hinted == reading.hints@.len() && reading.at == src.seen@.len() ==> reading.handed(
            src,
        ) == as_found(reading.hints@) + src.seen@,
{
    let h = reading.hints@;
    let n = reading.hinted as int;
    let k = reading.at as int;
    if n < h.len() {
        assert(k == 0);
        assert(src.seen@.take(0) =~= Seq::<Result<ResolvedAddr, Error>>::empty());
        assert(as_found(h.take(n + 1)) + src.seen@.take(0) =~= (as_found(h.take(n))
            + src.seen@.take(0)).push(Ok(ResolvedAddr { addr: h[n], ttl: None })));
    } else if k < src.seen@.len() {
        assert(as_found(h.take(n)) + src.seen@.take(k + 1) =~= (as_found(h.take(n))
            + src.seen@.take(k)).push(src.seen@[k]));
    } else {
        assert(h.take(n) =~= h);
        assert(src.seen@.take(k) =~= src.seen@);
    }
}

// ---------------------------------------------------------------------------
// Waiting for the first address
// ---------------------------------------------------------------------------

/// What the wait for a first address comes to.
pub open spec fn wait_over(v6: Answers, v4: Answers, bound: Duration, elapsed: bool) -> Option<
    Result<(), Error>,
> {
    if any_address(v6.seen@) || any_address(v4.seen@) || (v6.done && v4.done) {
        Some(Ok(()))
    } else if elapsed {
        Some(
            Err(
                Error {
                    kind: ErrorKind::Timeout(Phase::Resolve),
                    source: Arc::new(Source::ResolveTimedOut(ResolveTimedOut(bound))),
                },
            ),
        )
    } else {
        None
    }
}

/// Whether a record already says where to go.
pub open spec fn hinted(endpoint: Option<EndpointView>) -> bool {
    endpoint matches Some(e) && (e.ipv6hint.len() > 0 || e.ipv4hint.len() > 0)
}

/// What the wait for a first address has come to, while it is on: an address
/// from either lookup ends it, and so does the end of both; only then does
/// the bound count.
pub fn first_address(v6: &Answers, v4: &Answers, bound: Duration, elapsed: bool) -> (r: Option<
    Result<(), Error>,
>)
    ensures
        r == wait_over(*v6, *v4, bound, elapsed),
{
    if v6.any() || v4.any() || (v6.done && v4.done) {
        return Some(Ok(()));
    }
    if elapsed {
        return Some(
            Err(
                Error::new(
                    ErrorKind::Timeout(Phase::Resolve),
                    Source::ResolveTimedOut(ResolveTimedOut(bound)),
                ),
            ),
        );
    }
    None
}

// ---------------------------------------------------------------------------
// The machine
// ---------------------------------------------------------------------------

/// How a proxy is spoken to.
#[derive(Debug, Clone, Copy, PartialEq, Eq, Structural)]
pub enum Approach {
    /// The whole request goes to the proxy, with the absolute URI.
    Absolute,
    /// The proxy opens a tunnel to the origin first.
    Tunnel,
}

/// The proxy that was chosen for a target.
#[derive(Debug, Clone, Copy, PartialEq, Eq, Structural)]
pub struct ProxyRoute {
    /// The proxy's own port.
    pub port: u16,
    pub approach: Approach,
}

/// What a connection is waiting for.
#[derive(Debug, Clone, Copy, PartialEq, Eq, Structural)]
pub enum Stage {
    /// The Unix socket.
    Unix,
    /// The race to the proxy.
    ProxyRace,
    /// The tunnel through it.
    ProxyTunnel,
    /// The origin's record.
    Record,
    /// A first address.
    Address,
    /// The race to the origin, under its record where there is one to act on.
    First,
    /// The race to the origin once the record has failed.
    Second,
    /// The handshake on what was reached, and whether a record is at stake.
    Handshake(bool),
    /// Nothing.
    Over,
}

/// A connection being made.
#[derive(Debug)]
pub struct Connect {
    target: Target,
    alpn: Vec<Vec<u8>>,
    resolve: Option<Duration>,
    applies_ech: bool,
    proxy: Option<ProxyRoute>,
    now: Duration,
    endpoint: Option<Endpoint>,
    stage: Stage,
}

/// A [`Connect`] as a mathematical value.
#[verifier::ext_equal]
pub struct ConnectView {
    /// Where the connection goes.
    pub host: Seq<char>,
    pub use_tls: bool,
    pub port: u16,
    /// What is offered where no record says otherwise.
    pub alpn: Seq<Seq<u8>>,
    /// The bound on the wait for a first address.
    pub resolve: Option<Duration>,
    /// Whether the TLS backend uses a record's configuration.
    pub applies_ech: bool,
    pub proxy: Option<ProxyRoute>,
    /// When the request started.
    pub now: Duration,
    /// The record acted on.
    pub endpoint: Option<EndpointView>,
    pub stage: Stage,
}

impl View for Connect {
    type V = ConnectView;

    closed spec fn view(&self) -> ConnectView {
        ConnectView {
            host: self.target.host@,
            use_tls: self.target.use_tls,
            port: self.target.port,
            alpn: names(self.alpn@),
            resolve: self.resolve,
            applies_ech: self.applies_ech,
            proxy: self.proxy,
            now: self.now,
            endpoint: opt_endpoint(self.endpoint),
            stage: self.stage,
        }
    }
}

/// What a handshake is asked for.
#[derive(Debug)]
pub struct TlsRequest {
    pub server_name: String,
    pub alpn: Vec<Vec<u8>>,
    pub ech: Option<Vec<u8>>,
}

/// What to do next.
#[derive(Debug)]
pub enum Action {
    /// Connect to the Unix socket.
    DialUnix,
    /// Look the proxy's name up and race to its addresses at this port.
    RaceProxy { port: u16 },
    /// Open a tunnel to the target through the proxy.
    Tunnel,
    /// Ask for the origin's record while its addresses are looked up.
    AskRecord,
    /// Wait for a first address, no longer than this.
    AwaitAddress(Duration),
    /// Race to the origin's addresses at this port, these first.
    Race { port: u16, hint6: Vec<u128>, hint4: Vec<u32> },
    /// Start a handshake on what was reached.
    Secure(TlsRequest),
    /// The connection is there, encrypted or not.
    Ready { tls: bool },
    /// There will be none.
    Fail(Error),
}

/// An [`Action`] as a mathematical value.
pub enum ActionView {
    DialUnix,
    RaceProxy { port: u16 },
    Tunnel,
    AskRecord,
    AwaitAddress(Duration),
    Race { port: u16, hint6: Seq<u128>, hint4: Seq<u32> },
    Secure { server_name: Seq<char>, alpn: Seq<Seq<u8>>, ech: Option<Seq<u8>> },
    Ready { tls: bool },
    Fail(Error),
}

impl View for Action {
    type V = ActionView;

    open spec fn view(&self) -> ActionView {
        match *self {
            Action::DialUnix => ActionView::DialUnix,
            Action::RaceProxy { port } => ActionView::RaceProxy { port },
            Action::Tunnel => ActionView::Tunnel,
            Action::AskRecord => ActionView::AskRecord,
            Action::AwaitAddress(d) => ActionView::AwaitAddress(d),
            Action::Race { port, hint6, hint4 } => ActionView::Race {
                port,
                hint6: hint6@,
                hint4: hint4@,
            },
            Action::Secure(r) => ActionView::Secure {
                server_name: r.server_name@,
                alpn: names(r.alpn@),
                ech: opt_octets(r.ech),
            },
            Action::Ready { tls } => ActionView::Ready { tls },
            Action::Fail(e) => ActionView::Fail(e),
        }
    }
}

/// Whether the origin's record is asked for: only of an `https` origin at the
/// default port, only where no connection under it failed lately, and only of
/// a resolver that can ask.
pub open spec fn asks_for_record(
    origin: OriginView,
    use_tls: bool,
    failures: Map<OriginView, Duration>,
    supported: bool,
    now: Duration,
) -> bool {
    use_tls && origin.port == HTTPS_DEFAULT_PORT && !left_alone(failures, origin, now) && supported
}

/// What is remembered of failed records once that was decided.
pub open spec fn after_asking(
    origin: OriginView,
    use_tls: bool,
    failures: Map<OriginView, Duration>,
    now: Duration,
) -> Map<OriginView, Duration> {
    if use_tls && origin.port == HTTPS_DEFAULT_PORT && !left_alone(failures, origin, now) {
        failures.remove(origin)
    } else {
        failures
    }
}

/// Whether the origin's record is to be asked for.
pub fn wants_record(
    host: &str,
    use_tls: bool,
    port: u16,
    cache: &mut NegativeCache,
    supported: bool,
    now: Duration,
) -> (r: bool)
    requires
        old(cache).wf(),
    ensures
        final(cache).wf(),
        r == asks_for_record(origin_of(host@, port), use_tls, old(cache)@, supported, now),
        final(cache)@ == after_asking(origin_of(host@, port), use_tls, old(cache)@, now),
{
    if !use_tls || port != HTTPS_DEFAULT_PORT {
        return false;
    }
    if cache.suppressed(&Origin::new(host, port), now) {
        return false;
    }
    supported
}

/// The handshake that is asked for: with the origin's name, whatever lies
/// between, and with what the record allows and brings where one is acted on.
pub open spec fn secured_by(c: ConnectView) -> ActionView {
    ActionView::Secure {
        server_name: bare(c.host),
        alpn: match c.endpoint {
            Some(e) => offer_of(c.alpn, e.alpn),
            None => c.alpn,
        },
        ech: match c.endpoint {
            Some(e) => if c.applies_ech {
                e.ech
            } else {
                None
            },
            None => None,
        },
    }
}

/// What follows once there is something to speak on.
pub open spec fn reached(c: ConnectView) -> (ConnectView, ActionView) {
    if c.use_tls {
        (
            ConnectView { stage: Stage::Handshake(c.endpoint is Some), ..c },
            secured_by(c),
        )
    } else {
        (ConnectView { stage: Stage::Over, ..c }, ActionView::Ready { tls: false })
    }
}

/// The race to the origin under a record, or without one.
pub open spec fn first_race(c: ConnectView) -> (ConnectView, ActionView) {
    (
        ConnectView { stage: Stage::First, ..c },
        match c.endpoint {
            Some(e) => ActionView::Race {
                port: match e.port {
                    Some(p) => p,
                    None => c.port,
                },
                hint6: e.ipv6hint,
                hint4: e.ipv4hint,
            },
            None => ActionView::Race { port: c.port, hint6: Seq::empty(), hint4: Seq::empty() },
        },
    )
}

/// What follows once the record, or that there is none to act on, is known.
pub open spec fn known(c: ConnectView) -> (ConnectView, ActionView) {
    match c.resolve {
        Some(bound) => if hinted(c.endpoint) {
            first_race(c)
        } else {
            (ConnectView { stage: Stage::Address, ..c }, ActionView::AwaitAddress(bound))
        },
        None => first_race(c),
    }
}

/// What follows a failed attempt: once more without the record where one was
/// acted on, else the failure.
pub open spec fn missed(c: ConnectView, e: Error) -> (ConnectView, ActionView) {
    if c.endpoint is Some {
        (
            ConnectView { endpoint: None, stage: Stage::Second, ..c },
            ActionView::Race { port: c.port, hint6: Seq::empty(), hint4: Seq::empty() },
        )
    } else {
        (ConnectView { stage: Stage::Over, ..c }, ActionView::Fail(e))
    }
}

/// Whether a proxy was raced to through which a tunnel is to be opened.
pub open spec fn tunnels(c: ConnectView) -> bool {
    c.stage == Stage::ProxyRace && c.proxy is Some && (c.proxy->0).approach == Approach::Tunnel
}

/// What follows a race that was won.
pub open spec fn won(c: ConnectView) -> (ConnectView, ActionView) {
    if tunnels(c) {
        (ConnectView { stage: Stage::ProxyTunnel, ..c }, ActionView::Tunnel)
    } else {
        reached(c)
    }
}

/// What follows once the tunnel is open, with so many octets beyond its
/// handshake.
pub open spec fn opened(c: ConnectView, beyond: usize) -> (ConnectView, ActionView) {
    if beyond == 0 {
        reached(c)
    } else {
        given_up(c, spoke_first(beyond))
    }
}

/// What follows a handshake that was done.
pub open spec fn encrypted(c: ConnectView) -> (ConnectView, ActionView) {
    (ConnectView { stage: Stage::Over, ..c }, ActionView::Ready { tls: true })
}

/// What is remembered of failed records after a failed attempt.
pub open spec fn after_miss(
    c: ConnectView,
    failures: Map<OriginView, Duration>,
) -> Map<OriginView, Duration> {
    if c.endpoint is Some {
        failed(failures, origin_of(c.host, c.port), c.now)
    } else {
        failures
    }
}

/// What ends a connection that cannot be made.
pub open spec fn given_up(c: ConnectView, e: Error) -> (ConnectView, ActionView) {
    (ConnectView { stage: Stage::Over, ..c }, ActionView::Fail(e))
}

/// A proxy that spoke before it was spoken to.
pub open spec fn spoke_first(octets: usize) -> Error {
    Error {
        kind: ErrorKind::Connect,
        source: Arc::new(Source::ProxySpokeFirst(ProxySpokeFirst(octets))),
    }
}

/// A copy of some octets.
pub fn copy_octets(v: &Vec<u8>) -> (r: Vec<u8>)
    ensures
        r@ == v@,
{
    let mut r: Vec<u8> = Vec::new();
    let mut i: usize = 0;
    while i < v.len()
        invariant
            i <= v@.len(),
            r@ =~= v@.take(i as int),
        decreases v@.len() - i,
    {
        r.push(v[i]);
        i = i + 1;
    }
    assert(v@.take(i as int) =~= v@);
    r
}

/// A copy of some octets.
fn own(v: &[u8]) -> (r: Vec<u8>)
    ensures
        r@ == v@,
{
    let mut r: Vec<u8> = Vec::new();
    let mut i: usize = 0;
    while i < v.len()
        invariant
            i <= v@.len(),
            r@ =~= v@.take(i as int),
        decreases v@.len() - i,
    {
        r.push(v[i]);
        i = i + 1;
    }
    assert(v@.take(i as int) =~= v@);
    r
}

/// A copy of some names.
fn copy_names(v: &Vec<Vec<u8>>) -> (r: Vec<Vec<u8>>)
    ensures
        names(r@) == names(v@),
{
    let mut r: Vec<Vec<u8>> = Vec::new();
    let mut i: usize = 0;
    let ghost all = names(v@);
    assert(names(r@) =~= all.take(0));
    while i < v.len()
        invariant
            i <= v@.len(),
            all == names(v@),
            names(r@) == all.take(i as int),
        decreases v@.len() - i,
    {
        let one = copy_octets(&v[i]);
        proof {
            assert(names(r@.push(one)) =~= names(r@).push(one@));
            assert(all.take(i + 1) =~= all.take(i as int).push(all[i as int]));
        }
        r.push(one);
        i = i + 1;
    }
    assert(all.take(i as int) =~= all);
    r
}

/// The protocols to offer under a record.
fn offer_under(ours: &Vec<Vec<u8>>, record: &Vec<Vec<u8>>) -> (r: Vec<Vec<u8>>)
    ensures
        names(r@) == offer_of(names(ours@), names(record@)),
{
    let mut list: Vec<&[u8]> = Vec::new();
    let mut i: usize = 0;
    let ghost all = names(ours@);
    assert(slices(list@) =~= all.take(0));
    while i < ours.len()
        invariant
            i <= ours@.len(),
            all == names(ours@),
            slices(list@) == all.take(i as int),
        decreases ours@.len() - i,
    {
        let one = ours[i].as_slice();
        proof {
            assert(slices(list@.push(one)) =~= slices(list@).push(one@));
            assert(all.take(i + 1) =~= all.take(i as int).push(all[i as int]));
        }
        list.push(one);
        i = i + 1;
    }
    assert(all.take(i as int) =~= all);
    let offer = alpn_offer(list.as_slice(), record.as_slice());
    let ghost wanted = slices(offer@);
    let mut r: Vec<Vec<u8>> = Vec::new();
    let mut j: usize = 0;
    assert(names(r@) =~= wanted.take(0));
    while j < offer.len()
        invariant
            j <= offer@.len(),
            wanted == slices(offer@),
            names(r@) == wanted.take(j as int),
        decreases offer@.len() - j,
    {
        let one = own(offer[j]);
        proof {
            assert(names(r@.push(one)) =~= names(r@).push(one@));
            assert(wanted.take(j + 1) =~= wanted.take(j as int).push(wanted[j as int]));
        }
        r.push(one);
        j = j + 1;
    }
    assert(wanted.take(j as int) =~= wanted);
    r
}

/// A copy of some IPv6 hints.
fn copy_hints6(v: &Vec<u128>) -> (r: Vec<u128>)
    ensures
        r@ == v@,
{
    let mut r: Vec<u128> = Vec::new();
    let mut i: usize = 0;
    while i < v.len()
        invariant
            i <= v@.len(),
            r@ =~= v@.take(i as int),
        decreases v@.len() - i,
    {
        r.push(v[i]);
        i = i + 1;
    }
    assert(v@.take(i as int) =~= v@);
    r
}

/// A copy of some IPv4 hints.
fn copy_hints4(v: &Vec<u32>) -> (r: Vec<u32>)
    ensures
        r@ == v@,
{
    let mut r: Vec<u32> = Vec::new();
    let mut i: usize = 0;
    while i < v.len()
        invariant
            i <= v@.len(),
            r@ =~= v@.take(i as int),
        decreases v@.len() - i,
    {
        r.push(v[i]);
        i = i + 1;
    }
    assert(v@.take(i as int) =~= v@);
    r
}

/// What follows at the very beginning.
pub open spec fn begun(
    c: ConnectView,
    unix_socket: bool,
    found: Prefetched,
    failures: Map<OriginView, Duration>,
    supported: bool,
) -> (ConnectView, ActionView) {
    if unix_socket {
        (ConnectView { stage: Stage::Unix, ..c }, ActionView::DialUnix)
    } else if c.proxy is Some {
        (
            ConnectView { stage: Stage::ProxyRace, ..c },
            ActionView::RaceProxy { port: (c.proxy->0).port },
        )
    } else if found is NotConsulted {
        if asks_for_record(origin_of(c.host, c.port), c.use_tls, failures, supported, c.now) {
            (ConnectView { stage: Stage::Record, ..c }, ActionView::AskRecord)
        } else {
            known(c)
        }
    } else {
        known(ConnectView { endpoint: to_act_on(found), ..c })
    }
}

impl Connect {
    /// What follows once there is something to speak on.
    fn reach(&mut self) -> (r: Action)
        ensures
            (final(self)@, r@) == reached(old(self)@),
    {
        if !self.target.use_tls {
            self.stage = Stage::Over;
            return Action::Ready { tls: false };
        }
        self.stage = Stage::Handshake(self.endpoint.is_some());
        let (alpn, ech) = match &self.endpoint {
            Some(e) => (
                offer_under(&self.alpn, &e.alpn),
                match (&e.ech, self.applies_ech) {
                    (Some(v), true) => Some(copy_octets(v)),
                    _ => None,
                },
            ),
            None => (copy_names(&self.alpn), None),
        };
        Action::Secure(
            TlsRequest { server_name: bare_host(self.target.host.as_str()).to_owned(), alpn, ech },
        )
    }

    /// Start the race to the origin.
    fn race(&mut self) -> (r: Action)
        ensures
            (final(self)@, r@) == first_race(old(self)@),
    {
        self.stage = Stage::First;
        match &self.endpoint {
            Some(e) => Action::Race {
                port: match e.port {
                    Some(p) => p,
                    None => self.target.port,
                },
                hint6: copy_hints6(&e.ipv6hint),
                hint4: copy_hints4(&e.ipv4hint),
            },
            None => Action::Race { port: self.target.port, hint6: Vec::new(), hint4: Vec::new() },
        }
    }

    /// What follows once the record is known.
    fn know(&mut self) -> (r: Action)
        ensures
            (final(self)@, r@) == known(old(self)@),
    {
        let there = match &self.endpoint {
            Some(e) => e.ipv6hint.len() > 0 || e.ipv4hint.len() > 0,
            None => false,
        };
        match self.resolve {
            Some(bound) => if there {
                self.race()
            } else {
                self.stage = Stage::Address;
                Action::AwaitAddress(bound)
            },
            None => self.race(),
        }
    }

    /// What follows a failed attempt.
    fn miss(&mut self, e: Error, cache: &mut NegativeCache) -> (r: Action)
        requires
            old(cache).wf(),
        ensures
            final(cache).wf(),
            (final(self)@, r@) == missed(old(self)@, e),
            final(cache)@ == after_miss(old(self)@, old(cache)@),
    {
        if self.endpoint.is_some() {
            cache.record(Origin::new(self.target.host.as_str(), self.target.port), self.now);
            self.endpoint = None;
            self.stage = Stage::Second;
            return Action::Race { port: self.target.port, hint6: Vec::new(), hint4: Vec::new() };
        }
        self.stage = Stage::Over;
        Action::Fail(e)
    }

    /// Start making a connection to the target.
    ///
    /// `unix_socket` says whether one is configured, `proxy` which proxy was
    /// chosen for the target, `found` what is known of the origin's record,
    /// and `supported` whether the resolver can ask for one.
    pub fn begin(
        target: Target,
        alpn: Vec<Vec<u8>>,
        unix_socket: bool,
        proxy: Option<ProxyRoute>,
        resolve: Option<Duration>,
        applies_ech: bool,
        found: Prefetched,
        supported: bool,
        cache: &mut NegativeCache,
        now: Duration,
    ) -> (r: (Self, Action))
        requires
            old(cache).wf(),
        ensures
            final(cache).wf(),
            ({
                let c = ConnectView {
                    host: target.host@,
                    use_tls: target.use_tls,
                    port: target.port,
                    alpn: names(alpn@),
                    resolve,
                    applies_ech,
                    proxy,
                    now,
                    endpoint: None,
                    stage: Stage::Over,
                };
                (r.0@, r.1@) == begun(c, unix_socket, found, old(cache)@, supported)
            }),
            final(cache)@ == if !unix_socket && proxy is None && found is NotConsulted {
                after_asking(
                    origin_of(target.host@, target.port),
                    target.use_tls,
                    old(cache)@,
                    now,
                )
            } else {
                old(cache)@
            },
    {
        let mut c = Connect {
            target,
            alpn,
            resolve,
            applies_ech,
            proxy,
            now,
            endpoint: None,
            stage: Stage::Over,
        };
        if unix_socket {
            c.stage = Stage::Unix;
            return (c, Action::DialUnix);
        }
        if let Some(p) = c.proxy {
            c.stage = Stage::ProxyRace;
            return (c, Action::RaceProxy { port: p.port });
        }
        match found {
            Prefetched::NotConsulted => {
                if wants_record(
                    c.target.host.as_str(),
                    c.target.use_tls,
                    c.target.port,
                    cache,
                    supported,
                    now,
                ) {
                    c.stage = Stage::Record;
                    return (c, Action::AskRecord);
                }
            },
            already => {
                c.endpoint = already.actionable();
            },
        }
        let action = c.know();
        (c, action)
    }

    /// The Unix socket was connected to, or was not, in its own words.
    pub fn dialed(&mut self, outcome: Result<(), String>) -> (r: Action)
        requires
            old(self)@.stage == Stage::Unix,
        ensures
            match outcome {
                Ok(_) => (final(self)@, r@) == reached(old(self)@),
                Err(text) => (final(self)@, r@) == given_up(
                    old(self)@,
                    (Error {
                        kind: ErrorKind::Connect,
                        source: Arc::new(Source::Outside(text)),
                    }),
                ),
            },
    {
        match outcome {
            Ok(_) => self.reach(),
            Err(text) => {
                self.stage = Stage::Over;
                Action::Fail(Error::new(ErrorKind::Connect, Source::Outside(text)))
            },
        }
    }

    /// The question for the origin's record is over, with these answers.
    pub fn record(&mut self, answers: Vec<Answer>) -> (r: Action)
        requires
            old(self)@.stage == Stage::Record,
        ensures
            (final(self)@, r@) == known(
                (ConnectView { endpoint: effective(best_record(answers@)), ..old(self)@ }),
            ),
    {
        let ghost seen = effective(best_record(answers@));
        self.endpoint = Prefetched::Looked(lookup(answers)).actionable();
        assert(self@ =~= (ConnectView { endpoint: seen, ..old(self)@ }));
        self.know()
    }

    /// The wait for a first address is over.
    pub fn address(&mut self, outcome: Result<(), Error>) -> (r: Action)
        requires
            old(self)@.stage == Stage::Address,
        ensures
            match outcome {
                Ok(_) => (final(self)@, r@) == first_race(old(self)@),
                Err(e) => (final(self)@, r@) == given_up(old(self)@, e),
            },
    {
        match outcome {
            Ok(_) => self.race(),
            Err(e) => {
                self.stage = Stage::Over;
                Action::Fail(e)
            },
        }
    }

    /// A race is over.
    pub fn raced(&mut self, outcome: Result<(), Error>, cache: &mut NegativeCache) -> (r: Action)
        requires
            old(cache).wf(),
            old(self)@.stage == Stage::First || old(self)@.stage == Stage::Second || old(
                self,
            )@.stage == Stage::ProxyRace,
        ensures
            final(cache).wf(),
            match outcome {
                Ok(_) => {
                    &&& (final(self)@, r@) == won(old(self)@)
                    &&& final(cache)@ == old(cache)@
                },
                Err(e) => {
                    &&& (final(self)@, r@) == missed(old(self)@, e)
                    &&& final(cache)@ == after_miss(old(self)@, old(cache)@)
                },
            },
    {
        match outcome {
            Ok(_) => {
                let tunnel = match (self.stage, self.proxy) {
                    (Stage::ProxyRace, Some(p)) => match p.approach {
                        Approach::Tunnel => true,
                        Approach::Absolute => false,
                    },
                    _ => false,
                };
                if tunnel {
                    self.stage = Stage::ProxyTunnel;
                    return Action::Tunnel;
                }
                self.reach()
            },
            Err(e) => self.miss(e, cache),
        }
    }

    /// The tunnel through the proxy is open, with so many octets beyond its
    /// handshake, or it is not.
    pub fn tunnelled(&mut self, outcome: Result<usize, Error>) -> (r: Action)
        requires
            old(self)@.stage == Stage::ProxyTunnel,
        ensures
            match outcome {
                Ok(beyond) => (final(self)@, r@) == opened(old(self)@, beyond),
                Err(e) => (final(self)@, r@) == given_up(old(self)@, e),
            },
    {
        match outcome {
            Ok(beyond) => {
                if beyond > 0 {
                    self.stage = Stage::Over;
                    return Action::Fail(
                        Error::new(
                            ErrorKind::Connect,
                            Source::ProxySpokeFirst(ProxySpokeFirst(beyond)),
                        ),
                    );
                }
                self.reach()
            },
            Err(e) => {
                self.stage = Stage::Over;
                Action::Fail(e)
            },
        }
    }

    /// The handshake is over.
    pub fn secured(&mut self, outcome: Result<(), Error>, cache: &mut NegativeCache) -> (r: Action)
        requires
            old(cache).wf(),
            old(self)@.stage is Handshake,
        ensures
            final(cache).wf(),
            match outcome {
                Ok(_) => {
                    &&& (final(self)@, r@) == encrypted(old(self)@)
                    &&& final(cache)@ == old(cache)@
                },
                Err(e) => {
                    &&& (final(self)@, r@) == missed(old(self)@, e)
                    &&& final(cache)@ == after_miss(old(self)@, old(cache)@)
                },
            },
    {
        match outcome {
            Ok(_) => {
                self.stage = Stage::Over;
                Action::Ready { tls: true }
            },
            Err(e) => self.miss(e, cache),
        }
    }
}

// ---------------------------------------------------------------------------
// What holds of it all
// ---------------------------------------------------------------------------

/// A record is asked for only of an `https` origin at the default port, and
/// never where a Unix socket or a proxy decides where the connection goes.
pub proof fn law_record_is_asked_for_sparingly(
    c: ConnectView,
    unix_socket: bool,
    found: Prefetched,
    failures: Map<OriginView, Duration>,
    supported: bool,
)
    requires
        begun(c, unix_socket, found, failures, supported).1 is AskRecord,
    ensures
        c.use_tls,
        c.port == HTTPS_DEFAULT_PORT,
        !unix_socket,
        c.proxy is None,
        found is NotConsulted,
        supported,
        !left_alone(failures, origin_of(c.host, c.port), c.now),
{
}

/// The handshake names the origin, whatever the connection goes through and
/// whatever a record says.
pub proof fn law_handshake_names_the_origin(c: ConnectView)
    requires
        c.use_tls,
    ensures
        reached(c).1 matches ActionView::Secure { server_name, alpn, ech } && server_name == bare(
            c.host,
        ),
{
}

/// Nothing is encrypted that is not to be, and nothing in the clear is handed
/// out that is to be encrypted.
pub proof fn law_security_is_the_schemes(c: ConnectView)
    ensures
        c.use_tls <==> reached(c).1 is Secure,
        !c.use_tls <==> reached(c).1 == (ActionView::Ready { tls: false }),
{
}

/// A failure under a record is remembered and buys one more attempt, to the
/// origin's own port, with no hints, the whole offer and no configuration of
/// the record's; the failure after that is final.
pub proof fn law_one_retry_without_the_record(c: ConnectView, e: Error, f: Error)
    requires
        c.endpoint is Some,
    ensures
        ({
            let (second, action) = missed(c, e);
            &&& action == ActionView::Race {
                port: c.port,
                hint6: Seq::empty(),
                hint4: Seq::empty(),
            }
            &&& second.endpoint is None
            &&& c.use_tls ==> (reached(second).1 matches ActionView::Secure {
                server_name,
                alpn,
                ech,
            } && alpn == c.alpn && ech is None)
            &&& missed(second, f).1 == ActionView::Fail(f)
        }),
        forall|failures: Map<OriginView, Duration>|
            left_alone(
                #[trigger] after_miss(c, failures),
                origin_of(c.host, c.port),
                c.now,
            ) || c.now.nanos >= crate::time::MAX_NANOS,
{
}

/// A record that changes nothing buys no second attempt and is not blamed.
pub proof fn law_inert_record_is_not_blamed(
    c: ConnectView,
    record: EndpointView,
    e: Error,
    failures: Map<OriginView, Duration>,
)
    requires
        inert(record),
    ensures
        ({
            let under = ConnectView { endpoint: effective(Some(record)), ..c };
            &&& missed(under, e).1 == ActionView::Fail(e)
            &&& after_miss(under, failures) == failures
            &&& first_race(under) == first_race(ConnectView { endpoint: None, ..c })
        }),
{
}

/// Whatever was handed out, when and to which attempt, is the beginning of the
/// hints followed by what the lookup answered: a second attempt reads what
/// the first one read, in the same order, and nothing is asked again for it.
pub proof fn law_replay_repeats(src: Answers, reading: Replay)
    requires
        reading.wf(src),
    ensures
        reading.handed(src) == (as_found(reading.hints@) + src.seen@).take(
            reading.hinted + reading.at,
        ),
{
    let whole = as_found(reading.hints@) + src.seen@;
    let part = reading.handed(src);
    assert(part =~= whole.take(reading.hinted + reading.at));
}

/// How far a connection being made is from its end, at most.
pub open spec fn steps_left(c: ConnectView) -> nat {
    (if c.endpoint is Some {
        10nat
    } else {
        0nat
    }) + match c.stage {
        Stage::Record => 20nat,
        Stage::Address => 5nat,
        Stage::Unix => 4nat,
        Stage::ProxyRace => 4nat,
        Stage::First => 4nat,
        Stage::Second => 4nat,
        Stage::ProxyTunnel => 3nat,
        Stage::Handshake(_) => 2nat,
        Stage::Over => 0nat,
    }
}

/// Whatever happens, making a connection comes closer to its end: the answer
/// to a question for the record, the end of the wait for an address, of a
/// race, of a tunnel and of a handshake, well or badly.
pub proof fn law_making_a_connection_ends(c: ConnectView, record: Option<EndpointView>, e: Error)
    ensures
        c.stage == Stage::Record && c.endpoint is None ==> steps_left(
            known(ConnectView { endpoint: record, ..c }).0,
        ) < steps_left(c),
        c.stage == Stage::Address ==> steps_left(first_race(c).0) < steps_left(c),
        c.stage == Stage::Unix || c.stage == Stage::ProxyRace || c.stage == Stage::ProxyTunnel
            || c.stage == Stage::First || c.stage == Stage::Second ==> steps_left(reached(c).0)
            < steps_left(c),
        tunnels(c) ==> steps_left(ConnectView { stage: Stage::ProxyTunnel, ..c }) < steps_left(c),
        c.stage != Stage::Over && c.stage != Stage::Record ==> steps_left(missed(c, e).0)
            < steps_left(c),
        c.stage is Handshake && c.endpoint is None ==> steps_left(
            ConnectView { stage: Stage::Over, ..c },
        ) < steps_left(c),
{
}

/// The origin is raced to at most twice: once under a record that is acted on
/// and once without it, or once without one.
pub proof fn law_at_most_two_races(c: ConnectView, e: Error)
    ensures
        missed(c, e).1 is Race ==> c.endpoint is Some && missed(c, e).0.endpoint is None,
        c.endpoint is None ==> missed(c, e).1 == ActionView::Fail(e),
{
}

/// The race under a record is handed everything that the record says of where
/// to go: all of its hints, of either family, and its port where it names one,
/// else the origin's own.
pub proof fn law_a_record_says_where_to_race(c: ConnectView, record: Endpoint)
    requires
        c.endpoint == Some(record@),
    ensures
        first_race(c).1 matches ActionView::Race { port, hint6, hint4 } && hint6
            == record.ipv6hint@ && hint4 == record.ipv4hint@ && (record.port matches Some(p) ==> port
            == p) && (record.port is None ==> port == c.port),
        first_race(c).0.endpoint == c.endpoint,
{
}

/// A record that was looked up before and changes something is acted on: its
/// hints are raced to at once, whatever the bound on the wait for an address,
/// and without hints so is the origin where there is no such bound.
pub proof fn law_a_found_record_is_acted_on(
    c: ConnectView,
    record: Endpoint,
    failures: Map<OriginView, Duration>,
    supported: bool,
)
    requires
        c.proxy is None,
        record.port is Some || record.ipv6hint@.len() > 0 || record.ipv4hint@.len() > 0
            || record.alpn@.len() > 0 || record.ech is Some,
    ensures
        ({
            let (next, action) = begun(
                c,
                false,
                Prefetched::Looked(Some(record)),
                failures,
                supported,
            );
            &&& next.endpoint == Some(record@)
            &&& c.resolve is None || record.ipv6hint@.len() > 0 || record.ipv4hint@.len() > 0 ==> (
            action matches ActionView::Race { port, hint6, hint4 } && hint6 == record.ipv6hint@
                && hint4 == record.ipv4hint@ && port == (match record.port {
                Some(p) => p,
                None => c.port,
            }))
            &&& c.resolve is Some && record.ipv6hint@.len() == 0 && record.ipv4hint@.len() == 0
                ==> action == ActionView::AwaitAddress(c.resolve->0)
        }),
{
}

/// Without a record to act on, the origin is raced to at its own port, with
/// the lookups' addresses alone; under a bound, once there is one of them.
pub proof fn law_without_a_record_the_origin_is_raced_to(c: ConnectView)
    requires
        c.endpoint is None,
    ensures
        first_race(c).1 matches ActionView::Race { port, hint6, hint4 } && port == c.port
            && hint6.len() == 0 && hint4.len() == 0,
        c.resolve is None ==> known(c) == first_race(c),
        c.resolve matches Some(bound) ==> known(c).1 == ActionView::AwaitAddress(bound),
        known(c).0.endpoint is None,
{
}

/// A Unix socket comes before a proxy and a proxy before everything else; and
/// neither looks at what is known of a record.
pub proof fn law_what_comes_first(
    c: ConnectView,
    found: Prefetched,
    failures: Map<OriginView, Duration>,
    supported: bool,
)
    ensures
        begun(c, true, found, failures, supported).1 == ActionView::DialUnix,
        begun(c, true, found, failures, supported).0.endpoint == c.endpoint,
        c.proxy matches Some(p) ==> {
            &&& begun(c, false, found, failures, supported).1 == ActionView::RaceProxy {
                port: p.port,
            }
            &&& begun(c, false, found, failures, supported).0.endpoint == c.endpoint
            &&& begun(c, false, found, failures, supported).0.stage == Stage::ProxyRace
        },
        c.proxy is None ==> !(begun(c, false, found, failures, supported).1 is DialUnix) && !(begun(
            c,
            false,
            found,
            failures,
            supported,
        ).1 is RaceProxy),
{
}

/// The record of an `https` origin at port 443 is asked for, where nobody has
/// yet, no failure under it is remembered and the resolver can ask.
pub proof fn law_a_record_is_asked_for(
    c: ConnectView,
    failures: Map<OriginView, Duration>,
    supported: bool,
)
    requires
        c.proxy is None,
        c.use_tls,
        c.port == 443,
        supported,
        !failures.contains_key(origin_of(c.host, c.port)) || failures[origin_of(
            c.host,
            c.port,
        )].nanos <= c.now.nanos,
    ensures
        begun(c, false, Prefetched::NotConsulted, failures, supported).1 == ActionView::AskRecord,
{
}

/// Asking forgets nothing but a failure of that very origin that is over.
pub proof fn law_asking_forgets_what_is_over(
    origin: OriginView,
    other: OriginView,
    use_tls: bool,
    failures: Map<OriginView, Duration>,
    now: Duration,
)
    ensures
        ({
            let after = after_asking(origin, use_tls, failures, now);
            &&& other != origin ==> (after.contains_key(other) <==> failures.contains_key(other))
                && (failures.contains_key(other) ==> after[other] == failures[other])
            &&& failures.contains_key(origin) && now.nanos < failures[origin].nanos
                ==> after == failures
            &&& forall|later: Duration|
                now.nanos <= later.nanos ==> #[trigger] left_alone(after, other, later)
                    == left_alone(failures, other, later)
        }),
{
}

/// Where a handshake is asked for under a record, it brings the record's
/// configuration exactly where the backend uses one, and offers what is ours
/// and the record allows; without a record it brings none and offers all that
/// is ours.
pub proof fn law_a_handshake_brings_what_the_record_says(c: ConnectView, record: Endpoint)
    requires
        c.use_tls,
    ensures
        c.endpoint == Some(record@) ==> (reached(c).1 matches ActionView::Secure {
            server_name,
            alpn,
            ech,
        } && (c.applies_ech && record.ech is Some ==> ech == Some((record.ech->0)@)) && (
        !c.applies_ech || record.ech is None ==> ech is None) && alpn == offer_of(
            c.alpn,
            names(record.alpn@),
        )),
        c.endpoint is None ==> (reached(c).1 matches ActionView::Secure { server_name, alpn, ech }
            && ech is None && alpn == c.alpn),
        reached(c).0.stage == Stage::Handshake(c.endpoint is Some),
        reached(c).0.endpoint == c.endpoint,
{
}

/// A won race to a proxy leads to a tunnel exactly where one is to be opened;
/// every other won race leads to the handshake of an `https` target, and else
/// to a connection that is ready.
pub proof fn law_what_follows_a_won_race(c: ConnectView)
    ensures
        won(c).1 is Tunnel <==> c.stage == Stage::ProxyRace && (c.proxy matches Some(p)
            && p.approach == Approach::Tunnel),
        !(won(c).1 is Tunnel) && c.use_tls ==> won(c).1 is Secure,
        !(won(c).1 is Tunnel) && !c.use_tls ==> won(c).1 == (ActionView::Ready { tls: false }),
        won(c).1 is Tunnel ==> won(c).0.stage == Stage::ProxyTunnel,
        won(c).0.endpoint == c.endpoint,
{
}

/// A tunnel is spoken through exactly where nothing came out of it before
/// anything went in; else the connection fails and says how much came.
pub proof fn law_a_proxy_that_speaks_first_is_refused(c: ConnectView, beyond: usize)
    ensures
        opened(c, beyond).1 is Fail <==> beyond > 0,
        beyond > 0 ==> (opened(c, beyond).1 matches ActionView::Fail(e) && e.kind
            == ErrorKind::Connect && *e.source == Source::ProxySpokeFirst(ProxySpokeFirst(beyond))),
        beyond == 0 ==> opened(c, beyond).1 is Secure == c.use_tls,
{
}

/// A failure that nothing follows is handed on as it is; a handshake that is
/// done leaves an encrypted connection.
pub proof fn law_how_a_connection_ends(c: ConnectView, e: Error)
    ensures
        given_up(c, e).1 == ActionView::Fail(e),
        given_up(c, e).0.stage == Stage::Over,
        encrypted(c).1 == (ActionView::Ready { tls: true }),
        encrypted(c).0.stage == Stage::Over,
        c.endpoint is None ==> missed(c, e).1 == ActionView::Fail(e),
        c.endpoint is Some ==> missed(c, e).0.stage == Stage::Second,
{
}

/// Only a failure under a record is remembered, and for the origin of the
/// connection alone.
pub proof fn law_a_failure_is_remembered_of_its_origin(
    c: ConnectView,
    failures: Map<OriginView, Duration>,
    other: OriginView,
    later: Duration,
)
    ensures
        c.endpoint is None ==> after_miss(c, failures) == failures,
        other != origin_of(c.host, c.port) ==> left_alone(after_miss(c, failures), other, later)
            == left_alone(failures, other, later),
        c.endpoint is Some && c.now.nanos + 300 * 1_000_000_000 <= crate::time::MAX_NANOS ==> (
        left_alone(after_miss(c, failures), origin_of(c.host, c.port), later) <==> later.nanos
            < c.now.nanos + 300 * 1_000_000_000),
{
}

/// The wait for a first address is over with the first address of either
/// lookup, whatever the clock says, and with the end of both; a clock that has
/// run out before that fails it, with the bound; and nothing else ends it.
pub proof fn law_the_first_address_ends_the_wait(
    v6: Answers,
    v4: Answers,
    bound: Duration,
    elapsed: bool,
    i: int,
)
    ensures
        0 <= i < v6.seen@.len() && v6.seen@[i] is Ok ==> wait_over(v6, v4, bound, elapsed) == Some(
            Ok::<(), Error>(()),
        ),
        0 <= i < v4.seen@.len() && v4.seen@[i] is Ok ==> wait_over(v6, v4, bound, elapsed) == Some(
            Ok::<(), Error>(()),
        ),
        v6.done && v4.done ==> wait_over(v6, v4, bound, elapsed) == Some(Ok::<(), Error>(())),
        (forall|j: int| 0 <= j < v6.seen@.len() ==> #[trigger] v6.seen@[j] is Err) && (forall|j: int|
            0 <= j < v4.seen@.len() ==> #[trigger] v4.seen@[j] is Err) && !(v6.done && v4.done) ==> {
            &&& !elapsed ==> wait_over(v6, v4, bound, elapsed) is None
            &&& elapsed ==> (wait_over(v6, v4, bound, elapsed) matches Some(Err(e)) && e.kind
                == ErrorKind::Timeout(Phase::Resolve) && *e.source == Source::ResolveTimedOut(
                ResolveTimedOut(bound),
            ))
        },
{
}

/// Hints are read as addresses without a lifetime, one for one and in order.
pub proof fn law_hints_are_read_in_order(hints: Seq<IpAddr>)
    ensures
        as_found(hints).len() == hints.len(),
        forall|i: int|
            0 <= i < hints.len() ==> (#[trigger] as_found(hints)[i] matches Ok(a) && a.addr
                == hints[i] && a.ttl is None),
{
}

/// What is to be done is seen as it is, hint for hint and name for name.
pub proof fn law_actions_are_seen_as_they_are(
    port: u16,
    hint6: Vec<u128>,
    hint4: Vec<u32>,
    request: TlsRequest,
)
    ensures
        (Action::Race { port, hint6, hint4 })@ == (ActionView::Race {
            port,
            hint6: hint6@,
            hint4: hint4@,
        }),
        Action::Secure(request)@ matches ActionView::Secure { server_name, alpn, ech }
            && server_name == request.server_name@ && alpn.len() == request.alpn@.len() && (forall|
            i: int,
        |
            0 <= i < alpn.len() ==> #[trigger] alpn[i] == request.alpn@[i]@) && (request.ech matches
            Some(c) ==> ech == Some(c@)) && (request.ech is None ==> ech is None),
{
}

} // verus!
