//! One request on the connections of a transport: which pooled connection it
//! is offered to, when a new one is made and for whom, and what becomes of
//! the connection.
//!
//! A request first looks for a connection that is there, in the order of the
//! protocols it can be sent by. Where connections are shared, only one request
//! at a time makes one for its key; the others wait for it, out of their own
//! bound. A pooled connection on which nothing was sent costs a request
//! nothing: it goes on to the next.

use vstd::prelude::*;
use vstd::string::*;

use crate::bounds::connect_timeout;
use crate::connect::{after_asking, asks_for_record, wants_record, Approach};
use crate::discovery::{
    alpn_http11, best_record, lookup, names, opt_endpoint, Answer, NegativeCache, Prefetched,
    Prepared,
};
use crate::error::{
    ConnectTimedOut, Error, ErrorKind, NeedsHttp1, Phase, PlaintextNeedsHttp1, Source,
    UnknownClientIdentity,
};
use crate::native::{Version, Versions};
use crate::pool::{
    handed_out, key_of, left_behind, put_back, without_slot, CheckIn, Established, Idle, KeyView,
    Pool, PoolConfig, PoolKey, Protocol, Security,
};
use crate::text::{lower, lower_octets, same_octets, same_octets_ignoring_case};
use crate::time::{rest_of, sum_of, Duration};
use crate::uri::{port_of, target_of, text_in, Target, UriParts};

verus! {

// ---------------------------------------------------------------------------
// What is decided before anything is done
// ---------------------------------------------------------------------------

/// The TLS configuration that a request is sent with by its identity, where it
/// can be sent.
pub open spec fn configured(name: Option<String>, known: Option<u64>) -> Option<Option<u64>> {
    match (name, known) {
        (None, _) => Some(None),
        (Some(_), Some(id)) => Some(Some(id)),
        (Some(_), None) => None,
    }
}

/// The TLS configuration of the client identity that a request names, where it
/// names one. `known` is the one the backend has under that name; without it
/// the request is refused rather than sent with another identity.
pub fn identity_config(name: Option<String>, known: Option<u64>) -> (r: Result<Option<u64>, Error>)
    ensures
        match configured(name, known) {
            Some(id) => r == Ok::<Option<u64>, Error>(id),
            None => name is Some && (r matches Err(e) && e.kind == ErrorKind::Tls && *e.source
                == Source::UnknownClientIdentity(UnknownClientIdentity(name->0))),
        },
{
    match (name, known) {
        (None, _) => Ok(None),
        (Some(_), Some(id)) => Ok(Some(id)),
        (Some(n), None) => Err(
            Error::new(ErrorKind::Tls, Source::UnknownClientIdentity(UnknownClientIdentity(n))),
        ),
    }
}

/// What the keys of a request's connections have in common.
#[derive(Debug)]
pub struct KeyParts {
    pub security: Security,
    pub host: String,
    pub port: u16,
    /// What the connection goes through.
    pub proxy: Option<String>,
}

/// [`KeyParts`] as a mathematical value.
pub struct PartsView {
    pub security: Security,
    pub host: Seq<char>,
    pub port: u16,
    pub proxy: Option<Seq<char>>,
}

impl View for KeyParts {
    type V = PartsView;

    open spec fn view(&self) -> PartsView {
        PartsView {
            security: self.security,
            host: self.host@,
            port: self.port,
            proxy: text_in(self.proxy),
        }
    }
}

/// The key for a protocol.
pub open spec fn key_for(parts: PartsView, protocol: Protocol) -> KeyView {
    key_of(parts.security, parts.host, parts.port, protocol, parts.proxy)
}

/// The parts of the keys of a target's connections: encrypted under the
/// identity's configuration, or the backend's `default` where none is named,
/// and through the Unix socket where there is one, else the chosen proxy.
pub open spec fn parts_of(
    target: Target,
    identity: Option<u64>,
    default: u64,
    unix_socket: Option<Seq<char>>,
    chosen: Option<Seq<char>>,
) -> PartsView {
    PartsView {
        security: if target.use_tls {
            Security::Tls(
                match identity {
                    Some(id) => id,
                    None => default,
                },
            )
        } else {
            Security::Plaintext
        },
        host: target.host@,
        port: target.port,
        proxy: match unix_socket {
            Some(path) => Some("unix:"@ + path),
            None => chosen,
        },
    }
}

impl KeyParts {
    /// The parts of the keys of a target's connections.
    pub fn of(
        target: &Target,
        identity: Option<u64>,
        default: u64,
        unix_socket: Option<&String>,
        chosen: Option<String>,
    ) -> (r: Self)
        ensures
            r@ == parts_of(
                *target,
                identity,
                default,
                match unix_socket {
                    Some(p) => Some(p@),
                    None => None,
                },
                text_in(chosen),
            ),
    {
        let security = if target.use_tls {
            Security::Tls(
                match identity {
                    Some(id) => id,
                    None => default,
                },
            )
        } else {
            Security::Plaintext
        };
        let proxy = match unix_socket {
            Some(path) => Some("unix:".to_owned().concat(path.as_str())),
            None => chosen,
        };
        KeyParts { security, host: target.host.clone(), port: target.port, proxy }
    }

    /// The key for a protocol.
    pub fn key(&self, protocol: Protocol) -> (r: PoolKey)
        ensures
            r@ == key_for(self@, protocol),
    {
        let proxy = match &self.proxy {
            Some(p) => Some(p.as_str()),
            None => None,
        };
        PoolKey::new(self.security, self.host.as_str(), self.port, protocol, proxy)
    }
}

/// Whether a connection may turn out to speak HTTP/2: it is spoken, the
/// connection is encrypted, and the backend says what was negotiated.
pub open spec fn may_h2(versions: Versions, security: Security, reports_alpn: bool) -> bool {
    versions.h2 && security is Tls && reports_alpn
}

/// Whether a connection may turn out to speak HTTP/2.
pub fn may_speak_h2(versions: Versions, security: Security, reports_alpn: bool) -> (r: bool)
    ensures
        r == may_h2(versions, security, reports_alpn),
{
    versions.h2 && match security {
        Security::Tls(_) => true,
        Security::Plaintext => false,
    } && reports_alpn
}

/// The protocols by which a pooled connection is looked for, in order.
pub open spec fn candidates(h2: bool) -> Seq<Protocol> {
    if h2 {
        seq![Protocol::H2, Protocol::Http11]
    } else {
        seq![Protocol::Http11]
    }
}

/// The protocols by which a pooled connection is looked for, in order.
pub fn pooled_candidates(h2: bool) -> (r: Vec<Protocol>)
    ensures
        r@ == candidates(h2),
{
    let mut r: Vec<Protocol> = Vec::new();
    if h2 {
        r.push(Protocol::H2);
    }
    r.push(Protocol::Http11);
    assert(r@ =~= candidates(h2));
    r
}

/// The protocol that a handshake agreed on, given what it reported: HTTP/1.1
/// where it reported nothing, HTTP/2 only where that was offered, and none
/// for anything else.
pub open spec fn negotiated(alpn: Option<Seq<u8>>, offered_h2: bool) -> Option<Protocol> {
    match alpn {
        None => Some(Protocol::Http11),
        Some(p) => if p == alpn_http11() {
            Some(Protocol::Http11)
        } else if offered_h2 && p == alpn_h2() {
            Some(Protocol::H2)
        } else {
            None
        },
    }
}

/// `h2`
pub open spec fn alpn_h2() -> Seq<u8> {
    seq![0x68u8, 0x32]
}

/// The protocol that a handshake agreed on.
pub fn negotiated_protocol(alpn: Option<&[u8]>, offered_h2: bool) -> (r: Option<Protocol>)
    ensures
        r == negotiated(
            match alpn {
                Some(p) => Some(p@),
                None => None,
            },
            offered_h2,
        ),
{
    let p = match alpn {
        Some(p) => p,
        None => return Some(Protocol::Http11),
    };
    proof {
        assert([0x68u8, 0x74, 0x74, 0x70, 0x2f, 0x31, 0x2e, 0x31]@ =~= alpn_http11());
        assert([0x68u8, 0x32]@ =~= alpn_h2());
    }
    if same_octets(p, &[0x68, 0x74, 0x74, 0x70, 0x2f, 0x31, 0x2e, 0x31]) {
        return Some(Protocol::Http11);
    }
    if offered_h2 && same_octets(p, &[0x68, 0x32]) {
        return Some(Protocol::H2);
    }
    None
}

/// Whether the protocol is HTTP/2.
pub fn is_h2(protocol: Option<Protocol>) -> (r: bool)
    ensures
        r == (protocol == Some(Protocol::H2)),
{
    match protocol {
        Some(Protocol::H2) => true,
        _ => false,
    }
}

/// The version that is spoken by a protocol; where none was agreed on, the
/// oldest.
pub open spec fn version_of(protocol: Option<Protocol>) -> Version {
    if protocol == Some(Protocol::H2) {
        Version::Http2
    } else {
        Version::Http11
    }
}

/// The version that is spoken by a protocol.
pub fn spoken_version(protocol: Option<Protocol>) -> (r: Version)
    ensures
        r == version_of(protocol),
{
    if is_h2(protocol) {
        Version::Http2
    } else {
        Version::Http11
    }
}

/// Which versions a request can be sent by, for all it demands.
#[derive(Debug, Clone, Copy, PartialEq, Eq, Structural)]
pub struct Admits {
    pub http11: bool,
    pub http2: bool,
}

/// Whether a request can be sent by a protocol.
pub open spec fn admitted(admits: Admits, protocol: Option<Protocol>) -> bool {
    match version_of(protocol) {
        Version::Http2 => admits.http2,
        _ => admits.http11,
    }
}

/// Whether a request can be sent by a protocol.
pub fn protocol_admissible(admits: Admits, protocol: Option<Protocol>) -> (r: bool)
    ensures
        r == admitted(admits, protocol),
{
    if is_h2(protocol) {
        admits.http2
    } else {
        admits.http11
    }
}

/// What is offered in a handshake.
#[derive(Debug, Clone, Copy, PartialEq, Eq, Structural)]
pub enum Offer {
    H2AndHttp11,
    H2,
    Http11,
}

/// What is offered: HTTP/2 where the connection may speak it and the request
/// admits it, and HTTP/1.1 where it is spoken. A request for which there is
/// neither is not started.
pub open spec fn offer_for(offers_h2: bool, h1: bool) -> Offer {
    if offers_h2 {
        if h1 {
            Offer::H2AndHttp11
        } else {
            Offer::H2
        }
    } else {
        Offer::Http11
    }
}

/// The names of what is offered, in order of preference.
pub open spec fn offered_names(offer: Offer) -> Seq<Seq<u8>> {
    match offer {
        Offer::H2AndHttp11 => seq![alpn_h2(), alpn_http11()],
        Offer::H2 => seq![alpn_h2()],
        Offer::Http11 => seq![alpn_http11()],
    }
}

impl Offer {
    /// The names of what is offered, in order of preference.
    pub fn names(&self) -> (r: Vec<Vec<u8>>)
        ensures
            names(r@) == offered_names(*self),
    {
        let h2: Vec<u8> = vec![0x68, 0x32];
        let http11: Vec<u8> = vec![0x68, 0x74, 0x74, 0x70, 0x2f, 0x31, 0x2e, 0x31];
        assert(h2@ =~= alpn_h2());
        assert(http11@ =~= alpn_http11());
        let mut r: Vec<Vec<u8>> = Vec::new();
        match self {
            Offer::H2AndHttp11 => {
                r.push(h2);
                r.push(http11);
            },
            Offer::H2 => {
                r.push(h2);
            },
            Offer::Http11 => {
                r.push(http11);
            },
        }
        assert(names(r@) =~= offered_names(*self));
        r
    }
}

/// `100-continue`
pub open spec fn continue_word() -> Seq<u8> {
    seq![0x31u8, 0x30, 0x30, 0x2d, 0x63, 0x6f, 0x6e, 0x74, 0x69, 0x6e, 0x75, 0x65]
}

/// Whether a request's body is held back: where that is configured, and some
/// `Expect` field of the request asks for it.
pub open spec fn held_back(after: Option<Duration>, expect: Seq<Seq<u8>>) -> bool {
    after is Some && exists|i: int|
        0 <= i < expect.len() && lower_octets(#[trigger] expect[i]) == continue_word()
}

/// Whether a request's body is held back.
pub fn continue_gate(after: Option<Duration>, expect: &Vec<Vec<u8>>) -> (r: bool)
    ensures
        r == held_back(after, names(expect@)),
{
    if after.is_none() {
        return false;
    }
    let ghost all = names(expect@);
    proof {
        assert([
            0x31u8,
            0x30,
            0x30,
            0x2d,
            0x63,
            0x6f,
            0x6e,
            0x74,
            0x69,
            0x6e,
            0x75,
            0x65,
        ]@ =~= continue_word());
        assert(lower_octets(continue_word()) =~= continue_word());
    }
    let mut i: usize = 0;
    while i < expect.len()
        invariant
            i <= expect@.len(),
            all == names(expect@),
            [
                0x31u8,
                0x30,
                0x30,
                0x2d,
                0x63,
                0x6f,
                0x6e,
                0x74,
                0x69,
                0x6e,
                0x75,
                0x65,
            ]@ == continue_word(),
            lower_octets(continue_word()) == continue_word(),
            forall|j: int| 0 <= j < i ==> lower_octets(#[trigger] all[j]) != continue_word(),
            after is Some,
        decreases expect@.len() - i,
    {
        assert(all[i as int] == expect@[i as int]@);
        if same_octets_ignoring_case(
            expect[i].as_slice(),
            &[0x31, 0x30, 0x30, 0x2d, 0x63, 0x6f, 0x6e, 0x74, 0x69, 0x6e, 0x75, 0x65],
        ) {
            return true;
        }
        i = i + 1;
    }
    false
}

/// The status with which a peer says that it wants the body.
pub const CONTINUE: u16 = 100;

/// Whether an interim response lets a body that was held back go.
pub fn opens_body(status: u16) -> (r: bool)
    ensures
        r == (status == CONTINUE),
{
    status == CONTINUE
}

/// How a request line is written.
#[derive(Debug)]
pub enum Via {
    /// For the origin.
    Direct,
    /// For a proxy, with what authorises it there.
    AbsoluteForm(Option<Vec<u8>>),
}

/// Whether a request line is written for a proxy, given the one chosen.
pub open spec fn for_a_proxy(chosen: Option<(Approach, Option<Vec<u8>>)>) -> bool {
    chosen matches Some((Approach::Absolute, _))
}

/// How a request line is written, given the proxy chosen for it: only one that
/// takes the whole request changes it.
pub fn line_form(chosen: Option<(Approach, Option<Vec<u8>>)>) -> (r: Via)
    ensures
        match chosen {
            Some((Approach::Absolute, authorization)) => r == Via::AbsoluteForm(authorization),
            _ => r == Via::Direct,
        },
        for_a_proxy(chosen) <==> r is AbsoluteForm,
{
    match chosen {
        Some((Approach::Absolute, authorization)) => Via::AbsoluteForm(authorization),
        _ => Via::Direct,
    }
}

/// Which target a proxy is chosen for when a request line is written. Nothing
/// is refused at that point: a scheme other than `https` is taken for `http`,
/// and a missing host for an empty one.
pub fn line_target(uri: &UriParts) -> (r: Target)
    ensures
        r.use_tls == (uri@.0 == Some("https"@)),
        r.port == port_of(uri@.2, r.use_tls),
        r.host@ == match uri@.1 {
            Some(h) => h,
            None => Seq::empty(),
        },
{
    let use_tls = match &uri.scheme {
        Some(s) => *s == "https".to_owned(),
        None => false,
    };
    let host = match &uri.host {
        Some(h) => h.clone(),
        None => String::new(),
    };
    Target { host, use_tls, port: crate::uri::port(uri, use_tls) }
}

/// Whether the record of a request's origin is to be asked for ahead of the
/// request. A request that leads nowhere asks for none.
pub fn prepares(
    target: &Option<Target>,
    cache: &mut NegativeCache,
    supported: bool,
    now: Duration,
) -> (r: bool)
    requires
        old(cache).wf(),
    ensures
        final(cache).wf(),
        match *target {
            Some(t) => {
                let origin = crate::altsvc::origin_of(t.host@, t.port);
                &&& r == asks_for_record(origin, t.use_tls, old(cache)@, supported, now)
                &&& final(cache)@ == after_asking(origin, t.use_tls, old(cache)@, now)
            },
            None => !r && final(cache)@ == old(cache)@,
        },
{
    match target {
        Some(t) => wants_record(t.host.as_str(), t.use_tls, t.port, cache, supported, now),
        None => false,
    }
}

/// A request whose origin's record is being asked for.
#[derive(Debug)]
pub struct Preparing<Q> {
    req: Q,
    host: String,
}

/// What becomes of a request that is prepared.
#[derive(Debug)]
pub enum Prepare<Q> {
    /// It is, because no record is to be asked for.
    Ready(Prepared<Q>),
    /// The record is to be asked for.
    Ask(Preparing<Q>),
}

/// Prepare a request to this URI: ask for the record of its origin, where that
/// is to be asked for.
pub fn prepare<Q>(
    req: Q,
    uri: &UriParts,
    cache: &mut NegativeCache,
    supported: bool,
    now: Duration,
) -> (r: Prepare<Q>)
    requires
        old(cache).wf(),
    ensures
        final(cache).wf(),
        match target_of(uri@) {
            Some((host, use_tls, port)) => {
                let origin = crate::altsvc::origin_of(host, port);
                &&& final(cache)@ == after_asking(origin, use_tls, old(cache)@, now)
                &&& if asks_for_record(origin, use_tls, old(cache)@, supported, now) {
                    r matches Prepare::Ask(p) && p.asked() == req && p.asks_of() == host
                } else {
                    r matches Prepare::Ready(p) && p.asked() == req && p.known()
                        == Prefetched::NotConsulted
                }
            },
            None => final(cache)@ == old(cache)@ && (r matches Prepare::Ready(p) && p.asked() == req
                && p.known() == Prefetched::NotConsulted),
        },
{
    let target = match Target::of(uri) {
        Ok(t) => Some(t),
        Err(_) => None,
    };
    let asks = prepares(&target, cache, supported, now);
    match target {
        Some(t) => if asks {
            Prepare::Ask(Preparing { req, host: t.host })
        } else {
            Prepare::Ready(Prepared::new(req))
        },
        None => Prepare::Ready(Prepared::new(req)),
    }
}

impl<Q> Preparing<Q> {
    /// The request.
    pub closed spec fn asked(self) -> Q {
        self.req
    }

    /// Whose record is asked for.
    pub closed spec fn asks_of(self) -> Seq<char> {
        self.host@
    }

    /// Whose record to ask for.
    pub fn host(&self) -> (r: &str)
        ensures
            r@ == self.asks_of(),
    {
        self.host.as_str()
    }

    /// The question was answered with these: the record to use stands beside
    /// the request that it was asked for.
    pub fn answered(self, answers: Vec<Answer>) -> (r: Prepared<Q>)
        ensures
            r.asked() == self.asked(),
            r.known() matches Prefetched::Looked(found) && opt_endpoint(found) == best_record(
                answers@,
            ),
    {
        Prepared::with(self.req, lookup(answers))
    }
}

// ---------------------------------------------------------------------------
// The machine
// ---------------------------------------------------------------------------

/// What a request waits for.
#[derive(Debug, Clone, Copy, PartialEq, Eq, Structural)]
pub enum Stage {
    /// Another request's connection.
    Waiting,
    /// A look into the pool.
    Searching,
    /// Whether the pooled connection at hand can still be used.
    Checking,
    /// The answer on a pooled connection.
    Pooled,
    /// A new connection.
    Connecting,
    /// The handshake of the protocol on it.
    Handshaking(Option<Protocol>),
    /// The answer on a new connection.
    Fresh,
    /// Nothing.
    Over,
}

/// A request under way.
#[derive(Debug)]
pub struct Run {
    parts: KeyParts,
    admits: Admits,
    h1: bool,
    h2: bool,
    shares: bool,
    budget: Option<Duration>,
    now: Duration,
    guard: bool,
    next: usize,
    stage: Stage,
}

/// A [`Run`] as a mathematical value.
pub struct RunView {
    pub parts: PartsView,
    pub admits: Admits,
    /// Whether HTTP/1.1 is spoken.
    pub h1: bool,
    /// Whether its connection may turn out to speak HTTP/2.
    pub h2: bool,
    /// Whether HTTP/2 connections are shared.
    pub shares: bool,
    /// What is left of the bound on the connection.
    pub budget: Option<Duration>,
    pub now: Duration,
    /// Whether this request is the one that makes the shared connection.
    pub guard: bool,
    /// How many of the candidates were looked at.
    pub next: nat,
    pub stage: Stage,
}

impl View for Run {
    type V = RunView;

    closed spec fn view(&self) -> RunView {
        RunView {
            parts: self.parts@,
            admits: self.admits,
            h1: self.h1,
            h2: self.h2,
            shares: self.shares,
            budget: self.budget,
            now: self.now,
            guard: self.guard,
            next: self.next as nat,
            stage: self.stage,
        }
    }
}

/// What a look into the pool comes to.
#[derive(Debug)]
pub enum Found<I> {
    /// This connection, which may have gone stale.
    Pooled(Established<I>),
    /// None: make one, offering this, within what is left of the bound.
    Connect { offer: Offer, budget: Option<Duration> },
}

/// How an exchange ended.
#[derive(Debug)]
pub enum Outcome {
    /// With a response.
    Answered,
    /// Before anything of the request was sent.
    NotSent(Error),
    /// With a failure.
    Failed(Error),
}

/// What follows an exchange.
#[derive(Debug)]
pub enum Next {
    /// Report the head of the response and hand it out.
    Head,
    /// Look into the pool again.
    Search,
    /// Report the failure and hand it out.
    Fail(Error),
}

/// Whether a request may go by a protocol: it admits it and, unless it is
/// HTTP/2, HTTP/1.1 is spoken.
pub open spec fn may_go_by(v: RunView, protocol: Option<Protocol>) -> bool {
    admitted(v.admits, protocol) && (v.h1 || protocol == Some(Protocol::H2))
}

/// Whether a request under way is in order: no more candidates were looked at
/// than there are, there is a version that it can go by, and what it goes by
/// is one of those.
pub open spec fn in_order(v: RunView) -> bool {
    &&& v.next <= candidates(v.h2).len()
    &&& v.h1 || offers_h2(v)
    &&& match v.stage {
        Stage::Checking | Stage::Pooled => v.next < candidates(v.h2).len() && may_go_by(
            v,
            Some(candidates(v.h2)[v.next as int]),
        ),
        Stage::Handshaking(p) => may_go_by(v, p),
        _ => true,
    }
}

/// Whether the `i`-th candidate is one the request can be sent by, and the
/// pool has a connection for it.
pub open spec fn at_hand<I>(v: RunView, pool: Pool<I>, i: nat) -> bool {
    let p = candidates(v.h2)[i as int];
    may_go_by(v, Some(p)) && handed_out(pool.bucket(key_for(v.parts, p)), v.now) is Some
}

/// The first candidate from `i` on that the pool has a connection for.
pub open spec fn first_from<I>(v: RunView, pool: Pool<I>, i: nat) -> Option<nat>
    decreases candidates(v.h2).len() - i,
{
    if i >= candidates(v.h2).len() {
        None
    } else if at_hand(v, pool, i) {
        Some(i)
    } else {
        first_from(v, pool, i + 1)
    }
}

/// Whether a look that starts at `from` and ends before `end` goes through the
/// connections under a key.
pub open spec fn looks_at(v: RunView, from: nat, end: nat, k: KeyView) -> bool {
    exists|j: int|
        from <= j < end && j < candidates(v.h2).len() && may_go_by(
                v,
                Some(#[trigger] candidates(v.h2)[j]),
            ) && k == key_for(v.parts, candidates(v.h2)[j])
}

/// Where a look ends: behind the candidate that was found, or behind the last.
pub open spec fn look_end<I>(v: RunView, pool: Pool<I>) -> nat {
    match first_from(v, pool, v.next) {
        Some(i) => i + 1,
        None => candidates(v.h2).len(),
    }
}

/// Whether HTTP/2 is offered on a new connection.
pub open spec fn offers_h2(v: RunView) -> bool {
    v.h2 && v.admits.http2
}

/// Whether the connection of a request is to be shared: connections are, and
/// HTTP/2 was agreed on.
pub open spec fn to_be_shared(v: RunView) -> bool {
    v.shares && v.stage == Stage::Handshaking(Some(Protocol::H2))
}

/// A connection that is shared from now on, as it waits for others.
pub open spec fn shared_from<I>(slot: u64, now: Duration, cfg: PoolConfig) -> Idle<I> {
    Idle { est: Established::Shared(slot), expires_at: sum_of(now, cfg.idle_timeout) }
}

/// Whether a connection that goes back to the pool goes back to where it came
/// from, for one idle timeout; it goes nowhere without a pool.
pub open spec fn goes_back(
    checkin: Option<CheckIn>,
    config: Option<PoolConfig>,
    key: KeyView,
    now: Duration,
) -> bool {
    match config {
        Some(cfg) => checkin matches Some(c) && c.to() == key && c.until() == sum_of(
            now,
            cfg.idle_timeout,
        ),
        None => checkin is None,
    }
}

/// Where a connection goes back to once its request is over.
pub fn checkin_for<I>(pool: &Pool<I>, key: PoolKey, now: Duration) -> (r: Option<CheckIn>)
    ensures
        goes_back(r, pool.cfg(), key@, now),
{
    match pool.config() {
        Some(cfg) => Some(CheckIn::new(key, now.saturating_add(cfg.idle_timeout))),
        None => None,
    }
}

/// Nothing but the wait for connections has changed in a pool.
pub open spec fn same_buckets<I>(a: Pool<I>, b: Pool<I>) -> bool {
    &&& a.cfg() == b.cfg()
    &&& forall|k: KeyView| #[trigger] a.bucket(k) == b.bucket(k)
}

/// Nothing about the wait for connections has changed in a pool.
pub open spec fn same_waits<I>(a: Pool<I>, b: Pool<I>) -> bool {
    &&& a.cfg() == b.cfg()
    &&& forall|k: KeyView| #[trigger] a.waiting(k) == b.waiting(k)
}

/// Who is woken where the request that makes a shared connection is done with
/// that.
pub open spec fn woken_by<I>(v: RunView, pool: Pool<I>) -> Seq<u64> {
    if v.guard {
        match pool.waiting(key_for(v.parts, Protocol::H2)) {
            Some(w) => w,
            None => Seq::empty(),
        }
    } else {
        Seq::empty()
    }
}

/// The wait for a shared connection is over where this request was making it,
/// and nothing else has changed.
pub open spec fn let_go<I>(v: RunView, before: Pool<I>, after: Pool<I>) -> bool {
    let shared = key_for(v.parts, Protocol::H2);
    &&& v.guard ==> after.waiting(shared) is None
    &&& forall|k: KeyView| !(v.guard && k == shared) ==> #[trigger] after.waiting(k)
        == before.waiting(k)
}

/// A request that is started. `free` says whether no other request is making
/// a connection for the key under which this one's would be shared.
pub open spec fn started(
    parts: PartsView,
    versions: Versions,
    reports_alpn: bool,
    shares: bool,
    admits: Admits,
    bound: Option<Duration>,
    now: Duration,
    free: bool,
) -> RunView {
    let h2 = may_h2(versions, parts.security, reports_alpn);
    RunView {
        parts,
        admits,
        h1: versions.h1,
        h2,
        shares,
        budget: bound,
        now,
        guard: shares && h2 && free,
        next: 0,
        stage: if shares && h2 && !free {
            Stage::Waiting
        } else {
            Stage::Searching
        },
    }
}

/// A request whose wait for another one's connection took so long.
pub open spec fn waited_for(v: RunView, d: Duration, free: bool) -> RunView {
    RunView {
        budget: match v.budget {
            Some(b) => Some(rest_of(b, d)),
            None => None,
        },
        guard: free,
        stage: Stage::Searching,
        ..v
    }
}

/// What follows an exchange on a pooled connection.
pub open spec fn after_pooled(v: RunView, outcome: Outcome) -> (RunView, Next) {
    match outcome {
        Outcome::Answered => (RunView { stage: Stage::Over, ..v }, Next::Head),
        Outcome::NotSent(_) => (
            RunView { next: v.next + 1, stage: Stage::Searching, ..v },
            Next::Search,
        ),
        Outcome::Failed(e) => (RunView { stage: Stage::Over, ..v }, Next::Fail(e)),
    }
}

/// What follows an exchange on a new connection.
pub open spec fn after_fresh(outcome: Outcome) -> Next {
    match outcome {
        Outcome::Answered => Next::Head,
        Outcome::NotSent(e) => Next::Fail(e),
        Outcome::Failed(e) => Next::Fail(e),
    }
}

/// What a new connection whose handshake reported this is used by, where it is
/// used.
pub open spec fn agreed(v: RunView, alpn: Option<Seq<u8>>) -> Option<Option<Protocol>> {
    let p = negotiated(alpn, offers_h2(v));
    if may_go_by(v, p) {
        Some(p)
    } else {
        None
    }
}

impl Run {
    /// It is in order.
    pub open spec fn wf(self) -> bool {
        in_order(self@)
    }

    /// Whether it may go by a protocol.
    fn may_go(&self, protocol: Option<Protocol>) -> (r: bool)
        ensures
            r == may_go_by(self@, protocol),
    {
        protocol_admissible(self.admits, protocol) && (self.h1 || is_h2(protocol))
    }

    /// Start a request.
    ///
    /// Plain `http` needs HTTP/1.1, and so does a request that cannot go by
    /// HTTP/2; where HTTP/1.1 is not spoken, either is refused. Where connections are shared, the request
    /// makes its own only if no other is making one for its key; the second
    /// part of the result says that it has to wait.
    pub fn start<I>(
        parts: KeyParts,
        versions: Versions,
        reports_alpn: bool,
        share_h2: bool,
        admits: Admits,
        bound: Option<Duration>,
        now: Duration,
        pool: &mut Pool<I>,
    ) -> (r: Result<(Self, bool), Error>)
        requires
            old(pool).wf(),
        ensures
            final(pool).wf(),
            same_buckets(*final(pool), *old(pool)),
            match r {
                Ok((run, wait)) => {
                    let h2 = may_h2(versions, parts.security, reports_alpn);
                    let shares = share_h2 && old(pool).cfg() is Some;
                    let shared = key_for(parts@, Protocol::H2);
                    let free = old(pool).waiting(shared) is None;
                    &&& versions.h1 || h2 && admits.http2
                    &&& run.wf()
                    &&& wait == (run@.stage == Stage::Waiting)
                    &&& run@ == started(
                        parts@,
                        versions,
                        reports_alpn,
                        shares,
                        admits,
                        bound,
                        now,
                        free,
                    )
                    &&& run@.guard ==> final(pool).waiting(shared) == Some(Seq::<u64>::empty())
                    &&& forall|k: KeyView| !(run@.guard && k == shared) ==> #[trigger] final(pool).waiting(k) == old(pool).waiting(k)
                },
                Err(e) => {
                    &&& !versions.h1
                    &&& !(may_h2(versions, parts.security, reports_alpn) && admits.http2)
                    &&& e.kind == ErrorKind::Unsupported
                    &&& *e.source == if parts.security is Plaintext {
                        Source::PlaintextNeedsHttp1(PlaintextNeedsHttp1)
                    } else {
                        Source::NeedsHttp1(NeedsHttp1)
                    }
                    &&& same_waits(*final(pool), *old(pool))
                },
            },
    {
        let plain = match parts.security {
            Security::Plaintext => true,
            Security::Tls(_) => false,
        };
        if !versions.h1 && plain {
            return Err(
                Error::new(
                    ErrorKind::Unsupported,
                    Source::PlaintextNeedsHttp1(PlaintextNeedsHttp1),
                ),
            );
        }
        let h2 = may_speak_h2(versions, parts.security, reports_alpn);
        if !versions.h1 && !(h2 && admits.http2) {
            return Err(Error::new(ErrorKind::Unsupported, Source::NeedsHttp1(NeedsHttp1)));
        }
        let shares = share_h2 && pool.config().is_some();
        let mut guard = false;
        let mut stage = Stage::Searching;
        if shares && h2 {
            guard = pool.begin_connect(&parts.key(Protocol::H2));
            if !guard {
                stage = Stage::Waiting;
            }
        }
        let wait = shares && h2 && !guard;
        Ok(
            (
                Run {
                    parts,
                    admits,
                    h1: versions.h1,
                    h2,
                    shares,
                    budget: bound,
                    now,
                    guard,
                    next: 0,
                    stage,
                },
                wait,
            ),
        )
    }

    /// The other request's connection was made or given up after `waited`, or
    /// the bound passed first, which fails this request. What was waited is
    /// gone from the bound.
    pub fn waited<I>(&mut self, pool: &mut Pool<I>, waited: Option<Duration>) -> (r: Result<
        (),
        Error,
    >)
        requires
            old(pool).wf(),
            old(self).wf(),
            old(self)@.stage == Stage::Waiting,
            waited is None ==> old(self)@.budget is Some,
        ensures
            final(pool).wf(),
            final(self).wf(),
            same_buckets(*final(pool), *old(pool)),
            match waited {
                Some(d) => {
                    let shared = key_for(old(self)@.parts, Protocol::H2);
                    let free = old(pool).waiting(shared) is None;
                    &&& r is Ok
                    &&& final(self)@ == waited_for(old(self)@, d, free)
                    &&& free ==> final(pool).waiting(shared) == Some(Seq::<u64>::empty())
                    &&& forall|k: KeyView| !(free && k == shared) ==> #[trigger] final(pool).waiting(k) == old(pool).waiting(k)
                },
                None => {
                    &&& r == Err::<(), Error>(connect_timeout(old(self)@.budget->0))
                    &&& final(self)@ == (RunView { stage: Stage::Over, ..old(self)@ })
                    &&& same_waits(*final(pool), *old(pool))
                },
            },
    {
        match waited {
            Some(d) => {
                self.budget = crate::bounds::budget_after(self.budget, d);
                self.guard = pool.begin_connect(&self.parts.key(Protocol::H2));
                self.stage = Stage::Searching;
                Ok(())
            },
            None => {
                self.stage = Stage::Over;
                let bound = self.budget.unwrap();
                Err(
                    Error::new(
                        ErrorKind::Timeout(Phase::Connect),
                        Source::ConnectTimedOut(ConnectTimedOut(bound)),
                    ),
                )
            },
        }
    }

    /// Look into the pool, at the candidates that were not looked at yet.
    pub fn search<I>(&mut self, pool: &mut Pool<I>) -> (r: Found<I>)
        requires
            old(pool).wf(),
            old(self).wf(),
            old(self)@.stage == Stage::Searching,
        ensures
            final(pool).wf(),
            final(self).wf(),
            same_waits(*final(pool), *old(pool)),
            match first_from(old(self)@, *old(pool), old(self)@.next) {
                Some(i) => {
                    &&& i < candidates(old(self)@.h2).len()
                    &&& final(self)@ == (RunView { next: i, stage: Stage::Checking, ..old(self)@ })
                    &&& r == Found::Pooled(
                        handed_out(
                            old(pool).bucket(
                                key_for(old(self)@.parts, candidates(old(self)@.h2)[i as int]),
                            ),
                            old(self)@.now,
                        )->0,
                    )
                },
                None => {
                    &&& final(self)@ == (RunView {
                        next: candidates(old(self)@.h2).len(),
                        stage: Stage::Connecting,
                        ..old(self)@
                    })
                    &&& r == Found::<I>::Connect {
                        offer: offer_for(offers_h2(old(self)@), old(self)@.h1),
                        budget: old(self)@.budget,
                    }
                },
            },
            forall|k: KeyView| #[trigger]
                final(pool).bucket(k) == if looks_at(
                    old(self)@,
                    old(self)@.next,
                    look_end(old(self)@, *old(pool)),
                    k,
                ) {
                    left_behind(old(pool).bucket(k), old(self)@.now, old(pool).cfg())
                } else {
                    old(pool).bucket(k)
                },
    {
        let ghost v = self@;
        let ghost before = *pool;
        let cs = pooled_candidates(self.h2);
        while self.next < cs.len()
            invariant
                cs@ == candidates(v.h2),
                v == old(self)@,
                before == *old(pool),
                pool.wf(),
                self@ == (RunView { next: self.next as nat, ..v }),
                v.next <= self.next <= cs@.len(),
                v.stage == Stage::Searching,
                same_waits(*pool, before),
                first_from(v, before, v.next) == first_from(v, before, self.next as nat),
                forall|k: KeyView| #[trigger]
                    pool.bucket(k) == if looks_at(v, v.next, self.next as nat, k) {
                        left_behind(before.bucket(k), v.now, before.cfg())
                    } else {
                        before.bucket(k)
                    },
            decreases cs@.len() - self.next,
        {
            let p = cs[self.next];
            let ghost i = self.next as nat;
            let ghost k0 = key_for(v.parts, p);
            let ghost mid = *pool;
            proof {
                lemma_keys_of_candidates(v, i);
                assert(candidates(v.h2)[i as int] == p);
            }
            if self.may_go(Some(p)) {
                proof {
                    assert(!looks_at(v, v.next, i, k0));
                    assert(pool.bucket(k0) == before.bucket(k0));
                }
                let key = self.parts.key(p);
                let taken = pool.take(&key, self.now);
                proof {
                    assert forall|k: KeyView| #[trigger] pool.bucket(k) == if looks_at(
                        v,
                        v.next,
                        i + 1,
                        k,
                    ) {
                        left_behind(before.bucket(k), v.now, before.cfg())
                    } else {
                        before.bucket(k)
                    } by {
                        lemma_looks_further(v, v.next, i, k);
                        if k != k0 {
                            assert(pool.bucket(k) == mid.bucket(k));
                        }
                    }
                }
                if let Some(est) = taken {
                    self.stage = Stage::Checking;
                    proof {
                        assert(at_hand(v, before, i));
                        assert(first_from(v, before, i) == Some(i));
                    }
                    return Found::Pooled(est);
                }
                assert(!at_hand(v, before, i));
            } else {
                proof {
                    assert(!at_hand(v, before, i));
                    assert forall|k: KeyView| #[trigger] pool.bucket(k) == if looks_at(
                        v,
                        v.next,
                        i + 1,
                        k,
                    ) {
                        left_behind(before.bucket(k), v.now, before.cfg())
                    } else {
                        before.bucket(k)
                    } by {
                        lemma_looks_further(v, v.next, i, k);
                    }
                }
            }
            self.next = self.next + 1;
        }
        self.stage = Stage::Connecting;
        let offers = self.h2 && self.admits.http2;
        let offer = if offers {
            if self.h1 {
                Offer::H2AndHttp11
            } else {
                Offer::H2
            }
        } else {
            Offer::Http11
        };
        Found::Connect { offer, budget: self.budget }
    }

    /// The pooled connection at hand has gone stale: it is not put back, and a
    /// shared one leaves the pool. The same candidate is looked at again.
    pub fn stale<I>(&mut self, pool: &mut Pool<I>, est: &Established<I>)
        requires
            old(pool).wf(),
            old(self).wf(),
            old(self)@.stage == Stage::Checking,
        ensures
            final(pool).wf(),
            final(self).wf(),
            final(self)@ == (RunView { stage: Stage::Searching, ..old(self)@ }),
            same_waits(*final(pool), *old(pool)),
            ({
                let key = key_for(
                    old(self)@.parts,
                    candidates(old(self)@.h2)[old(self)@.next as int],
                );
                forall|k: KeyView| #[trigger]
                    final(pool).bucket(k) == match *est {
                        Established::Shared(slot) => if k == key {
                            without_slot(old(pool).bucket(k), slot)
                        } else {
                            old(pool).bucket(k)
                        },
                        Established::Sole(_) => old(pool).bucket(k),
                    }
            }),
    {
        let cs = pooled_candidates(self.h2);
        if let Established::Shared(slot) = est {
            let key = self.parts.key(cs[self.next]);
            pool.forget_shared(&key, *slot);
        }
        self.stage = Stage::Searching;
    }

    /// Let go of the making of a shared connection, where this request has
    /// it: everyone who waits for it is to be woken.
    fn release<I>(&mut self, pool: &mut Pool<I>) -> (woken: Vec<u64>)
        requires
            old(pool).wf(),
            old(self).wf(),
        ensures
            final(pool).wf(),
            final(self).wf(),
            final(self)@ == (RunView { guard: false, ..old(self)@ }),
            same_buckets(*final(pool), *old(pool)),
            let_go(old(self)@, *old(pool), *final(pool)),
            woken@ == woken_by(old(self)@, *old(pool)),
    {
        if self.guard {
            self.guard = false;
            pool.finish_connect(&self.parts.key(Protocol::H2))
        } else {
            let none: Vec<u64> = Vec::new();
            assert(none@ =~= Seq::<u64>::empty());
            none
        }
    }

    /// The pooled connection at hand can be used. Where it goes back to
    /// afterwards, which is nowhere for a shared one because that never left,
    /// who is woken because this request makes no connection after all, and
    /// the version that is spoken on it.
    pub fn reuse<I>(&mut self, pool: &mut Pool<I>, est: &Established<I>) -> (r: (
        Option<CheckIn>,
        Vec<u64>,
        Version,
    ))
        requires
            old(pool).wf(),
            old(self).wf(),
            old(self)@.stage == Stage::Checking,
        ensures
            final(pool).wf(),
            final(self).wf(),
            final(self)@ == (RunView { guard: false, stage: Stage::Pooled, ..old(self)@ }),
            same_buckets(*final(pool), *old(pool)),
            let_go(old(self)@, *old(pool), *final(pool)),
            match *est {
                Established::Sole(_) => goes_back(
                    r.0,
                    old(pool).cfg(),
                    key_for(old(self)@.parts, candidates(old(self)@.h2)[old(self)@.next as int]),
                    old(self)@.now,
                ),
                Established::Shared(_) => r.0 is None,
            },
            r.1@ == woken_by(old(self)@, *old(pool)),
            r.2 == version_of(Some(candidates(old(self)@.h2)[old(self)@.next as int])),
    {
        let cs = pooled_candidates(self.h2);
        let p = cs[self.next];
        let checkin = match est {
            Established::Sole(_) => checkin_for(pool, self.parts.key(p), self.now),
            Established::Shared(_) => None,
        };
        let woken = self.release(pool);
        self.stage = Stage::Pooled;
        (checkin, woken, spoken_version(Some(p)))
    }

    /// The exchange on a pooled connection is over. Where nothing was sent,
    /// the request goes on to the next candidate.
    pub fn pooled_done(&mut self, outcome: Outcome) -> (r: Next)
        requires
            old(self).wf(),
            old(self)@.stage == Stage::Pooled,
        ensures
            final(self).wf(),
            (final(self)@, r) == after_pooled(old(self)@, outcome),
    {
        match outcome {
            Outcome::Answered => {
                self.stage = Stage::Over;
                Next::Head
            },
            Outcome::NotSent(_) => {
                self.next = self.next + 1;
                self.stage = Stage::Searching;
                Next::Search
            },
            Outcome::Failed(e) => {
                self.stage = Stage::Over;
                Next::Fail(e)
            },
        }
    }

    /// The new connection is there, and its handshake reported this; or it is
    /// not. A protocol that the request does not admit fails it with
    /// `mismatch`, and so does any but HTTP/2 where HTTP/1.1 is not spoken.
    pub fn connected(
        &mut self,
        outcome: Result<Option<Vec<u8>>, Error>,
        mismatch: Error,
    ) -> (r: Result<Option<Protocol>, Error>)
        requires
            old(self).wf(),
            old(self)@.stage == Stage::Connecting,
        ensures
            final(self).wf(),
            match outcome {
                Ok(alpn) => {
                    match agreed(
                        old(self)@,
                        match alpn {
                            Some(name) => Some(name@),
                            None => None,
                        },
                    ) {
                        Some(p) => {
                            &&& r == Ok::<Option<Protocol>, Error>(p)
                            &&& final(self)@ == (RunView {
                                stage: Stage::Handshaking(p),
                                ..old(self)@
                            })
                        },
                        None => {
                            &&& r == Err::<Option<Protocol>, Error>(mismatch)
                            &&& final(self)@ == (RunView { stage: Stage::Over, ..old(self)@ })
                        },
                    }
                },
                Err(e) => {
                    &&& r == Err::<Option<Protocol>, Error>(e)
                    &&& final(self)@ == (RunView { stage: Stage::Over, ..old(self)@ })
                },
            },
    {
        match outcome {
            Ok(alpn) => {
                let offered = self.h2 && self.admits.http2;
                let p = match &alpn {
                    Some(name) => negotiated_protocol(Some(name.as_slice()), offered),
                    None => negotiated_protocol(None, offered),
                };
                if self.may_go(p) {
                    self.stage = Stage::Handshaking(p);
                    Ok(p)
                } else {
                    self.stage = Stage::Over;
                    Err(mismatch)
                }
            },
            Err(e) => {
                self.stage = Stage::Over;
                Err(e)
            },
        }
    }

    /// Whether the connection whose protocol was agreed on is to be shared.
    pub fn wants_sharing(&self) -> (r: bool)
        ensures
            r == to_be_shared(self@),
    {
        match self.stage {
            Stage::Handshaking(Some(Protocol::H2)) => self.shares,
            _ => false,
        }
    }

    /// The new connection speaks its protocol. One that is shared is put into
    /// the pool at once, for the others, and need not come back to it; another
    /// comes back once its request is over, where a protocol was agreed on.
    /// Only a connection that is wanted for sharing is shared.
    pub fn established<I>(&mut self, pool: &mut Pool<I>, shared: Option<u64>) -> (r: (
        Option<CheckIn>,
        Vec<u64>,
    ))
        requires
            old(pool).wf(),
            old(self).wf(),
            old(self)@.stage is Handshaking,
            shared is Some ==> to_be_shared(old(self)@),
        ensures
            final(pool).wf(),
            final(self).wf(),
            final(self)@ == (RunView { guard: false, stage: Stage::Fresh, ..old(self)@ }),
            final(pool).cfg() == old(pool).cfg(),
            let_go(old(self)@, *old(pool), *final(pool)),
            r.1@ == woken_by(old(self)@, *old(pool)),
            ({
                let key = key_for(old(self)@.parts, Protocol::H2);
                match (shared, old(pool).cfg()) {
                    (Some(slot), Some(cfg)) => {
                        &&& r.0 is None
                        &&& final(pool).bucket(key) == put_back(
                            old(pool).bucket(key),
                            shared_from(slot, old(self)@.now, cfg),
                            old(pool).cfg(),
                        )
                        &&& forall|k: KeyView| k != key ==> #[trigger] final(pool).bucket(k)
                            == old(pool).bucket(k)
                    },
                    _ => {
                        &&& same_buckets(*final(pool), *old(pool))
                        &&& match old(self)@.stage->Handshaking_0 {
                            Some(p) => goes_back(
                                r.0,
                                old(pool).cfg(),
                                key_for(old(self)@.parts, p),
                                old(self)@.now,
                            ),
                            None => r.0 is None,
                        }
                    },
                }
            }),
    {
        let protocol = match self.stage {
            Stage::Handshaking(p) => p,
            _ => None,
        };
        let mut checkin: Option<CheckIn> = match protocol {
            Some(p) => checkin_for(pool, self.parts.key(p), self.now),
            None => None,
        };
        let ghost before = *pool;
        if let (Some(slot), Some(cfg)) = (shared, pool.config()) {
            pool.put(
                self.parts.key(Protocol::H2),
                Established::Shared(slot),
                self.now.saturating_add(cfg.idle_timeout),
            );
            checkin = None;
        }
        let ghost mid = *pool;
        proof {
            assert(same_waits(mid, before));
        }
        let woken = self.release(pool);
        proof {
            let shared_key = key_for(old(self)@.parts, Protocol::H2);
            assert forall|k: KeyView|
                !(old(self)@.guard && k == shared_key) implies #[trigger] pool.waiting(k)
                == before.waiting(k) by {
                assert(mid.waiting(k) == before.waiting(k));
            }
            assert(mid.waiting(shared_key) == before.waiting(shared_key));
        }
        self.stage = Stage::Fresh;
        (checkin, woken)
    }

    /// The exchange on a new connection is over, and with it the request.
    pub fn fresh_done(&mut self, outcome: Outcome) -> (r: Next)
        requires
            old(self).wf(),
            old(self)@.stage == Stage::Fresh,
        ensures
            final(self).wf(),
            final(self)@ == (RunView { stage: Stage::Over, ..old(self)@ }),
            r == after_fresh(outcome),
    {
        self.stage = Stage::Over;
        match outcome {
            Outcome::Answered => Next::Head,
            Outcome::NotSent(e) => Next::Fail(e),
            Outcome::Failed(e) => Next::Fail(e),
        }
    }

    /// The request ends, wherever it is: whoever waits for its connection is
    /// to be woken.
    pub fn abandon<I>(&mut self, pool: &mut Pool<I>) -> (woken: Vec<u64>)
        requires
            old(pool).wf(),
            old(self).wf(),
        ensures
            final(pool).wf(),
            final(self).wf(),
            final(self)@ == (RunView { guard: false, stage: Stage::Over, ..old(self)@ }),
            same_buckets(*final(pool), *old(pool)),
            let_go(old(self)@, *old(pool), *final(pool)),
            woken@ == woken_by(old(self)@, *old(pool)),
    {
        let woken = self.release(pool);
        self.stage = Stage::Over;
        woken
    }
}

/// The candidates before one have other keys.
proof fn lemma_keys_of_candidates(v: RunView, i: nat)
    requires
        i < candidates(v.h2).len(),
    ensures
        forall|j: int|
            0 <= j < i ==> key_for(v.parts, #[trigger] candidates(v.h2)[j]) != key_for(
                v.parts,
                candidates(v.h2)[i as int],
            ),
{
    assert forall|j: int| 0 <= j < i implies key_for(v.parts, #[trigger] candidates(v.h2)[j])
        != key_for(v.parts, candidates(v.h2)[i as int]) by {
        assert(candidates(v.h2)[j] != candidates(v.h2)[i as int]);
        assert(key_for(v.parts, candidates(v.h2)[j]).protocol == candidates(v.h2)[j]);
    }
}

/// What a look that goes one candidate further goes through.
proof fn lemma_looks_further(v: RunView, from: nat, i: nat, k: KeyView)
    requires
        from <= i < candidates(v.h2).len(),
    ensures
        looks_at(v, from, i + 1, k) <==> looks_at(v, from, i, k) || (may_go_by(
            v,
            Some(candidates(v.h2)[i as int]),
        ) && k == key_for(v.parts, candidates(v.h2)[i as int])),
{
    if looks_at(v, from, i + 1, k) {
        let j = choose|j: int|
            from <= j < i + 1 && j < candidates(v.h2).len() && may_go_by(
                v,
                Some(#[trigger] candidates(v.h2)[j]),
            ) && k == key_for(v.parts, candidates(v.h2)[j]);
        if j < i {
            assert(looks_at(v, from, i, k));
        }
    }
    if looks_at(v, from, i, k) {
        let j = choose|j: int|
            from <= j < i && j < candidates(v.h2).len() && may_go_by(
                v,
                Some(#[trigger] candidates(v.h2)[j]),
            ) && k == key_for(v.parts, candidates(v.h2)[j]);
        assert(from <= j < i + 1);
    }
    if may_go_by(v, Some(candidates(v.h2)[i as int])) && k == key_for(
        v.parts,
        candidates(v.h2)[i as int],
    ) {
        assert(from <= i < i + 1);
    }
}

// ---------------------------------------------------------------------------
// What holds of it all
// ---------------------------------------------------------------------------

/// A look finds the first candidate that the request can be sent by and the
/// pool has a connection for, and finds none only where there is none.
pub proof fn law_search_finds_the_first<I>(v: RunView, pool: Pool<I>, i: nat)
    ensures
        match first_from(v, pool, i) {
            Some(f) => i <= f < candidates(v.h2).len() && at_hand(v, pool, f) && forall|j: nat|
                i <= j < f ==> !at_hand(v, pool, j),
            None => forall|j: nat| i <= j < candidates(v.h2).len() ==> !at_hand(v, pool, j),
        },
    decreases candidates(v.h2).len() - i,
{
    if i < candidates(v.h2).len() && !at_hand(v, pool, i) {
        law_search_finds_the_first(v, pool, i + 1);
    }
}

/// HTTP/2 comes of a handshake only where it was offered, and it is offered
/// only to a request that admits it.
pub proof fn law_h2_only_where_offered(v: RunView, alpn: Option<Seq<u8>>)
    ensures
        negotiated(alpn, offers_h2(v)) == Some(Protocol::H2) ==> offers_h2(v) && v.admits.http2,
        offer_for(offers_h2(v), v.h1) != Offer::Http11 ==> v.admits.http2 && v.h2,
{
}

/// A backend that reports nothing, and one that reports HTTP/1.1, are taken
/// alike; anything that was not offered is no protocol and is not kept for
/// another request.
pub proof fn law_unknown_protocol_is_none(name: Seq<u8>, offered_h2: bool)
    ensures
        negotiated(None, offered_h2) == negotiated(Some(alpn_http11()), offered_h2),
        name != alpn_http11() && name != alpn_h2() ==> negotiated(Some(name), offered_h2) is None,
        !offered_h2 && name != alpn_http11() ==> negotiated(Some(name), offered_h2) is None,
{
}

/// Where HTTP/1.1 is off it is never spoken: it is not offered, no connection
/// that speaks it is taken from the pool, and none that agreed on it or on
/// nothing is used.
pub proof fn law_http1_is_never_spoken_where_it_is_off<I>(v: RunView, pool: Pool<I>)
    requires
        in_order(v),
        !v.h1,
    ensures
        offered_names(offer_for(offers_h2(v), v.h1)) == seq![alpn_h2()],
        forall|i: nat| #[trigger]
            at_hand(v, pool, i) ==> candidates(v.h2)[i as int] == Protocol::H2,
        forall|p: Option<Protocol>| #[trigger]
            may_go_by(v, p) ==> p == Some(Protocol::H2) && version_of(p) == Version::Http2,
        match v.stage {
            Stage::Checking | Stage::Pooled => candidates(v.h2)[v.next as int] == Protocol::H2,
            Stage::Handshaking(p) => p == Some(Protocol::H2),
            _ => true,
        },
{
}

/// Connections of two protocols are never looked for under one key, and
/// neither are an encrypted and a plain one, those of two configurations, or
/// those to hosts or through proxies that differ in more than case.
pub proof fn law_keys_follow_the_parts(a: PartsView, b: PartsView, p: Protocol, q: Protocol)
    requires
        key_for(a, p) == key_for(b, q),
    ensures
        p == q,
        a.security == b.security,
        a.port == b.port,
        lower(a.host) == lower(b.host),
        match (a.proxy, b.proxy) {
            (Some(x), Some(y)) => lower(x) == lower(y),
            (None, None) => true,
            _ => false,
        },
{
}

/// `unix:` in front of a path takes nothing from what tells paths apart.
proof fn lemma_unix_paths(p: Seq<char>, q: Seq<char>)
    requires
        lower("unix:"@ + p) == lower("unix:"@ + q),
    ensures
        lower(p) == lower(q),
{
    let n = "unix:"@.len() as int;
    let a = lower("unix:"@ + p);
    let b = lower("unix:"@ + q);
    assert(a.len() == n + p.len());
    assert(b.len() == n + q.len());
    assert(lower(p) =~= a.skip(n)) by {
        assert forall|i: int| 0 <= i < p.len() implies lower(p)[i] == #[trigger] a.skip(n)[i] by {
            assert(("unix:"@ + p)[n + i] == p[i]);
        }
    }
    assert(lower(q) =~= b.skip(n)) by {
        assert forall|i: int| 0 <= i < q.len() implies lower(q)[i] == #[trigger] b.skip(n)[i] by {
            assert(("unix:"@ + q)[n + i] == q[i]);
        }
    }
}

/// Two requests look for connections under one key only where their targets
/// have the same port, are both encrypted or both not, under one configuration
/// where they are, name hosts that differ in case alone, and are reached by
/// the same way up to case; and two such requests always do.
pub proof fn law_one_key_is_one_target(
    t: Target,
    u: Target,
    identity: Option<u64>,
    other: Option<u64>,
    default: u64,
    unix_socket: Option<Seq<char>>,
    chosen: Option<Seq<char>>,
    also: Option<Seq<char>>,
    p: Protocol,
    q: Protocol,
)
    ensures
        key_for(parts_of(t, identity, default, unix_socket, chosen), p) == key_for(
            parts_of(u, other, default, unix_socket, also),
            q,
        ) <==> {
            &&& p == q
            &&& t.port == u.port
            &&& t.use_tls == u.use_tls
            &&& lower(t.host@) == lower(u.host@)
            &&& t.use_tls ==> (match identity {
                Some(id) => id,
                None => default,
            }) == (match other {
                Some(id) => id,
                None => default,
            })
            &&& unix_socket is None ==> match (chosen, also) {
                (Some(x), Some(y)) => lower(x) == lower(y),
                (None, None) => true,
                _ => false,
            }
        },
{
}

/// Connections through two Unix sockets, and through one and none, are kept
/// apart, whatever the proxies.
pub proof fn law_one_key_is_one_socket(
    t: Target,
    identity: Option<u64>,
    default: u64,
    path: Seq<char>,
    other: Seq<char>,
    chosen: Option<Seq<char>>,
    p: Protocol,
)
    ensures
        key_for(parts_of(t, identity, default, Some(path), chosen), p) == key_for(
            parts_of(t, identity, default, Some(other), chosen),
            p,
        ) ==> lower(path) == lower(other),
        key_for(parts_of(t, identity, default, Some(path), chosen), p) != key_for(
            parts_of(t, identity, default, None, None),
            p,
        ),
        parts_of(t, identity, default, Some(path), chosen).proxy == Some("unix:"@ + path),
{
    if lower("unix:"@ + path) == lower("unix:"@ + other) {
        lemma_unix_paths(path, other);
    }
}

/// The body of a request is held back exactly where a time for that is
/// configured and one of its `Expect` fields, the first, the last or any other,
/// is `100-continue` in whatever case.
pub proof fn law_any_field_holds_the_body_back(
    after: Option<Duration>,
    before: Seq<Seq<u8>>,
    field: Seq<u8>,
    behind: Seq<Seq<u8>>,
)
    ensures
        lower_octets(field) == seq![
            0x31u8, 0x30, 0x30, 0x2d, 0x63, 0x6f, 0x6e, 0x74, 0x69, 0x6e, 0x75, 0x65,
        ] ==> held_back(after, before + seq![field] + behind) == (after is Some),
        lower_octets(field) != seq![
            0x31u8, 0x30, 0x30, 0x2d, 0x63, 0x6f, 0x6e, 0x74, 0x69, 0x6e, 0x75, 0x65,
        ] ==> held_back(after, before + seq![field] + behind) == held_back(after, before + behind),
        !held_back(after, Seq::empty()),
{
    let word = seq![0x31u8, 0x30, 0x30, 0x2d, 0x63, 0x6f, 0x6e, 0x74, 0x69, 0x6e, 0x75, 0x65];
    let all = before + seq![field] + behind;
    let n = before.len() as int;
    assert(all[n] == field);
    let less = before + behind;
    if held_back(after, less) {
        let i = choose|i: int| 0 <= i < less.len() && lower_octets(#[trigger] less[i])
            == continue_word();
        if i < n {
            assert(all[i] == less[i]);
        } else {
            assert(all[i + 1] == less[i]);
        }
    }
    if held_back(after, all) && lower_octets(field) != word {
        let i = choose|i: int| 0 <= i < all.len() && lower_octets(#[trigger] all[i])
            == continue_word();
        if i < n {
            assert(less[i] == all[i]);
        } else {
            assert(less[i - 1] == all[i]);
        }
    }
}

/// HTTP/2 may be spoken exactly where it is switched on, the connection is
/// encrypted and the backend says what was agreed on.
pub proof fn law_where_http2_may_be_spoken(
    versions: Versions,
    security: Security,
    reports_alpn: bool,
)
    ensures
        may_h2(versions, security, reports_alpn) ==> versions.h2 && security != Security::Plaintext
            && reports_alpn,
        versions.h2 && security != Security::Plaintext && reports_alpn ==> may_h2(
            versions,
            security,
            reports_alpn,
        ),
{
}

/// A pooled connection is looked for by HTTP/1.1 always and last, and by
/// HTTP/2 exactly where that may be spoken, and first.
pub proof fn law_http2_is_looked_for_first(h2: bool)
    ensures
        candidates(h2).contains(Protocol::H2) <==> h2,
        candidates(h2).len() > 0,
        candidates(h2).last() == Protocol::Http11,
        h2 ==> candidates(h2)[0] == Protocol::H2,
        forall|i: int, j: int|
            0 <= i < j < candidates(h2).len() ==> candidates(h2)[i] != candidates(h2)[j],
{
    if h2 {
        assert(candidates(h2)[0] == Protocol::H2);
    }
}

/// What is agreed on is what was said: HTTP/1.1 where that is named or nothing
/// is, HTTP/2 where that is named and was offered, and nothing else.
pub proof fn law_what_was_agreed_on(alpn: Option<Seq<u8>>, offered_h2: bool)
    ensures
        negotiated(alpn, offered_h2) == Some(Protocol::Http11) <==> alpn is None || alpn == Some(
            seq![0x68u8, 0x74, 0x74, 0x70, 0x2f, 0x31, 0x2e, 0x31],
        ),
        negotiated(alpn, offered_h2) == Some(Protocol::H2) <==> offered_h2 && alpn == Some(
            seq![0x68u8, 0x32],
        ),
{
    assert(seq![0x68u8, 0x32].len() == 2);
    assert(seq![0x68u8, 0x74, 0x74, 0x70, 0x2f, 0x31, 0x2e, 0x31].len() == 8);
}

/// HTTP/2 is spoken exactly where it was agreed on; a request goes by it where
/// it admits HTTP/2, and by anything else where it admits HTTP/1.1.
pub proof fn law_what_is_spoken(admits: Admits, protocol: Option<Protocol>)
    ensures
        version_of(protocol) == Version::Http2 <==> protocol == Some(Protocol::H2),
        version_of(protocol) == Version::Http11 <==> protocol != Some(Protocol::H2),
        admitted(admits, Some(Protocol::H2)) == admits.http2,
        protocol != Some(Protocol::H2) ==> admitted(admits, protocol) == admits.http11,
{
}

/// HTTP/2 is offered exactly where it may be spoken and the request admits it,
/// and before HTTP/1.1, which is offered exactly where it is on or HTTP/2 is
/// not offered; nothing else is offered.
pub proof fn law_what_is_offered(v: RunView, name: Seq<u8>)
    ensures
        ({
            let offer = offered_names(offer_for(offers_h2(v), v.h1));
            let h2 = seq![0x68u8, 0x32];
            let http11 = seq![0x68u8, 0x74, 0x74, 0x70, 0x2f, 0x31, 0x2e, 0x31];
            &&& offer.len() > 0
            &&& offer.contains(h2) <==> v.h2 && v.admits.http2
            &&& offer.contains(http11) <==> v.h1 || !(v.h2 && v.admits.http2)
            &&& offer.contains(name) ==> name == h2 || name == http11
            &&& offer.contains(h2) ==> offer[0] == h2
        }),
{
    let offer = offered_names(offer_for(offers_h2(v), v.h1));
    let h2 = seq![0x68u8, 0x32];
    let http11 = seq![0x68u8, 0x74, 0x74, 0x70, 0x2f, 0x31, 0x2e, 0x31];
    assert(h2.len() == 2 && http11.len() == 8);
    assert(alpn_h2() == h2);
    assert(alpn_http11() == http11);
    if v.h2 && v.admits.http2 {
        assert(offer[0] == h2);
        if v.h1 {
            assert(offer[1] == http11);
        }
    } else {
        assert(offer[0] == http11);
    }
}

/// A look into the pool goes through connections of the request's own origin,
/// security and way alone.
pub proof fn law_a_look_stays_at_home(v: RunView, from: nat, end: nat, k: KeyView)
    requires
        looks_at(v, from, end, k),
    ensures
        k.port == v.parts.port,
        k.host == lower(v.parts.host),
        k.security == v.parts.security,
        match (k.proxy, v.parts.proxy) {
            (Some(x), Some(y)) => x == lower(y),
            (None, None) => true,
            _ => false,
        },
        k.protocol == Protocol::H2 ==> v.h2 && v.admits.http2,
        k.protocol == Protocol::Http11 ==> v.h1 && v.admits.http11,
{
    let j = choose|j: int|
        from <= j < end && j < candidates(v.h2).len() && may_go_by(
            v,
            Some(#[trigger] candidates(v.h2)[j]),
        ) && k == key_for(v.parts, candidates(v.h2)[j]);
    assert(k == key_for(v.parts, candidates(v.h2)[j]));
}

/// A request waits exactly where HTTP/2 connections are shared, its connection
/// may be one, and another request is making it; it makes that connection
/// itself exactly where no other is; and it never does both.
pub proof fn law_one_request_connects_and_the_others_wait(
    parts: PartsView,
    versions: Versions,
    reports_alpn: bool,
    shares: bool,
    admits: Admits,
    bound: Option<Duration>,
    now: Duration,
    free: bool,
)
    ensures
        ({
            let v = started(parts, versions, reports_alpn, shares, admits, bound, now, free);
            let sharing = shares && versions.h2 && parts.security is Tls && reports_alpn;
            &&& v.stage == Stage::Waiting <==> sharing && !free
            &&& v.guard <==> sharing && free
            &&& v.stage != Stage::Waiting ==> v.stage == Stage::Searching
            &&& v.budget == bound
            &&& v.parts == parts
            &&& v.admits == admits
            &&& v.next == 0
            &&& v.now == now
            &&& v.shares == shares
            &&& v.h1 == versions.h1
        }),
{
}

/// What was waited is gone from the bound, no more and no less, and a request
/// that has waited looks for a connection from the beginning.
pub proof fn law_waiting_is_paid_out_of_the_bound(v: RunView, d: Duration, free: bool)
    ensures
        v.budget is None ==> waited_for(v, d, free).budget is None,
        v.budget matches Some(b) ==> (waited_for(v, d, free).budget matches Some(left) && (d.nanos
            <= b.nanos ==> left.nanos == b.nanos - d.nanos) && (d.nanos > b.nanos ==> left.nanos
            == 0)),
        waited_for(v, d, free).stage == Stage::Searching,
        waited_for(v, d, free).next == v.next,
        waited_for(v, d, free).guard == free,
        waited_for(v, d, free).parts == v.parts,
{
}

/// A pooled connection on which nothing was sent costs a request one candidate
/// and nothing else; an answer is handed out, and every other failure is
/// final and handed on as it is. On a new connection every failure is.
pub proof fn law_only_the_unsent_is_sent_again(v: RunView, outcome: Outcome, e: Error)
    ensures
        after_pooled(v, outcome).1 == Next::Search <==> outcome is NotSent,
        after_pooled(v, outcome).1 == Next::Head <==> outcome is Answered,
        after_pooled(v, Outcome::Failed(e)).1 == Next::Fail(e),
        outcome is NotSent ==> after_pooled(v, outcome).0.next == v.next + 1 && after_pooled(
            v,
            outcome,
        ).0.stage == Stage::Searching,
        after_pooled(v, outcome).0.parts == v.parts,
        after_pooled(v, outcome).0.budget == v.budget,
        after_fresh(outcome) == Next::Head <==> outcome is Answered,
        after_fresh(Outcome::Failed(e)) == Next::Fail(e),
        after_fresh(Outcome::NotSent(e)) == Next::Fail(e),
{
}

/// A new connection is used by HTTP/2 where it was offered and agreed on; by
/// HTTP/1.1 where that or nothing was named, the request admits it and it is
/// spoken; where something else was named it is used as if it were HTTP/1.1
/// and is nobody's afterwards; and else it is not used.
pub proof fn law_how_a_new_connection_is_used(v: RunView, alpn: Option<Seq<u8>>)
    ensures
        agreed(v, alpn) == Some(Some(Protocol::H2)) <==> alpn == Some(seq![0x68u8, 0x32]) && v.h2
            && v.admits.http2,
        agreed(v, alpn) == Some(Some(Protocol::Http11)) <==> (alpn is None || alpn == Some(
            seq![0x68u8, 0x74, 0x74, 0x70, 0x2f, 0x31, 0x2e, 0x31],
        )) && v.admits.http11 && v.h1,
        agreed(v, alpn) is Some && agreed(v, alpn) != Some(Some(Protocol::H2)) ==> v.admits.http11
            && v.h1,
        v.admits.http11 && v.h1 ==> agreed(v, alpn) is Some,
{
    law_what_was_agreed_on(alpn, offers_h2(v));
}

/// Everyone who waits for a connection is woken by the request that makes it,
/// in the order they came, and nobody by any other request; the key is then
/// free, and no other key is touched.
pub proof fn law_everyone_who_waits_is_woken<I>(
    v: RunView,
    before: Pool<I>,
    after: Pool<I>,
    k: KeyView,
)
    ensures
        v.guard ==> (before.waiting(key_for(v.parts, Protocol::H2)) matches Some(w) ==> woken_by(
            v,
            before,
        ) == w),
        !v.guard ==> woken_by(v, before).len() == 0,
        let_go(v, before, after) && v.guard ==> after.waiting(key_for(v.parts, Protocol::H2)) is None,
        let_go(v, before, after) && (!v.guard || k != key_for(v.parts, Protocol::H2))
            ==> after.waiting(k) == before.waiting(k),
{
}

/// Where there is a pool, a connection goes back to it, under the key that it
/// is for and until one idle timeout from now; where there is none, it does
/// not.
pub proof fn law_where_a_connection_goes_back_to(
    checkin: Option<CheckIn>,
    cfg: PoolConfig,
    key: KeyView,
    now: Duration,
)
    requires
        now.nanos + cfg.idle_timeout.nanos <= crate::time::MAX_NANOS,
    ensures
        goes_back(checkin, Some(cfg), key, now) <==> (checkin matches Some(c) && c.to() == key
            && c.until().nanos == now.nanos + cfg.idle_timeout.nanos),
        goes_back(checkin, None, key, now) <==> checkin is None,
{
}

/// A request that names no identity is sent with none, one that names a known
/// one with that one's configuration, and one that names another is not sent.
pub proof fn law_an_identity_is_never_another(name: Option<String>, known: Option<u64>)
    ensures
        name is None ==> configured(name, known) == Some(None::<u64>),
        name is Some && known is Some ==> configured(name, known) == Some(known),
        name is Some && known is None ==> configured(name, known) is None,
{
}

/// A request line is written for a proxy exactly where one was chosen that
/// takes the whole request; a tunnel changes nothing about it.
pub proof fn law_a_tunnel_changes_no_request_line(authorization: Option<Vec<u8>>)
    ensures
        for_a_proxy(Some((Approach::Absolute, authorization))),
        !for_a_proxy(Some((Approach::Tunnel, authorization))),
        !for_a_proxy(None),
{
}

/// A connection that is shared is there for the next request, in its own slot,
/// until an idle timeout has passed since its request started.
pub proof fn law_a_shared_connection_is_there_for_the_next<I>(
    bucket: Seq<Idle<I>>,
    slot: u64,
    now: Duration,
    later: Duration,
    cfg: PoolConfig,
)
    requires
        cfg.max_idle_per_key > 0,
        now.nanos + cfg.idle_timeout.nanos <= crate::time::MAX_NANOS,
        later.nanos < now.nanos + cfg.idle_timeout.nanos,
    ensures
        handed_out(put_back(bucket, shared_from::<I>(slot, now, cfg), Some(cfg)), later) == Some(
            Established::<I>::Shared(slot),
        ),
        shared_from::<I>(slot, now, cfg).expires_at.nanos == now.nanos + cfg.idle_timeout.nanos,
{
    crate::pool::law_last_in_first_out(bucket, shared_from::<I>(slot, now, cfg), cfg, later);
}

/// Only an HTTP/2 connection is ever shared, and only by a transport that
/// shares; and every such connection is.
pub proof fn law_what_is_shared(v: RunView, p: Option<Protocol>)
    ensures
        v.stage == Stage::Handshaking(p) && p == Some(Protocol::H2) && v.shares ==> to_be_shared(v),
        v.stage == Stage::Handshaking(p) && p != Some(Protocol::H2) ==> !to_be_shared(v),
        !v.shares ==> !to_be_shared(v),
        !(v.stage is Handshaking) ==> !to_be_shared(v),
{
}

} // verus!
