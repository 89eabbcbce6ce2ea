//! The transport: how it is configured, and what each request decides.

use vstd::prelude::*;

use crate::altsvc::{after_network_change, AltSvcCache, Held, OriginView};
use crate::caps::{
    combine, disagreement, field_name, field_words, nothing, true_of_both, Capabilities, CapsView,
    RedirectSupport, ReuseSupport, TimeoutSupport, TlsSupport,
};
use crate::discovery::NegativeCache;
use crate::error::{
    Disagreement, Error, ErrorKind, MaxBufSizeTooSmall, NoVersionsLeft, ProxyAndUnixSocket, Source,
    MINIMUM_MAX_BUF_SIZE,
};
use crate::http2::keepalive::H2KeepAlive;
use crate::pool::{Idle, KeyView, Pool, PoolConfig, Reaper};
use crate::time::{secs_of, Duration};

verus! {

/// Which versions of HTTP a transport speaks.
#[derive(Debug, Clone, Copy, PartialEq, Eq, Structural)]
pub struct Versions {
    pub h1: bool,
    pub h2: bool,
    pub h3: bool,
}

impl Default for Versions {
    fn default() -> (r: Self)
        ensures
            r == (Versions { h1: true, h2: true, h3: false }),
    {
        Versions { h1: true, h2: true, h3: false }
    }
}

/// A version of HTTP.
#[derive(Debug, Clone, Copy, PartialEq, Eq, Structural)]
pub enum Version {
    Http11,
    Http2,
    Http3,
}

/// What is set about HTTP/1.1.
#[derive(Debug, Clone, Copy, PartialEq, Eq, Structural)]
pub struct H1Opts {
    /// The largest read buffer.
    pub max_buf_size: Option<usize>,
}

/// A proxy, by the name that keeps its connections apart, and what is spoken
/// to it.
#[derive(Debug)]
pub struct Proxy<P> {
    pub key: String,
    pub protocol: P,
}

/// A transport, as far as it is configured.
pub struct Native<I, P> {
    pub watch_1xx: bool,
    /// How long a request body waits for a peer that was asked whether it
    /// wants it.
    pub expect_continue: Option<Duration>,
    pub versions: Versions,
    pub alt_svc: AltSvcCache,
    /// The head start of one stack over the other.
    pub hedge: Option<Duration>,
    pub proxies: Vec<Proxy<P>>,
    /// The path of a Unix socket, as it is displayed.
    pub unix_socket: Option<String>,
    pub h1_opts: H1Opts,
    pub caps: Capabilities,
    pub pool: Pool<I>,
    pub svcb_failures: NegativeCache,
    /// Whether HTTP/2 connections are shared.
    pub share_h2: bool,
    pub h2_keep_alive: Option<H2KeepAlive>,
}

/// What is said of connections by a pool with this configuration.
pub open spec fn reuse_by(config: Option<PoolConfig>) -> ReuseSupport {
    match config {
        Some(_) => ReuseSupport::Supported,
        None => ReuseSupport::Absent,
    }
}

/// What is said of connections by this pool.
pub fn reuse_of<I>(pool: &Pool<I>) -> (r: ReuseSupport)
    ensures
        r == reuse_by(pool.cfg()),
{
    match pool.config() {
        Some(_) => ReuseSupport::Supported,
        None => ReuseSupport::Absent,
    }
}

/// What a transport can do before anything is configured, on a TLS backend
/// that presents client certificates or not and can be set so far.
pub open spec fn initial_caps(client_certs: bool, tls: TlsSupport) -> CapsView {
    CapsView {
        client_certs,
        streaming_request_body: true,
        request_trailers: true,
        redirects: RedirectSupport::Transparent,
        connection_reuse: ReuseSupport::Supported,
        cancel_on_drop: true,
        tls_config: tls,
        version_reported: true,
        version_select: true,
        timeouts: TimeoutSupport {
            resolve: true,
            connect: true,
            first_byte: true,
            between_bytes: true,
        },
        ..nothing()
    }
}

/// What can be said once only these versions are spoken: a request and its
/// response overlap, and responses have trailers, only where HTTP/1.1 is not
/// spoken.
pub open spec fn caps_for(base: Capabilities, versions: Versions) -> Capabilities {
    Capabilities { full_duplex: !versions.h1, response_trailers: !versions.h1, ..base }
}

/// What can be said once only these versions are spoken.
fn capabilities_for(base: Capabilities, versions: Versions) -> (r: Capabilities)
    ensures
        r == caps_for(base, versions),
        r.connection_reuse == base.connection_reuse,
{
    Capabilities { full_duplex: !versions.h1, response_trailers: !versions.h1, ..base }
}

impl<I, P> Native<I, P> {
    /// The parts are in order, some version below HTTP/3 is spoken, what is
    /// said of connections is what the pool does, and there is not both a Unix
    /// socket and a proxy.
    pub open spec fn wf(self) -> bool {
        &&& self.pool.wf()
        &&& self.alt_svc.wf()
        &&& self.svcb_failures.wf()
        &&& self.versions.h1 || self.versions.h2
        &&& self.caps.connection_reuse == reuse_by(self.pool.cfg())
        &&& self.unix_socket is None || self.proxies@.len() == 0
    }

    /// A transport on a TLS backend, with nothing configured.
    pub fn new(client_certs: bool, tls: TlsSupport) -> (r: Self)
        ensures
            r.wf(),
            !r.watch_1xx,
            r.expect_continue is None,
            r.versions == (Versions { h1: true, h2: true, h3: false }),
            r.alt_svc@ == Map::<OriginView, Held>::empty(),
            r.hedge is None,
            r.proxies@.len() == 0,
            r.unix_socket is None,
            r.h1_opts.max_buf_size is None,
            r.caps@ == initial_caps(client_certs, tls),
            r.pool.cfg() == Some(PoolConfig { idle_timeout: secs_of(90), max_idle_per_key: 8 }),
            forall|k: KeyView| #[trigger] r.pool.bucket(k) == Seq::<Idle<I>>::empty(),
            forall|k: KeyView| #[trigger] r.pool.waiting(k) is None,
            r.svcb_failures@ == Map::<OriginView, Duration>::empty(),
            !r.share_h2,
            r.h2_keep_alive is None,
    {
        let pool: Pool<I> = Pool::new(Some(PoolConfig::default()));
        let mut caps = Capabilities::default();
        caps.client_certs = client_certs;
        caps.streaming_request_body = true;
        caps.request_trailers = true;
        caps.redirects = RedirectSupport::Transparent;
        caps.connection_reuse = reuse_of(&pool);
        caps.cancel_on_drop = true;
        caps.tls_config = tls;
        caps.version_reported = true;
        caps.version_select = true;
        caps.timeouts = TimeoutSupport {
            resolve: true,
            connect: true,
            first_byte: true,
            between_bytes: true,
        };
        Native {
            watch_1xx: false,
            expect_continue: None,
            versions: Versions::default(),
            alt_svc: AltSvcCache::default(),
            hedge: None,
            proxies: Vec::new(),
            unix_socket: None,
            h1_opts: H1Opts { max_buf_size: None },
            caps,
            pool,
            svcb_failures: NegativeCache::default(),
            share_h2: false,
            h2_keep_alive: None,
        }
    }

    /// Go through one proxy.
    pub fn proxy<P2>(self, proxy: Proxy<P2>) -> (r: Native<I, P2>)
        requires
            self.unix_socket is None,
        ensures
            r.proxies@ == seq![proxy],
            self.keeps_all_but_proxies(r),
    {
        let mut proxies: Vec<Proxy<P2>> = Vec::new();
        proxies.push(proxy);
        let r = self.with_proxies(proxies);
        assert(r.proxies@ =~= seq![proxy]);
        r
    }

    /// Whether `other` is this transport with other proxies, and says whether
    /// it has any.
    pub open spec fn keeps_all_but_proxies<P2>(self, other: Native<I, P2>) -> bool {
        &&& other.watch_1xx == self.watch_1xx
        &&& other.expect_continue == self.expect_continue
        &&& other.versions == self.versions
        &&& other.alt_svc == self.alt_svc
        &&& other.hedge == self.hedge
        &&& other.unix_socket == self.unix_socket
        &&& other.h1_opts == self.h1_opts
        &&& other.caps == (Capabilities { proxy: other.proxies@.len() > 0, ..self.caps })
        &&& other.pool == self.pool
        &&& other.svcb_failures == self.svcb_failures
        &&& other.share_h2 == self.share_h2
        &&& other.h2_keep_alive == self.h2_keep_alive
    }

    /// Go through the first of these proxies that is for a target. A Unix
    /// socket leaves no room for one.
    pub fn with_proxies<P2>(self, proxies: Vec<Proxy<P2>>) -> (r: Native<I, P2>)
        requires
            self.unix_socket is None || proxies@.len() == 0,
        ensures
            r.proxies == proxies,
            self.keeps_all_but_proxies(r),
    {
        let mut caps = self.caps;
        caps.proxy = proxies.len() > 0;
        Native {
            watch_1xx: self.watch_1xx,
            expect_continue: self.expect_continue,
            versions: self.versions,
            alt_svc: self.alt_svc,
            hedge: self.hedge,
            proxies,
            unix_socket: self.unix_socket,
            h1_opts: self.h1_opts,
            caps,
            pool: self.pool,
            svcb_failures: self.svcb_failures,
            share_h2: self.share_h2,
            h2_keep_alive: self.h2_keep_alive,
        }
    }

    /// Go through the proxies of the system. `proxies` is what reading its
    /// settings gave: what cannot be spoken to is a refusal, in its own words.
    pub fn system_proxies_from<P2>(self, proxies: Result<Vec<Proxy<P2>>, String>) -> (r: Result<
        Native<I, P2>,
        Error,
    >)
        requires
            proxies is Ok ==> self.unix_socket is None || (proxies->Ok_0)@.len() == 0,
        ensures
            match proxies {
                Ok(list) => r matches Ok(n) && n.proxies == list && self.keeps_all_but_proxies(n),
                Err(text) => r matches Err(e) && e.kind == ErrorKind::Unsupported && *e.source
                    == Source::Outside(text),
            },
    {
        match proxies {
            Ok(list) => Ok(self.with_proxies(list)),
            Err(text) => Err(Error::new(ErrorKind::Unsupported, Source::Outside(text))),
        }
    }

    /// Go through those proxies of the system that can be spoken to. What was
    /// left out is handed back.
    pub fn system_proxies_from_lossy<P2, X>(
        self,
        proxies: Vec<Proxy<P2>>,
        dropped: Vec<X>,
    ) -> (r: (Native<I, P2>, Vec<X>))
        requires
            self.unix_socket is None || proxies@.len() == 0,
        ensures
            r.0.proxies == proxies,
            self.keeps_all_but_proxies(r.0),
            r.1 == dropped,
    {
        (self.with_proxies(proxies), dropped)
    }

    /// One more proxy, behind those there are. A Unix socket leaves no room for
    /// one.
    pub fn and_proxy(self, proxy: Proxy<P>) -> (r: Self)
        requires
            self.unix_socket is None,
        ensures
            r.proxies@ == self.proxies@.push(proxy),
            r == (Native {
                proxies: r.proxies,
                caps: Capabilities { proxy: true, ..self.caps },
                ..self
            }),
    {
        let mut proxies = self.proxies;
        proxies.push(proxy);
        let caps = Capabilities { proxy: true, ..self.caps };
        Native { proxies, caps, ..self }
    }

    /// Hold the body of a request back that asks whether it is wanted, for so
    /// long at most.
    pub fn expect_continue(self, after: Duration) -> (r: Self)
        ensures
            r == (Native { expect_continue: Some(after), ..self }),
    {
        let mut r = self;
        r.expect_continue = Some(after);
        r
    }

    /// Report interim responses.
    pub fn watching_1xx(self) -> (r: Self)
        ensures
            r == self.reporting_1xx(),
    {
        let mut r = self;
        r.watch_1xx = true;
        r.caps.informational_1xx = true;
        r
    }

    /// This transport with somebody else to report to.
    pub open spec fn reporting_elsewhere(self) -> Self {
        Native {
            watch_1xx: false,
            share_h2: false,
            caps: Capabilities { informational_1xx: false, ..self.caps },
            ..self
        }
    }

    /// This transport with interim responses reported.
    pub open spec fn reporting_1xx(self) -> Self {
        Native {
            watch_1xx: true,
            caps: Capabilities { informational_1xx: true, ..self.caps },
            ..self
        }
    }

    /// Report to somebody else: what was set up for whoever was reported to
    /// before does not hold any more.
    pub fn hooks(self) -> (r: Self)
        ensures
            r == self.reporting_elsewhere(),
    {
        let mut r = self;
        r.watch_1xx = false;
        r.share_h2 = false;
        r.caps.informational_1xx = false;
        r
    }

    /// Keep connections like this.
    pub fn pool(self, config: PoolConfig) -> (r: Self)
        requires
            self.wf(),
        ensures
            r.wf(),
            r.pool.cfg() == Some(config),
            forall|k: KeyView| #[trigger] r.pool.bucket(k) == Seq::<Idle<I>>::empty(),
            forall|k: KeyView| #[trigger] r.pool.waiting(k) is None,
            r == (Native {
                pool: r.pool,
                caps: Capabilities { connection_reuse: ReuseSupport::Supported, ..self.caps },
                ..self
            }),
    {
        let pool: Pool<I> = Pool::new(Some(config));
        let reuse = reuse_of(&pool);
        assert(reuse == ReuseSupport::Supported);
        let caps = Capabilities { connection_reuse: reuse, ..self.caps };
        Native { pool, caps, ..self }
    }

    /// Keep no connections.
    pub fn without_pool(self) -> (r: Self)
        requires
            self.wf(),
        ensures
            r.wf(),
            r.pool.cfg() is None,
            forall|k: KeyView| #[trigger] r.pool.bucket(k) == Seq::<Idle<I>>::empty(),
            forall|k: KeyView| #[trigger] r.pool.waiting(k) is None,
            r == (Native {
                pool: r.pool,
                caps: Capabilities { connection_reuse: ReuseSupport::Absent, ..self.caps },
                ..self
            }),
    {
        let pool: Pool<I> = Pool::new(None);
        let reuse = reuse_of(&pool);
        assert(reuse == ReuseSupport::Absent);
        let caps = Capabilities { connection_reuse: reuse, ..self.caps };
        Native { pool, caps, ..self }
    }

    /// Keep connections like this, and have the expired ones dropped by the
    /// reaper that comes with it.
    pub fn with_reaper(self, config: PoolConfig) -> (r: (Self, Reaper))
        requires
            self.wf(),
        ensures
            r.0.wf(),
            r.0.pool.cfg() == Some(config),
            r.1.idle_timeout == config.idle_timeout,
            forall|k: KeyView| #[trigger] r.0.pool.bucket(k) == Seq::<Idle<I>>::empty(),
            forall|k: KeyView| #[trigger] r.0.pool.waiting(k) is None,
            r.0 == (Native {
                pool: r.0.pool,
                caps: Capabilities { connection_reuse: ReuseSupport::Supported, ..self.caps },
                ..self
            }),
    {
        (self.pool(config), Reaper::new(config.idle_timeout))
    }

    /// The network changed: forget the advertisements that do not outlive
    /// that.
    pub fn network_changed(&mut self)
        requires
            old(self).wf(),
        ensures
            final(self).wf(),
            final(self).alt_svc@ == after_network_change(old(self).alt_svc@),
            *final(self) == (Native { alt_svc: final(self).alt_svc, ..*old(self) }),
    {
        self.alt_svc.network_changed();
    }

    /// Give one stack a head start over the other.
    pub fn hedging(self, head_start: Duration) -> (r: Self)
        ensures
            r == (Native { hedge: Some(head_start), ..self }),
    {
        let mut r = self;
        r.hedge = Some(head_start);
        r
    }

    /// Speak HTTP/3 besides, on a stack that can do this. The two together are
    /// described by what is true of both, and where nothing is, this is
    /// refused, with the field on which they differ and what each says of it.
    pub fn http3(self, quic: &Capabilities) -> (r: Result<Self, Disagreement>)
        ensures
            match r {
                Ok(n) => {
                    &&& disagreement(self.caps@, quic@) is None
                    &&& true_of_both(self.caps@, quic@, n.caps@)
                    &&& n == (Native {
                        caps: n.caps,
                        versions: Versions { h3: true, ..self.versions },
                        ..self
                    })
                },
                Err(d) => disagreement(self.caps@, quic@) matches Some(f) && d.field@
                    == field_name(f) && d.tcp@ == field_words(self.caps@, f) && d.quic@
                    == field_words(quic@, f),
            },
            self.wf() ==> (r matches Ok(n) ==> n.wf()),
    {
        match combine(&self.caps, quic) {
            Ok(caps) => {
                let mut r = self;
                r.caps = caps;
                r.versions.h3 = true;
                Ok(r)
            },
            Err(d) => Err(d),
        }
    }

    /// Speak HTTP/1.1 or not. It cannot be switched off where that would leave
    /// nothing.
    pub fn http1(self, on: bool) -> (r: Result<Self, Error>)
        requires
            self.wf(),
        ensures
            match r {
                Ok(n) => {
                    &&& on || self.versions.h2
                    &&& n.wf()
                    &&& n == (Native {
                        caps: caps_for(self.caps, Versions { h1: on, ..self.versions }),
                        versions: Versions { h1: on, ..self.versions },
                        ..self
                    })
                },
                Err(e) => !on && !self.versions.h2 && e.kind == ErrorKind::Unsupported && *e.source
                    == Source::NoVersionsLeft(NoVersionsLeft),
            },
    {
        if !on && !self.versions.h2 {
            return Err(
                Error::new(ErrorKind::Unsupported, Source::NoVersionsLeft(NoVersionsLeft)),
            );
        }
        let versions = Versions { h1: on, ..self.versions };
        Ok(Native { caps: capabilities_for(self.caps, versions), versions, ..self })
    }

    /// Speak HTTP/2 or not. It cannot be switched off where that would leave
    /// nothing.
    pub fn http2(self, on: bool) -> (r: Result<Self, Error>)
        requires
            self.wf(),
        ensures
            match r {
                Ok(n) => {
                    &&& on || self.versions.h1
                    &&& n.wf()
                    &&& n == (Native {
                        caps: caps_for(self.caps, Versions { h2: on, ..self.versions }),
                        versions: Versions { h2: on, ..self.versions },
                        ..self
                    })
                },
                Err(e) => !on && !self.versions.h1 && e.kind == ErrorKind::Unsupported && *e.source
                    == Source::NoVersionsLeft(NoVersionsLeft),
            },
    {
        if !on && !self.versions.h1 {
            return Err(
                Error::new(ErrorKind::Unsupported, Source::NoVersionsLeft(NoVersionsLeft)),
            );
        }
        let versions = Versions { h2: on, ..self.versions };
        Ok(Native { caps: capabilities_for(self.caps, versions), versions, ..self })
    }

    /// Ping shared HTTP/2 connections.
    pub fn h2_keep_alive(self, cfg: H2KeepAlive) -> (r: Self)
        ensures
            r == (Native { h2_keep_alive: Some(cfg), ..self }),
    {
        let mut r = self;
        r.h2_keep_alive = Some(cfg);
        r
    }

    /// Share HTTP/2 connections between requests.
    pub fn multiplexed(self) -> (r: Self)
        ensures
            r == (Native { share_h2: true, ..self }),
    {
        let mut r = self;
        r.share_h2 = true;
        r
    }

    /// Connect to a Unix socket, on a runtime that has them. A proxy leaves no
    /// room for one. `unsupported` is what a runtime without them says.
    pub fn unix_socket(self, path: String, unsupported: Option<String>) -> (r: Result<Self, Error>)
        ensures
            match r {
                Ok(n) => unsupported is None && self.proxies@.len() == 0 && n == (Native {
                    unix_socket: Some(path),
                    ..self
                }),
                Err(e) => {
                    &&& e.kind == ErrorKind::Unsupported
                    &&& match unsupported {
                        Some(text) => *e.source == Source::Outside(text),
                        None => self.proxies@.len() > 0 && *e.source == Source::ProxyAndUnixSocket(
                            ProxyAndUnixSocket,
                        ),
                    }
                },
            },
    {
        if let Some(text) = unsupported {
            return Err(Error::new(ErrorKind::Unsupported, Source::Outside(text)));
        }
        if self.proxies.len() > 0 {
            return Err(
                Error::new(ErrorKind::Unsupported, Source::ProxyAndUnixSocket(ProxyAndUnixSocket)),
            );
        }
        let mut r = self;
        r.unix_socket = Some(path);
        Ok(r)
    }

    /// Set what can be set about HTTP/1.1. A read buffer below the smallest
    /// that works is refused.
    pub fn h1_opts(self, opts: H1Opts) -> (r: Result<Self, Error>)
        ensures
            match r {
                Ok(n) => !too_small(opts) && n == (Native { h1_opts: opts, ..self }),
                Err(e) => too_small(opts) && e.kind == ErrorKind::Unsupported && *e.source
                    == Source::MaxBufSizeTooSmall(
                    MaxBufSizeTooSmall { asked: opts.max_buf_size->0 },
                ),
            },
    {
        if let Some(asked) = opts.max_buf_size {
            if asked < MINIMUM_MAX_BUF_SIZE {
                return Err(
                    Error::new(
                        ErrorKind::Unsupported,
                        Source::MaxBufSizeTooSmall(MaxBufSizeTooSmall { asked }),
                    ),
                );
            }
        }
        let mut r = self;
        r.h1_opts = opts;
        Ok(r)
    }

    /// Whether HTTP/2 connections are shared: where that is asked for and
    /// there is a pool to share them through.
    pub fn shares_connections(&self) -> (r: bool)
        ensures
            r == (self.share_h2 && self.pool.cfg() is Some),
    {
        self.share_h2 && self.pool.config().is_some()
    }
}

/// Whether a read buffer is asked for that is too small.
pub open spec fn too_small(opts: H1Opts) -> bool {
    opts.max_buf_size matches Some(n) && n < MINIMUM_MAX_BUF_SIZE
}

/// A request and its response overlap only on a transport that speaks no
/// HTTP/1.1, because with it any request may go by that; and no other
/// capability depends on the versions.
pub proof fn law_overlap_is_promised_without_http1_only(base: Capabilities, versions: Versions)
    ensures
        caps_for(base, versions).full_duplex <==> !versions.h1,
        caps_for(base, versions).response_trailers <==> !versions.h1,
        caps_for(base, versions).connection_reuse == base.connection_reuse,
        caps_for(base, versions).timeouts == base.timeouts,
{
}

/// Switching HTTP/1.1 off and on again promises what was promised before it
/// was ever off.
pub proof fn law_versions_decide_alone(base: Capabilities, a: Versions, b: Versions)
    ensures
        caps_for(caps_for(base, a), b) == caps_for(base, b),
{
}

/// What a new transport says of itself: it streams request bodies, sends their
/// trailers, leaves redirects alone, reuses connections, cancels what is
/// dropped, reports and selects versions and keeps every timeout; what its TLS
/// backend can do is the backend's; and it says no more.
pub proof fn law_what_a_new_transport_says(client_certs: bool, tls: TlsSupport)
    ensures
        ({
            let c = initial_caps(client_certs, tls);
            &&& c.client_certs == client_certs
            &&& c.tls_config == tls
            &&& c.streaming_request_body && c.request_trailers && c.cancel_on_drop
            &&& c.version_reported && c.version_select
            &&& c.redirects == RedirectSupport::Transparent
            &&& c.connection_reuse == ReuseSupport::Supported
            &&& c.timeouts.resolve && c.timeouts.connect && c.timeouts.first_byte
            &&& c.timeouts.between_bytes
            &&& !c.full_duplex && !c.response_trailers && !c.response_decompression
            &&& !c.early_data && !c.proxy && !c.owns_cookie_jar && !c.owns_cache
            &&& !c.informational_1xx
            &&& c.forbidden_request_headers.len() == 0
        }),
{
}

/// Which versions are spoken changes nothing of what is said but the overlap of
/// request and response and the trailers of responses.
pub proof fn law_versions_change_nothing_else(base: Capabilities, versions: Versions)
    ensures
        ({
            let c = caps_for(base, versions);
            &&& c.full_duplex == !versions.h1
            &&& c.response_trailers == !versions.h1
            &&& c.streaming_request_body == base.streaming_request_body
            &&& c.request_trailers == base.request_trailers
            &&& c.redirects == base.redirects
            &&& c.cancel_on_drop == base.cancel_on_drop
            &&& c.connection_reuse == base.connection_reuse
            &&& c.response_decompression == base.response_decompression
            &&& c.early_data == base.early_data
            &&& c.tls_config == base.tls_config
            &&& c.client_certs == base.client_certs
            &&& c.proxy == base.proxy
            &&& c.owns_cookie_jar == base.owns_cookie_jar
            &&& c.owns_cache == base.owns_cache
            &&& c.version_select == base.version_select
            &&& c.version_reported == base.version_reported
            &&& c.timeouts == base.timeouts
            &&& c.informational_1xx == base.informational_1xx
            &&& c.forbidden_request_headers == base.forbidden_request_headers
        }),
{
}

/// Connections are said to be reused exactly where there is a pool, and a read
/// buffer is refused exactly where one below 8192 octets is asked for.
pub proof fn law_what_is_refused_and_said(config: Option<PoolConfig>, opts: H1Opts)
    ensures
        reuse_by(config) == ReuseSupport::Supported <==> config is Some,
        too_small(opts) <==> opts.max_buf_size is Some && opts.max_buf_size->0 < 8192,
{
}

/// A transport that only has other proxies says whether it has any, and goes
/// to the same socket, pool and caches as before.
pub proof fn law_proxies_are_said_by_their_list<I, P, P2>(n: Native<I, P>, m: Native<I, P2>)
    requires
        n.keeps_all_but_proxies(m),
    ensures
        m.caps.proxy <==> m.proxies@.len() > 0,
        m.pool == n.pool,
        m.unix_socket == n.unix_socket,
        m.versions == n.versions,
        m.alt_svc == n.alt_svc,
        m.svcb_failures == n.svcb_failures,
        m.share_h2 == n.share_h2,
        m.expect_continue == n.expect_continue,
        m.watch_1xx == n.watch_1xx,
        m.h1_opts == n.h1_opts,
        m.hedge == n.hedge,
        m.h2_keep_alive == n.h2_keep_alive,
        m.caps.full_duplex == n.caps.full_duplex,
        m.caps.response_trailers == n.caps.response_trailers,
        m.caps.informational_1xx == n.caps.informational_1xx,
        m.caps.connection_reuse == n.caps.connection_reuse,
{
}

/// Interim responses are said to be reported exactly where they are watched
/// for. What was set up for whoever was reported to before holds no longer,
/// neither that nor the sharing of connections; everything else stays.
pub proof fn law_what_is_reported_is_watched<I, P>(n: Native<I, P>)
    ensures
        n.reporting_1xx().watch_1xx && n.reporting_1xx().caps.informational_1xx,
        n.reporting_1xx().share_h2 == n.share_h2,
        n.reporting_1xx().pool == n.pool,
        n.reporting_1xx().proxies == n.proxies,
        n.reporting_1xx().versions == n.versions,
        !n.reporting_elsewhere().watch_1xx,
        !n.reporting_elsewhere().caps.informational_1xx,
        !n.reporting_elsewhere().share_h2,
        n.reporting_elsewhere().pool == n.pool,
        n.reporting_elsewhere().proxies == n.proxies,
        n.reporting_elsewhere().versions == n.versions,
        n.reporting_elsewhere().unix_socket == n.unix_socket,
        n.reporting_elsewhere().expect_continue == n.expect_continue,
        n.reporting_elsewhere().caps.proxy == n.caps.proxy,
        n.reporting_elsewhere().caps.full_duplex == n.caps.full_duplex,
        n.reporting_elsewhere().caps.connection_reuse == n.caps.connection_reuse,
{
}

} // verus!
