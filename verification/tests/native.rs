//! How a transport is configured, and what its requests do.

use hclient_native::bounds::{budget_after, within_connect, Failed, FirstByte};
use hclient_native::caps::{RedirectSupport, ReuseSupport, TlsSupport};
use hclient_native::connect::Approach;
use hclient_native::discovery::{Discovered, NegativeCache, Prefetched};
use hclient_native::error::{Error, ErrorKind, Phase, Source};
use hclient_native::http2::keepalive::H2KeepAlive;
use hclient_native::hyperio::HyperIo;
use hclient_native::idle::{After, First, IdleTimeout};
use hclient_native::native::{H1Opts, Native, Proxy, Version, Versions};
use hclient_native::poll::{poll_would_block, shut_down, Polled};
use hclient_native::pool::{
    CheckIn, Established, Pool, PoolConfig, PoolKey, Protocol, ReaperStep, Security,
};
use hclient_native::run::{
    continue_gate, identity_config, is_h2, line_target, negotiated_protocol, opens_body,
    line_form, pooled_candidates, prepare, prepares, spoken_version, Admits, Found, KeyParts, Next,
    Offer, Outcome, Prepare, Run, Via,
};
use hclient_native::time::Duration;
use hclient_native::uri::{Target, UriParts};

fn ms(n: u64) -> Duration {
    Duration::from_millis(n)
}

fn plain() -> Native<u32, ()> {
    Native::new(true, TlsSupport::Full)
}

fn proxy(name: &str) -> Proxy<u8> {
    Proxy {
        key: name.to_string(),
        protocol: 1,
    }
}

#[test]
fn a_new_transport_says_what_it_can_do() {
    let n = plain();
    assert!(n.caps.client_certs);
    assert!(n.caps.streaming_request_body);
    assert!(n.caps.request_trailers);
    assert!(!n.caps.response_trailers);
    assert!(!n.caps.full_duplex);
    assert_eq!(n.caps.redirects, RedirectSupport::Transparent);
    assert_eq!(n.caps.connection_reuse, ReuseSupport::Supported);
    assert_eq!(n.caps.tls_config, TlsSupport::Full);
    assert!(n.caps.timeouts.resolve && n.caps.timeouts.between_bytes);
    assert!(!n.caps.proxy);
    assert_eq!(
        n.versions,
        Versions {
            h1: true,
            h2: true,
            h3: false
        }
    );
}

#[test]
fn some_version_is_always_left() {
    let n = plain().http1(false).unwrap();
    assert!(n.caps.full_duplex && n.caps.response_trailers);
    let e = n.http2(false).err().unwrap();
    assert_eq!(
        e.message(),
        "Unsupported: this would leave the transport unable to speak any HTTP version: `http1` \
         and `http2` cannot both be off"
    );
    let n = plain().http2(false).unwrap();
    assert!(!n.caps.full_duplex);
    assert!(n.http1(false).is_err());
    let n = plain().http1(false).unwrap().http1(true).unwrap();
    assert!(!n.caps.full_duplex);
}

#[test]
fn a_proxy_and_a_unix_socket_exclude_each_other() {
    let n = plain().proxy(proxy("p:1"));
    assert!(n.caps.proxy);
    let n = n.and_proxy(proxy("q:1"));
    assert_eq!(n.proxies.len(), 2);
    let e = n.unix_socket("/s".to_string(), None).err().unwrap();
    assert_eq!(
        e.message(),
        "Unsupported: a proxy and a Unix socket both answer `where does this connection go`; \
         configure at most one"
    );
    let n = plain().unix_socket("/s".to_string(), None).unwrap();
    assert_eq!(n.unix_socket.as_deref(), Some("/s"));
    let e = plain()
        .unix_socket("/s".to_string(), Some("none here".to_string()))
        .err()
        .unwrap();
    assert_eq!(e.message(), "Unsupported: none here");
    let n: Native<u32, u8> = plain().with_proxies(Vec::new());
    assert!(!n.caps.proxy);
}

#[test]
fn the_proxies_of_the_system_are_taken_or_refused() {
    let n = plain().system_proxies_from(Ok(vec![proxy("p:1")])).unwrap();
    assert!(n.caps.proxy);
    let r: Result<Native<u32, u8>, Error> = plain().system_proxies_from(Err("pac".to_string()));
    assert_eq!(r.err().unwrap().message(), "Unsupported: pac");
    let (n, dropped) = plain().system_proxies_from_lossy(vec![proxy("p:1")], vec!["pac"]);
    assert_eq!(n.proxies.len(), 1);
    assert_eq!(dropped, vec!["pac"]);
}

#[test]
fn what_is_said_of_connections_follows_the_pool() {
    let n = plain().without_pool();
    assert_eq!(n.caps.connection_reuse, ReuseSupport::Absent);
    assert!(n.pool.config().is_none());
    let cfg = PoolConfig {
        idle_timeout: ms(7),
        max_idle_per_key: 1,
    };
    let n = n.pool(cfg);
    assert_eq!(n.caps.connection_reuse, ReuseSupport::Supported);
    let (n, reaper) = n.with_reaper(cfg);
    assert_eq!(n.pool.config(), Some(cfg));
    assert_eq!(reaper.start(), ReaperStep::Sleep(ms(7)));
    assert!(!n.shares_connections());
    let n = n.multiplexed();
    assert!(n.shares_connections());
    let mut n = n.without_pool();
    assert!(!n.shares_connections());
    assert!(n.pool.begin_connect(&h2_key()), "nobody is connecting");
}

#[test]
fn the_other_settings_are_kept() {
    let ka = H2KeepAlive::new(ms(1), ms(2));
    let n = plain()
        .expect_continue(ms(3))
        .hedging(ms(4))
        .h2_keep_alive(ka)
        .multiplexed()
        .watching_1xx();
    assert_eq!(n.expect_continue, Some(ms(3)));
    assert_eq!(n.hedge, Some(ms(4)));
    assert_eq!(n.h2_keep_alive, Some(ka));
    assert!(n.watch_1xx && n.caps.informational_1xx && n.share_h2);
    let n = n.hooks();
    assert!(!n.watch_1xx && !n.caps.informational_1xx && !n.share_h2);
    assert_eq!(n.h2_keep_alive, Some(ka));
}

#[test]
fn a_read_buffer_that_is_too_small_is_refused() {
    let opts = |n| H1Opts { max_buf_size: n };
    assert!(plain().h1_opts(opts(None)).is_ok());
    assert!(plain().h1_opts(opts(Some(8192))).is_ok());
    let e = plain().h1_opts(opts(Some(8191))).err().unwrap();
    assert_eq!(
        e.message(),
        "Unsupported: max_buf_size is 8191, below hyper's minimum of 8192"
    );
}

#[test]
fn http3_joins_a_stack_that_agrees() {
    let quic = || plain().caps;
    let n = plain().http3(&quic()).unwrap();
    assert!(n.versions.h3);
    let mut other = quic();
    other.owns_cache = true;
    let d = plain().http3(&other).err().unwrap();
    assert_eq!(
        (d.field, d.tcp.as_str(), d.quic.as_str()),
        ("owns_cache", "false", "true")
    );
}

#[test]
fn the_proxy_capability_reads_the_list() {
    let n: Native<u32, u8> = plain().with_proxies(Vec::new());
    assert!(!n.caps.proxy);
    let n = n.and_proxy(proxy("proxy.corp:8080"));
    assert!(n.caps.proxy);
    assert_eq!(n.proxies.len(), 1);
    let n = n.and_proxy(proxy("other.corp:8080"));
    assert!(n.caps.proxy);
    assert_eq!(n.proxies[1].key, "other.corp:8080");
    assert!(n.unix_socket("/run/s".to_string(), None).is_err());
}

#[test]
fn a_change_of_network_reaches_what_is_remembered() {
    let mut n = plain();
    let o = hclient_native::Origin::new("h", 443);
    n.alt_svc.note(
        &o,
        &hclient_native::altsvc::parse(b"h3=\":443\""),
        ms(0),
    );
    n.network_changed();
    assert!(!n.alt_svc.advertises_h3(&o, ms(1)));
}

// ---------------------------------------------------------------------------
// Requests
// ---------------------------------------------------------------------------

fn parts(use_tls: bool) -> KeyParts {
    let t = Target {
        host: "example.com".to_string(),
        use_tls,
        port: 443,
    };
    KeyParts::of(&t, None, 1, None, None)
}

fn both() -> Admits {
    Admits {
        http11: true,
        http2: true,
    }
}

fn versions() -> Versions {
    Versions::default()
}

fn start(pool: &mut Pool<u32>, share: bool, admits: Admits) -> (Run, bool) {
    Run::start(
        parts(true),
        versions(),
        true,
        share,
        admits,
        Some(ms(100)),
        ms(0),
        pool,
    )
    .unwrap()
}

fn h2_key() -> PoolKey {
    parts(true).key(Protocol::H2)
}

fn h1_key() -> PoolKey {
    parts(true).key(Protocol::Http11)
}

fn mismatch() -> Error {
    Error::new(ErrorKind::Unsupported, Source::Outside("version".to_string()))
}

#[test]
fn plain_http_needs_http1() {
    let mut pool: Pool<u32> = Pool::new(None);
    let v = Versions {
        h1: false,
        ..versions()
    };
    let r = Run::start(parts(false), v, true, false, both(), None, ms(0), &mut pool);
    assert_eq!(
        r.err().unwrap().message(),
        "Unsupported: `http://` needs HTTP/1.1, which this transport has been told not to speak"
    );
}

#[test]
fn http1_is_never_spoken_where_it_is_off() {
    let off = Versions {
        h1: false,
        ..versions()
    };
    let begin = |pool: &mut Pool<u32>, reports_alpn: bool, admits: Admits| {
        Run::start(parts(true), off, reports_alpn, false, admits, None, ms(0), pool)
    };
    let needs = "Unsupported: this request needs HTTP/1.1, which this transport has been told not \
                 to speak";
    let mut pool: Pool<u32> = Pool::new(Some(PoolConfig::default()));
    pool.put(h1_key(), Established::Sole(1), ms(50));
    let e = begin(&mut pool, false, both()).err().unwrap();
    assert_eq!(e.message(), needs, "a backend that reports no protocol");
    let only11 = Admits {
        http11: true,
        http2: false,
    };
    let e = begin(&mut pool, true, only11).err().unwrap();
    assert_eq!(e.message(), needs, "a request that demands HTTP/1.1");
    for said in [None, Some(b"http/1.1".to_vec()), Some(b"spdy".to_vec())] {
        let (mut run, _) = begin(&mut pool, true, both()).unwrap();
        match run.search(&mut pool) {
            Found::Connect { offer, .. } => {
                assert_eq!(offer, Offer::H2);
                assert_eq!(offer.names(), vec![b"h2".to_vec()]);
            }
            other => panic!("{other:?}"),
        }
        let e = run.connected(Ok(said), mismatch()).unwrap_err();
        assert_eq!(e.message(), "Unsupported: version");
    }
    assert!(pool.take(&h1_key(), ms(0)).is_some(), "left alone");
    let (mut run, _) = begin(&mut pool, true, both()).unwrap();
    let _ = run.search(&mut pool);
    assert_eq!(
        run.connected(Ok(Some(b"h2".to_vec())), mismatch()).unwrap(),
        Some(Protocol::H2)
    );
}

#[test]
fn http2_is_looked_for_before_http1() {
    let mut pool: Pool<u32> = Pool::new(Some(PoolConfig::default()));
    pool.put(h1_key(), Established::Sole(1), ms(50));
    pool.put(h2_key(), Established::Sole(2), ms(50));
    let (mut run, wait) = start(&mut pool, false, both());
    assert!(!wait);
    assert!(matches!(
        run.search(&mut pool),
        Found::Pooled(Established::Sole(2))
    ));
    let (checkin, woken, version) = run.reuse(&mut pool, &Established::Sole(2));
    assert!(woken.is_empty());
    assert_eq!(version, Version::Http2);
    assert!(matches!(
        run.pooled_done(Outcome::NotSent(mismatch())),
        Next::Search
    ));
    assert!(matches!(
        run.search(&mut pool),
        Found::Pooled(Established::Sole(1))
    ));
    let (_, _, version) = run.reuse(&mut pool, &Established::Sole(1));
    assert_eq!(version, Version::Http11);
    assert!(matches!(run.pooled_done(Outcome::Answered), Next::Head));
    checkin.unwrap().put(&mut pool, Established::Sole(9));
    assert!(matches!(
        pool.take(&h2_key(), ms(89_999)),
        Some(Established::Sole(9))
    ));
}

#[test]
fn a_request_that_demands_a_version_looks_for_no_other() {
    let mut pool: Pool<u32> = Pool::new(Some(PoolConfig::default()));
    pool.put(h2_key(), Established::Sole(2), ms(50));
    let only11 = Admits {
        http11: true,
        http2: false,
    };
    let (mut run, _) = start(&mut pool, false, only11);
    match run.search(&mut pool) {
        Found::Connect { offer, budget } => {
            assert_eq!(offer, Offer::Http11);
            assert_eq!(budget, Some(ms(100)));
        }
        other => panic!("{other:?}"),
    }
    assert!(pool.take(&h2_key(), ms(0)).is_some(), "left alone");
    assert_eq!(
        run.connected(Ok(Some(b"h2".to_vec())), mismatch()).unwrap(),
        None,
        "HTTP/2 was not offered, so its name is no protocol"
    );
    let (checkin, _) = run.established(&mut pool, None);
    assert!(checkin.is_none(), "and the connection is not kept");
}

#[test]
fn a_stale_connection_is_passed_over() {
    let mut pool: Pool<u32> = Pool::new(Some(PoolConfig::default()));
    pool.put(h2_key(), Established::Shared(4), ms(50));
    let (mut run, _) = start(&mut pool, false, both());
    let est = match run.search(&mut pool) {
        Found::Pooled(est) => est,
        other => panic!("{other:?}"),
    };
    run.stale(&mut pool, &est);
    match run.search(&mut pool) {
        Found::Connect { offer, .. } => assert_eq!(offer, Offer::H2AndHttp11),
        other => panic!("{other:?}"),
    }
    assert!(pool.take(&h2_key(), ms(0)).is_none());
}

#[test]
fn a_failure_after_something_was_sent_is_final() {
    let mut pool: Pool<u32> = Pool::new(Some(PoolConfig::default()));
    pool.put(h2_key(), Established::Sole(2), ms(50));
    let (mut run, _) = start(&mut pool, false, both());
    let _ = run.search(&mut pool);
    let _ = run.reuse(&mut pool, &Established::Sole(2));
    match run.pooled_done(Outcome::Failed(mismatch())) {
        Next::Fail(e) => assert_eq!(e.message(), "Unsupported: version"),
        other => panic!("{other:?}"),
    }
}

#[test]
fn one_request_makes_the_shared_connection_for_all() {
    let mut pool: Pool<u32> = Pool::new(Some(PoolConfig::default()));
    let (mut first, wait) = start(&mut pool, true, both());
    assert!(!wait);
    let (mut second, wait) = start(&mut pool, true, both());
    assert!(wait);
    assert!(!pool.wait_for_connect(&h2_key(), 77));
    assert!(matches!(first.search(&mut pool), Found::Connect { .. }));
    assert_eq!(
        first
            .connected(Ok(Some(b"h2".to_vec())), mismatch())
            .unwrap(),
        Some(Protocol::H2)
    );
    assert!(first.wants_sharing());
    let (checkin, woken) = first.established(&mut pool, Some(5));
    assert!(checkin.is_none());
    assert_eq!(woken, vec![77]);
    assert!(matches!(first.fresh_done(Outcome::Answered), Next::Head));
    second.waited(&mut pool, Some(ms(30))).unwrap();
    assert!(matches!(
        second.search(&mut pool),
        Found::Pooled(Established::Shared(5))
    ));
    let (checkin, _, _) = second.reuse(&mut pool, &Established::Shared(5));
    assert!(checkin.is_none(), "what is borrowed does not go back");
    let (_, wait) = start(&mut pool, true, both());
    assert!(!wait, "the second let go of what it did not need");
}

#[test]
fn waiting_is_paid_out_of_the_bound() {
    let mut pool: Pool<u32> = Pool::new(Some(PoolConfig::default()));
    let (mut first, _) = start(&mut pool, true, both());
    let (mut second, _) = start(&mut pool, true, both());
    let woken = first.abandon(&mut pool);
    assert!(woken.is_empty());
    second.waited(&mut pool, Some(ms(30))).unwrap();
    match second.search(&mut pool) {
        Found::Connect { budget, .. } => assert_eq!(budget, Some(ms(70))),
        other => panic!("{other:?}"),
    }
    let (mut third, wait) = start(&mut pool, true, both());
    assert!(wait);
    let e = third.waited(&mut pool, None).unwrap_err();
    assert_eq!(
        e.message(),
        "Timeout(Connect): connect timed out after 100ms"
    );
}

#[test]
fn a_new_connection_that_fails_fails_its_request() {
    let mut pool: Pool<u32> = Pool::new(Some(PoolConfig::default()));
    let (mut run, _) = start(&mut pool, false, both());
    let _ = run.search(&mut pool);
    assert!(run.connected(Err(mismatch()), mismatch()).is_err());
    let only2 = Admits {
        http11: false,
        http2: true,
    };
    let (mut run, _) = start(&mut pool, false, only2);
    let _ = run.search(&mut pool);
    assert_eq!(
        run.connected(Ok(None), mismatch()).unwrap_err().message(),
        "Unsupported: version"
    );
    let (mut run, _) = start(&mut pool, false, both());
    let _ = run.search(&mut pool);
    assert_eq!(
        run.connected(Ok(None), mismatch()).unwrap(),
        Some(Protocol::Http11)
    );
    assert!(!run.wants_sharing());
    let (checkin, _) = run.established(&mut pool, None);
    assert!(checkin.is_some());
    match run.fresh_done(Outcome::NotSent(mismatch())) {
        Next::Fail(_) => {}
        other => panic!("{other:?}"),
    }
}

#[test]
fn keys_say_what_a_connection_goes_through() {
    let t = Target {
        host: "Example.com".to_string(),
        use_tls: true,
        port: 443,
    };
    let p = KeyParts::of(&t, Some(5), 1, None, Some("p:1".to_string()));
    assert_eq!(
        p.key(Protocol::H2),
        PoolKey::new(Security::Tls(5), "example.com", 443, Protocol::H2, Some("p:1"))
    );
    let path = "/run/s".to_string();
    let p = KeyParts::of(&t, None, 1, Some(&path), Some("p:1".to_string()));
    assert_eq!(
        p.key(Protocol::Http11),
        PoolKey::new(
            Security::Tls(1),
            "example.com",
            443,
            Protocol::Http11,
            Some("unix:/run/s")
        )
    );
}

#[test]
fn protocols_are_told_by_their_names() {
    assert_eq!(negotiated_protocol(None, false), Some(Protocol::Http11));
    assert_eq!(
        negotiated_protocol(Some(b"http/1.1"), true),
        Some(Protocol::Http11)
    );
    assert_eq!(negotiated_protocol(Some(b"h2"), true), Some(Protocol::H2));
    assert_eq!(negotiated_protocol(Some(b"h2"), false), None);
    assert_eq!(negotiated_protocol(Some(b"h3"), true), None);
    assert!(is_h2(Some(Protocol::H2)) && !is_h2(None));
    assert_eq!(spoken_version(None), Version::Http11);
    assert_eq!(
        pooled_candidates(true),
        vec![Protocol::H2, Protocol::Http11]
    );
    assert_eq!(pooled_candidates(false), vec![Protocol::Http11]);
    assert_eq!(
        Offer::H2AndHttp11.names(),
        vec![b"h2".to_vec(), b"http/1.1".to_vec()]
    );
    assert_eq!(Offer::H2.names(), vec![b"h2".to_vec()]);
    assert_eq!(Offer::Http11.names(), vec![b"http/1.1".to_vec()]);
}

#[test]
fn a_named_identity_must_be_known() {
    assert_eq!(identity_config(None, Some(3)).unwrap(), None);
    assert_eq!(
        identity_config(Some("a".to_string()), Some(3)).unwrap(),
        Some(3)
    );
    let e = identity_config(Some("a".to_string()), None).unwrap_err();
    assert_eq!(
        e.message(),
        "Tls: no client identity named `a` in this TLS backend"
    );
}

#[test]
fn a_body_waits_only_where_it_is_asked_and_configured() {
    let asks = vec![b"gzip".to_vec(), b"100-Continue".to_vec()];
    assert!(continue_gate(Some(ms(1)), &asks));
    assert!(!continue_gate(None, &asks));
    assert!(!continue_gate(Some(ms(1)), &vec![b"100".to_vec()]));
    assert!(opens_body(100) && !opens_body(103));
}

#[test]
fn only_a_proxy_that_takes_the_whole_request_changes_its_line() {
    assert!(matches!(line_form(None), Via::Direct));
    assert!(matches!(
        line_form(Some((Approach::Tunnel, Some(vec![1])))),
        Via::Direct
    ));
    match line_form(Some((Approach::Absolute, Some(vec![1])))) {
        Via::AbsoluteForm(auth) => assert_eq!(auth, Some(vec![1])),
        other => panic!("{other:?}"),
    }
    let t = line_target(&UriParts::parse("https://h/").unwrap());
    assert_eq!((t.use_tls, t.host.as_str(), t.port), (true, "h", 443));
    let t = line_target(&UriParts::parse("/path").unwrap());
    assert_eq!((t.use_tls, t.host.as_str(), t.port), (false, "", 80));
}

#[test]
fn a_request_that_leads_nowhere_prepares_nothing() {
    let mut cache = NegativeCache::default();
    assert!(!prepares(&None, &mut cache, true, ms(0)));
    let t = Target::of(&UriParts::parse("https://h/").unwrap()).ok();
    assert!(prepares(&t, &mut cache, true, ms(0)));
    assert!(!prepares(&t, &mut cache, false, ms(0)));
}

#[test]
fn a_record_stands_beside_the_request_it_was_asked_for() {
    let mut cache = NegativeCache::default();
    let uri = UriParts::parse("https://h/").unwrap();
    let asking = match prepare("request", &uri, &mut cache, true, ms(0)) {
        Prepare::Ask(p) => p,
        other => panic!("{other:?}"),
    };
    assert_eq!(asking.host(), "h");
    let prepared = asking.answered(Vec::new());
    assert!(matches!(prepared.discovered(), Discovered::NoRecord));
    let (req, found) = prepared.into_parts();
    assert_eq!(req, "request");
    assert!(matches!(found, Prefetched::Looked(None)));
    for uri in ["http://h/", "https://h:8443/", "/path"] {
        let uri = UriParts::parse(uri).unwrap();
        match prepare("request", &uri, &mut cache, true, ms(0)) {
            Prepare::Ready(p) => {
                assert!(matches!(p.discovered(), Discovered::NotConsulted));
                assert_eq!(p.into_request(), "request");
            }
            other => panic!("{other:?}"),
        }
    }
}

// ---------------------------------------------------------------------------
// Bounds
// ---------------------------------------------------------------------------

#[test]
fn an_answer_beats_the_bound_on_a_connection() {
    let r = within_connect(Some(ms(1)), Polled::Ready(Ok(7)), true);
    assert!(matches!(r, Polled::Ready(Ok(7))));
    let r = within_connect::<u8>(Some(ms(1)), Polled::Pending, false);
    assert!(matches!(r, Polled::Pending));
    let r = within_connect::<u8>(None, Polled::Pending, true);
    assert!(matches!(r, Polled::Pending));
    match within_connect::<u8>(Some(ms(1)), Polled::Pending, true) {
        Polled::Ready(Err(e)) => assert_eq!(e.kind(), &ErrorKind::Timeout(Phase::Connect)),
        other => panic!("{other:?}"),
    }
    assert_eq!(budget_after(Some(ms(3)), ms(5)), Some(ms(0)));
    assert_eq!(budget_after(None, ms(5)), None);
}

type Head = Polled<Result<u8, Failed<u8>>>;

#[test]
fn an_answer_beats_the_bound_on_a_response() {
    let mut f = FirstByte::new(Some(ms(9)), true, Some(ms(2)));
    let (r, open): (Head, bool) = f.polled(Polled::Ready(Ok(1)), true, true);
    assert!(matches!(r, Polled::Ready(Ok(1))) && !open);
    let (r, open): (Head, bool) = f.polled(Polled::Pending, true, false);
    assert!(matches!(r, Polled::Pending) && open);
    let (_, open): (Head, bool) = f.polled(Polled::Pending, true, false);
    assert!(!open, "opened once");
    let (r, _): (Head, bool) = f.polled(Polled::Pending, false, true);
    match r {
        Polled::Ready(Err(Failed::Sent(e))) => assert_eq!(
            e.message(),
            "Timeout(FirstByte): no response head within the first_byte timeout of 9ms"
        ),
        other => panic!("{other:?}"),
    }
    let mut f = FirstByte::new(None, false, Some(ms(2)));
    let (r, open): (Head, bool) = f.polled(Polled::Pending, true, true);
    assert!(matches!(r, Polled::Pending) && !open);
    let f: Failed<u8> = Failed::NotSent {
        request: 1,
        error: mismatch(),
    };
    assert_eq!(f.into_error().message(), "Unsupported: version");
}

#[test]
fn a_silent_body_fails_and_stays_failed() {
    let mut b = IdleTimeout::new("body", Some(ms(250)));
    assert_eq!(b.between_bytes_timeout(), Some(ms(250)));
    assert!(matches!(b.first(), First::Inner));
    match b.polled::<u8>(Polled::Pending) {
        After::Clock { start } => assert_eq!(start, Some(ms(250))),
        other => panic!("{other:?}"),
    }
    assert!(matches!(b.clock(false), Polled::Pending));
    match b.polled::<u8>(Polled::Pending) {
        After::Clock { start } => assert_eq!(start, None, "it runs already"),
        other => panic!("{other:?}"),
    }
    match b.polled(Polled::Ready(1)) {
        After::Answer(Polled::Ready(1)) => {}
        other => panic!("{other:?}"),
    }
    match b.polled::<u8>(Polled::Pending) {
        After::Clock { start } => assert_eq!(start, Some(ms(250)), "each silence anew"),
        other => panic!("{other:?}"),
    }
    assert!(b.is_end_stream(true));
    match b.clock(true) {
        Polled::Ready(e) => assert_eq!(
            e.message(),
            "Timeout(BetweenBytes): the response body sent nothing for 250ms, its between_bytes \
             timeout"
        ),
        other => panic!("{other:?}"),
    }
    assert!(b.is_expired() && b.inner().is_none());
    assert!(!b.is_end_stream(true));
    assert!(matches!(b.first(), First::Expired(_)));
}

#[test]
fn a_body_without_a_bound_has_no_clock() {
    let mut b = IdleTimeout::new((), None);
    assert!(matches!(
        b.polled::<u8>(Polled::Pending),
        After::Answer(Polled::Pending)
    ));
}

#[test]
fn a_read_of_nothing_is_never_made_by_accident() {
    let io = HyperIo::with_capacity("s", 0);
    assert_eq!(io.want(5), 1);
    assert_eq!(io.want(0), 0);
    assert_eq!(io.into_inner(), "s");
    let mut io = HyperIo::new(1);
    assert_eq!(io.want(100_000), 16_384);
    assert_eq!(io.want(10), 10);
    *io.stream_mut() = 2;
    assert_eq!(io.into_inner(), 2);
    let mut io = HyperIo::with_capacity("stream", 0);
    let (stream, buffer) = io.parts_mut();
    assert_eq!(*stream, "stream");
    assert_eq!(buffer, [0]);
    buffer[0] = 7;
    assert_eq!(io.parts_mut().1, [7]);
}

#[test]
fn a_socket_that_would_wait_has_no_answer_yet() {
    assert!(matches!(
        poll_would_block::<u8, u8>(Err(1), true),
        Polled::Pending
    ));
    assert!(matches!(
        poll_would_block::<u8, u8>(Err(1), false),
        Polled::Ready(Err(1))
    ));
    assert!(matches!(
        poll_would_block::<u8, u8>(Ok(2), true),
        Polled::Ready(Ok(2))
    ));
    assert_eq!(shut_down::<u8>(Err(1), true), Ok(()));
    assert_eq!(shut_down::<u8>(Err(1), false), Err(1));
}

#[test]
fn a_loan_goes_back_where_it_came_from() {
    let mut pool: Pool<u32> = Pool::new(Some(PoolConfig::default()));
    CheckIn::new(h1_key(), ms(5)).put(&mut pool, Established::Sole(3));
    assert!(pool.take(&h1_key(), ms(4)).is_some());
}
