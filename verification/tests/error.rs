//! What failures say.

use hclient_native::discovery::{alpn_offer, lookup, Answer, Discovered, NegativeCache, Origin};
use hclient_native::discovery::{Prefetched, Prepared, SvcbEndpoint};
use hclient_native::error::{
    AllAttemptsFailed, BetweenBytesElapsed, ConnectTimedOut, ConnectionEndedWithTheRequestQueued,
    ConnectionWentAwayBeforeTheRequest, EndedBeforeTheResponse, Error, ErrorKind,
    FirstByteTimedOut, Http2NotCompiledIn, NoQuicArm, NotSwitchingProtocols, Phase, ResolveErrors,
    ResolveTimedOut, Source, UndeclaredRequestTrailers,
};
use hclient_native::net::{split_families, IpAddr};
use hclient_native::text::{
    same_ignoring_case, same_octets_ignoring_case, to_decimal, to_lower,
};
use hclient_native::time::Duration;
use hclient_native::uri::{bare_host, host, port, wants_tls, UriParts};

#[test]
fn spans_are_written_as_the_standard_library_writes_them() {
    for nanos in [0u64, 1, 1_500, 2_000_000, 1_500_000_000, 90_000_000_000] {
        let d = Duration {
            nanos: u128::from(nanos),
        };
        let std = std::time::Duration::from_nanos(nanos);
        assert_eq!(
            ConnectTimedOut(d).message(),
            format!("connect timed out after {std:?}")
        );
    }
    assert_eq!(
        ResolveTimedOut(Duration::from_secs(2)).message(),
        "no address from the resolver within the resolve timeout of 2s"
    );
    assert_eq!(
        FirstByteTimedOut(Duration::from_millis(10)).message(),
        "no response head within the first_byte timeout of 10ms"
    );
    assert_eq!(
        BetweenBytesElapsed(Duration::from_millis(10)).message(),
        "the response body sent nothing for 10ms, its between_bytes timeout"
    );
}

#[test]
fn a_status_is_written_with_its_phrase() {
    assert_eq!(
        NotSwitchingProtocols(200).message(),
        "the server answered 200 OK rather than 101 Switching Protocols"
    );
    assert_eq!(
        NotSwitchingProtocols(599).message(),
        "the server answered 599 <unknown status code> rather than 101 Switching Protocols"
    );
}

#[test]
fn undeclared_trailers_are_listed_twice() {
    let e = UndeclaredRequestTrailers(vec!["a".to_string(), "b".to_string()]);
    assert_eq!(e.fields(), ["a".to_string(), "b".to_string()]);
    let m = e.message();
    assert!(m.starts_with("the request body emitted trailer field(s) [a, b] that the request's"));
    assert!(m.contains("send `Trailer: a, b` with the request head"));
    assert!(m.ends_with("do not retry blindly"));
}

#[test]
fn the_rest_says_what_happened() {
    assert_eq!(
        Http2NotCompiledIn.message(),
        "`http2(true)` needs `hclient-native`'s `http2` feature, which this build does not have"
    );
    assert_eq!(
        NoQuicArm.message(),
        "this transport has no QUIC arm; see `Native::http3`"
    );
    assert_eq!(
        AllAttemptsFailed(12).message(),
        "all 12 connection attempts failed"
    );
    assert_eq!(
        ConnectionWentAwayBeforeTheRequest.message(),
        "the pooled connection was closed before the request was sent"
    );
    assert_eq!(
        ConnectionEndedWithTheRequestQueued.message(),
        "the connection ended while the request was still queued on it"
    );
    assert_eq!(
        EndedBeforeTheResponse.message(),
        "the connection ended before the handshake response arrived"
    );
}

#[test]
fn every_kind_has_its_name() {
    for (kind, name) in [
        (ErrorKind::Connect, "Connect"),
        (ErrorKind::Resolve, "Resolve"),
        (ErrorKind::Tls, "Tls"),
        (ErrorKind::Timeout(Phase::Resolve), "Timeout(Resolve)"),
        (ErrorKind::Timeout(Phase::Connect), "Timeout(Connect)"),
        (ErrorKind::Timeout(Phase::FirstByte), "Timeout(FirstByte)"),
        (
            ErrorKind::Timeout(Phase::BetweenBytes),
            "Timeout(BetweenBytes)",
        ),
        (ErrorKind::Cancelled, "Cancelled"),
        (ErrorKind::Unsupported, "Unsupported"),
        (ErrorKind::Body, "Body"),
    ] {
        assert_eq!(kind.name(), name);
        assert_eq!(format!("{kind:?}"), name);
    }
}

#[test]
fn the_distinguishing_failure_is_the_first_that_is_not_about_the_name() {
    let e = |kind| Error::new(kind, Source::Outside("x".to_string()));
    let r = ResolveErrors::from_families(
        Some(e(ErrorKind::Resolve)),
        Some(e(ErrorKind::Cancelled)),
    );
    assert_eq!(
        r.distinguishing_error().unwrap().kind(),
        &ErrorKind::Cancelled
    );
    let r = ResolveErrors::from_families(Some(e(ErrorKind::Tls)), Some(e(ErrorKind::Cancelled)));
    assert_eq!(r.distinguishing_error().unwrap().kind(), &ErrorKind::Tls);
    let r = ResolveErrors::from_families(Some(e(ErrorKind::Resolve)), None);
    assert!(r.distinguishing_error().is_none());
    assert!(ResolveErrors::from_families(None, None)
        .distinguishing_error()
        .is_none());
}

// ---------------------------------------------------------------------------
// URIs
// ---------------------------------------------------------------------------

#[test]
fn a_uri_is_read_as_the_http_crate_reads_it() {
    for text in [
        "https://example.com/",
        "http://[::1]:8080/x",
        "/path",
        "example.com:443",
        "*",
        "HTTPS://EXAMPLE.com/",
    ] {
        let uri: http::Uri = text.parse().unwrap();
        let p = UriParts::parse(text).unwrap();
        assert_eq!(p.scheme.as_deref(), uri.scheme_str());
        assert_eq!(p.host.as_deref(), uri.host());
        assert_eq!(p.port, uri.port_u16());
    }
    assert!(UriParts::parse("http://a b/").is_none());
}

#[test]
fn host_scheme_and_port_are_decided_one_by_one() {
    let p = UriParts::parse("http://[::1]:8080/").unwrap();
    assert_eq!(host(&p).unwrap(), "[::1]");
    assert!(!wants_tls(&p).unwrap());
    assert_eq!(port(&p, false), 8080);
    let p = UriParts::parse("/p").unwrap();
    assert!(host(&p).is_err());
    let e = wants_tls(&p).unwrap_err();
    assert_eq!(e.message(), "Unsupported: unsupported URI scheme: \"\"");
    assert_eq!((port(&p, true), port(&p, false)), (443, 80));
}

#[test]
fn brackets_are_the_uris_and_not_the_hosts() {
    assert_eq!(bare_host("[::1]"), "::1");
    assert_eq!(bare_host("example.com"), "example.com");
    assert_eq!(bare_host("["), "[");
    assert_eq!(bare_host("[x"), "[x");
}

// ---------------------------------------------------------------------------
// Records
// ---------------------------------------------------------------------------

fn record(priority: u16, port: u16) -> Answer {
    Answer::Https(SvcbEndpoint {
        priority,
        target: String::new(),
        port: Some(port),
        ipv4hint: Vec::new(),
        ipv6hint: Vec::new(),
        alpn: vec![b"h3".to_vec()],
        ech_config_list: None,
    })
}

#[test]
fn the_lowest_priority_wins_and_an_alias_never_does() {
    let best = |answers| lookup(answers).and_then(|e| e.port);
    assert_eq!(
        best(vec![
            record(0, 1),
            Answer::Failed,
            record(3, 3),
            record(2, 2),
            record(2, 9),
            Answer::Other,
        ]),
        Some(2)
    );
    assert_eq!(best(vec![record(0, 1), Answer::Failed]), None);
    assert_eq!(best(vec![]), None);
}

#[test]
fn an_offer_keeps_to_the_record_and_to_us() {
    let ours: Vec<&[u8]> = vec![b"h2", b"http/1.1"];
    assert_eq!(alpn_offer(&ours, &[b"h2".to_vec()]), ours);
    assert_eq!(
        alpn_offer(&ours, &[b"h3".to_vec()]),
        vec![b"http/1.1".as_slice()],
        "every record stands for HTTP/1.1"
    );
    let ours: Vec<&[u8]> = vec![b"h2"];
    assert_eq!(
        alpn_offer(&ours, &[b"h3".to_vec()]),
        ours,
        "nothing in common is no reason to offer nothing"
    );
}

#[test]
fn what_is_known_of_a_record_has_three_states() {
    let p = Prepared::new("request");
    assert!(matches!(p.discovered(), Discovered::NotConsulted));
    assert_eq!(*p.request(), "request");
    assert_eq!(p.into_request(), "request");
    assert!(matches!(
        Prefetched::Looked(None).discovered(),
        Discovered::NoRecord
    ));
    let p = Prefetched::Looked(lookup(vec![record(1, 1)]));
    match p.discovered() {
        Discovered::Record { alpn } => assert_eq!(alpn, [b"h3".to_vec()]),
        other => panic!("{other:?}"),
    }
}

#[test]
fn a_failed_record_is_left_alone_for_five_minutes() {
    let mut cache = NegativeCache::default();
    cache.record(Origin::new("h", 443), Duration::from_secs(10));
    let o = Origin::new("H", 443);
    assert!(cache.suppressed(&o, Duration::from_secs(309)));
    assert!(!cache.suppressed(&Origin::new("h", 444), Duration::from_secs(309)));
    assert!(!cache.suppressed(&o, Duration::from_secs(310)));
    assert!(!cache.suppressed(&o, Duration::from_secs(11)));
}

// ---------------------------------------------------------------------------
// Pieces
// ---------------------------------------------------------------------------

#[test]
fn ascii_case_is_all_the_case_there_is() {
    assert_eq!(to_lower("AbZ\u{c9}z"), "abz\u{c9}z");
    assert!(same_ignoring_case("ABC", "abc"));
    assert!(!same_ignoring_case("\u{c9}", "\u{e9}"));
    assert!(same_octets_ignoring_case(b"Ma", b"mA"));
    assert!(!same_octets_ignoring_case(b"ma", b"man"));
}

#[test]
fn numerals_have_no_leading_zeros() {
    for n in [0u64, 7, 10, 443, 65_535, u64::MAX] {
        assert_eq!(to_decimal(n), n.to_string());
    }
}

#[test]
fn families_are_told_apart_in_their_order() {
    let (v6, v4) = split_families(&vec![
        IpAddr::V4(1),
        IpAddr::V6(2),
        IpAddr::V4(3),
        IpAddr::V6(4),
    ]);
    assert_eq!(v6, vec![IpAddr::V6(2), IpAddr::V6(4)]);
    assert_eq!(v4, vec![IpAddr::V4(1), IpAddr::V4(3)]);
}

#[test]
fn spans_are_held_at_their_ends() {
    let max = Duration::from_secs(u64::MAX);
    assert_eq!(
        max.saturating_add(max).as_secs(),
        u64::MAX,
        "as the longest span of the standard library"
    );
    assert_eq!(
        max.saturating_add(max).nanos,
        std::time::Duration::MAX.as_nanos()
    );
    assert_eq!(
        Duration::from_millis(1).saturating_sub(Duration::from_millis(2)).nanos,
        0
    );
}
