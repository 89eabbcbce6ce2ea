//! HTTP/3: early data, bodies and the two halves of a request.

use hclient_native::error::{Error, ErrorKind, Phase, Source};
use hclient_native::http3::body::{Ask, Given, H3Body};
use hclient_native::http3::early::{admits_early_data, refuse_early_data, BodyKind, RetryKind};
use hclient_native::http3::error::{
    ConnectTimedOut, RequestTrailersNotSent, UnknownRequestBodyFrame,
};
use hclient_native::http3::staged::{admission, Asked, Finish, Next, Report, Staging};
use hclient_native::net::{IpAddr, SocketAddr};
use hclient_native::poll::Polled;
use hclient_native::time::{Duration, Timeouts};
use hclient_native::uri::UriParts;

#[test]
fn an_unmarked_request_never_enters_early_data() {
    for body in [BodyKind::Empty, BodyKind::Full, BodyKind::Rewindable] {
        assert!(!admits_early_data(false, &body));
    }
}

#[test]
fn a_marked_request_with_a_replayable_body_is_admitted() {
    assert!(admits_early_data(true, &BodyKind::Empty));
    assert!(admits_early_data(true, &BodyKind::Full));
    assert!(admits_early_data(true, &BodyKind::Rewindable));
}

#[test]
fn a_marked_request_whose_body_cannot_be_replayed_is_refused() {
    assert_eq!(BodyKind::Streaming.retry_kind(), RetryKind::Impossible);
    assert!(!admits_early_data(true, &BodyKind::Streaming));
}

#[test]
fn a_refusal_of_early_data_says_who_refused() {
    let e = refuse_early_data("hclient-h3");
    assert_eq!(e.kind(), &ErrorKind::Unsupported);
    assert_eq!(
        e.message(),
        "Unsupported: hclient-h3 cannot offer TLS 1.3 early data, and the request carries \
         AllowEarlyData; it was refused rather than silently sent at 1-RTT"
    );
}

fn timeouts(connect: Option<Duration>) -> Timeouts {
    Timeouts {
        resolve: None,
        connect,
        first_byte: None,
        between_bytes: None,
    }
}

fn asked(uri: &str) -> Asked {
    Asked {
        uri: UriParts::parse(uri).expect("a URI"),
        marked: false,
        body: BodyKind::Empty,
        identity: None,
        timeouts: timeouts(None),
    }
}

#[test]
fn an_ordinary_request_is_admitted() {
    let a = admission(Ok(()), &asked("https://example.com/x"), None, false).unwrap();
    assert_eq!((a.host.as_str(), a.port), ("example.com", 443));
    assert!(!a.wants_early);
    assert_eq!(a.identity_id, None);
    let a = admission(Ok(()), &asked("https://example.com:8443/"), None, false).unwrap();
    assert_eq!(a.port, 8443);
}

#[test]
fn the_first_thing_that_is_wrong_is_named() {
    let demand = Error::new(ErrorKind::Unsupported, Source::Outside("version".to_string()));
    let mut req = asked("http://example.com/");
    req.identity = Some("alice".to_string());
    req.marked = true;
    let e = admission(Err(demand), &req, None, false).unwrap_err();
    assert_eq!(e.message(), "Unsupported: version");
    let e = admission(Ok(()), &req, None, false).unwrap_err();
    assert_eq!(
        e.message(),
        "Connect: HTTP/3 runs over QUIC, which is always TLS; `http` has no plaintext form"
    );
    let e = admission(Ok(()), &asked("/path"), None, false).unwrap_err();
    assert_eq!(
        e.message(),
        "Connect: HTTP/3 runs over QUIC, which is always TLS; `(no scheme)` has no plaintext form"
    );
    req.uri = UriParts::parse("https://example.com/").unwrap();
    let e = admission(Ok(()), &req, None, false).unwrap_err();
    assert_eq!(e.kind(), &ErrorKind::Tls);
    assert_eq!(
        e.message(),
        "Tls: no client identity named `alice` in this TLS backend"
    );
    let e = admission(Ok(()), &req, Some(4), false).unwrap_err();
    assert_eq!(e.kind(), &ErrorKind::Unsupported);
    let a = admission(Ok(()), &req, Some(4), true).unwrap();
    assert!(a.wants_early);
    assert_eq!(a.identity_id, Some(4));
    assert_eq!(a.identity.as_deref(), Some("alice"));
    let req = Asked {
        uri: UriParts {
            scheme: Some("https".to_string()),
            host: None,
            port: None,
        },
        ..asked("https://h/")
    };
    let e = admission(Ok(()), &req, None, false).unwrap_err();
    assert_eq!(e.message(), "Connect: request URI has no host");
}

#[test]
fn a_connection_that_is_not_made_gives_the_request_back() {
    let failed = || Error::new(ErrorKind::Connect, Source::Outside("no route".to_string()));
    let refused = Staging::begin("request", Err(failed())).unwrap_err();
    assert_eq!(refused.error().message(), "Connect: no route");
    assert_eq!(refused.into_parts().1, "request");
    let begin = || {
        let req = Asked {
            timeouts: timeouts(Some(Duration::from_secs(2))),
            ..asked("https://example.com/")
        };
        Staging::begin("request", admission(Ok(()), &req, None, false)).unwrap()
    };
    let (staging, bound) = begin();
    assert_eq!(bound, Some(Duration::from_secs(2)));
    let refused = staging.resolved(Err(failed()), 1).unwrap_err();
    assert_eq!(refused.into_parts().1, "request");
    let refused = begin().0.timed_out(Duration::from_secs(2));
    assert_eq!(refused.error().kind(), &ErrorKind::Timeout(Phase::Connect));
    assert_eq!(
        refused.into_error().message(),
        "Timeout(Connect): no HTTP/3 connection within the connect timeout of 2s"
    );
    let refused = begin().0.checked_out(Err(failed())).unwrap_err();
    assert_eq!(refused.into_parts().1, "request");
}

#[test]
fn a_connection_is_looked_for_under_all_it_depends_on() {
    let mut req = asked("https://example.com/");
    req.identity = Some("alice".to_string());
    req.marked = true;
    let addr = SocketAddr {
        ip: IpAddr::V4(1),
        port: 443,
    };
    let (s, _) = Staging::begin(7, admission(Ok(()), &req, Some(4), true)).unwrap();
    let (s, key, to) = s.resolved(Ok(addr), 9).unwrap();
    assert_eq!(to, addr);
    assert_eq!((key.host.as_str(), key.port, key.tls), ("example.com", 443, 4));
    assert!(key.early_data);
    assert_eq!(key.identity.as_deref(), Some("alice"));
    let (staged, report) = s.checked_out(Ok((true, true))).unwrap();
    assert_eq!((staged.req, staged.early), (7, true));
    assert_eq!(report, Report::Connected);
    let req = asked("https://example.com/");
    let (s, _) = Staging::begin(8, admission(Ok(()), &req, None, true)).unwrap();
    let (s, key, _) = s.resolved(Ok(addr), 9).unwrap();
    assert_eq!(key.tls, 9);
    let (staged, report) = s.checked_out(Ok((false, false))).unwrap();
    assert!(!staged.early);
    assert_eq!(report, Report::Reused);
}

fn broken(text: &str) -> Error {
    Error::new(ErrorKind::Body, Source::Outside(text.to_string()))
}

#[test]
fn only_refused_early_data_is_sent_again() {
    let mut f: Finish<&str> = Finish::begin(false, Some("body"));
    match f.first(Err(broken("one"))) {
        Next::Fail(e) => assert_eq!(e.message(), "Body: one"),
        other => panic!("{other:?}"),
    }
    let mut f = Finish::begin(true, Some("body"));
    assert!(matches!(f.first(Err(broken("one"))), Next::AskVerdict));
    assert!(matches!(f.verdict(true), Next::Fail(_)));
    let mut f = Finish::begin(true, Some("body"));
    assert!(matches!(f.first(Err(broken("one"))), Next::AskVerdict));
    assert!(matches!(f.verdict(false), Next::Again("body")));
    match f.second(Err(broken("two"))) {
        Next::Fail(e) => assert_eq!(e.message(), "Body: two"),
        other => panic!("{other:?}"),
    }
    let mut f: Finish<&str> = Finish::begin(true, None);
    assert!(matches!(f.first(Err(broken("one"))), Next::AskVerdict));
    match f.verdict(false) {
        Next::Fail(e) => assert_eq!(e.message(), "Body: one"),
        other => panic!("{other:?}"),
    }
    let mut f: Finish<&str> = Finish::begin(true, None);
    assert!(matches!(f.first(Ok(())), Next::Head));
}

#[test]
fn a_body_gives_data_then_trailers_then_nothing() {
    let mut b = H3Body::new(true);
    assert!(b.pumped(Polled::Pending).is_none());
    assert!(b.sending);
    assert!(b.pumped(Polled::Ready(Ok(()))).is_none());
    assert!(!b.sending);
    assert_eq!(b.ask(), Ask::Data);
    let g: Given<u8, u8> = b.data(Ok(Some(1)));
    assert!(matches!(g, Given::Data(1)));
    let g: Given<u8, u8> = b.data(Ok(None));
    assert!(matches!(g, Given::AskTrailers));
    assert_eq!(b.ask(), Ask::Trailers);
    let g: Given<u8, u8> = b.trailers(Ok(Some(2)));
    assert!(matches!(g, Given::Trailers(2)));
    assert_eq!(b.ask(), Ask::Nothing);
}

#[test]
fn a_failure_of_either_half_ends_a_body() {
    let mut b = H3Body::new(true);
    let e = b.pumped(Polled::Ready(Err(broken("sending")))).unwrap();
    assert_eq!(e.message(), "Body: sending");
    assert_eq!(b.ask(), Ask::Nothing);
    let mut b = H3Body::new(false);
    let g: Given<u8, u8> = b.data(Err("reset".to_string()));
    match g {
        Given::Failed(e) => assert_eq!(e.message(), "Body: reset"),
        other => panic!("{other:?}"),
    }
    assert_eq!(b.ask(), Ask::Nothing);
    let mut b = H3Body::new(false);
    let _: Given<u8, u8> = b.data(Ok(None));
    let g: Given<u8, u8> = b.trailers(Err("reset".to_string()));
    assert!(matches!(g, Given::Failed(_)));
}

#[test]
fn the_refusals_say_what_was_refused() {
    assert_eq!(
        RequestTrailersNotSent.message(),
        "hclient-h3 does not send request trailers; Capabilities::request_trailers reports \
         false, and the request stream was reset rather than finished without them"
    );
    assert_eq!(
        UnknownRequestBodyFrame.message(),
        "the request body yielded a frame that is neither data nor trailers"
    );
    assert_eq!(
        ConnectTimedOut(Duration::from_millis(1500)).message(),
        "no HTTP/3 connection within the connect timeout of 1.5s"
    );
}
