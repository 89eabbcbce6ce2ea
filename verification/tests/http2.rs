//! HTTP/2: what its failures mean, and its keep-alive.

use hclient_native::error::ErrorKind;
use hclient_native::http2::error::{
    from_h2_error, stopped_after_a_complete_response, ConnectionEndedWithTheRequestQueued,
    ConnectionWentAwayBeforeTheRequest, H2Failure, PingNotAnswered,
    StreamClosedWhileSendingTheRequestBody, UnknownRequestBodyFrame,
};
use hclient_native::http2::keepalive::{H2KeepAlive, KeepAlive, Lapsed, Next, Phase};
use hclient_native::poll::Polled;
use hclient_native::time::Duration;

#[test]
fn only_a_reset_without_an_error_ends_a_body() {
    let f = |reset, reason| H2Failure { reset, reason };
    assert!(stopped_after_a_complete_response(&f(true, Some(0))));
    assert!(!stopped_after_a_complete_response(&f(true, Some(8))));
    assert!(!stopped_after_a_complete_response(&f(true, None)));
    assert!(!stopped_after_a_complete_response(&f(false, Some(0))));
}

#[test]
fn the_code_for_no_error_is_the_one_that_h2_uses() {
    assert_eq!(u32::from(h2::Reason::NO_ERROR), 0);
}

#[test]
fn a_failure_takes_the_kind_that_fits_the_moment() {
    let e = from_h2_error("broken pipe".to_string(), ErrorKind::Body);
    assert_eq!(e.message(), "Body: broken pipe");
}

fn cfg() -> H2KeepAlive {
    H2KeepAlive::new(Duration::from_secs(30), Duration::from_secs(5))
}

#[test]
fn a_ping_follows_each_interval_and_a_pong_starts_the_next() {
    let (mut k, first) = KeepAlive::new(cfg());
    assert_eq!(first, Duration::from_secs(30));
    let next: Next<String> = k.pinged(Ok(()));
    assert!(matches!(next, Next::Sleep(d) if d == Duration::from_secs(5)));
    assert_eq!(k.phase, Phase::Probing);
    let next: Next<String> = k.ponged(Polled::Ready(Ok(())));
    assert!(matches!(next, Next::Sleep(d) if d == Duration::from_secs(30)));
    assert_eq!(k.phase, Phase::Idle);
}

#[test]
fn an_unanswered_ping_ends_the_connection_at_its_deadline() {
    let (mut k, _) = KeepAlive::new(cfg());
    let _: Next<String> = k.pinged(Ok(()));
    let next: Next<String> = k.ponged(Polled::Pending);
    assert!(matches!(next, Next::AskDeadline));
    let next: Next<String> = k.deadline(false);
    assert!(matches!(next, Next::Wait));
    let next: Next<String> = k.deadline(true);
    assert!(matches!(next, Next::End(Lapsed::NoPong)));
}

#[test]
fn a_connection_that_cannot_be_asked_ends() {
    let (mut k, _) = KeepAlive::new(cfg());
    let next = k.pinged(Err("gone"));
    assert!(matches!(next, Next::End(Lapsed::Broken("gone"))));
    let (mut k, _) = KeepAlive::new(cfg());
    let _: Next<&str> = k.pinged(Ok(()));
    let next = k.ponged(Polled::Ready(Err("gone")));
    assert!(matches!(next, Next::End(Lapsed::Broken("gone"))));
}

#[test]
fn the_failures_say_what_happened() {
    assert_eq!(
        ConnectionWentAwayBeforeTheRequest.message(),
        "the pooled HTTP/2 connection was closed before the request was sent"
    );
    assert_eq!(
        ConnectionEndedWithTheRequestQueued.message(),
        "the HTTP/2 connection ended while the request was still in flight"
    );
    assert_eq!(
        StreamClosedWhileSendingTheRequestBody.message(),
        "the HTTP/2 stream closed while the request body was still being sent"
    );
    assert_eq!(
        UnknownRequestBodyFrame.message(),
        "the request body produced a frame that is neither data nor trailers"
    );
    assert_eq!(
        PingNotAnswered.message(),
        "the HTTP/2 peer did not answer a keep-alive PING within the bound"
    );
}

#[test]
fn no_second_ping_goes_out_before_the_first_is_answered() {
    let (mut k, _) = KeepAlive::new(cfg());
    for _ in 0..3 {
        assert_eq!(k.phase, Phase::Idle);
        let _: Next<String> = k.pinged(Ok(()));
        for _ in 0..4 {
            let next: Next<String> = k.ponged(Polled::Pending);
            assert!(matches!(next, Next::AskDeadline));
            assert_eq!(k.phase, Phase::Probing);
        }
        let next: Next<String> = k.ponged(Polled::Ready(Ok(())));
        assert!(matches!(next, Next::Sleep(d) if d == Duration::from_secs(30)));
    }
}
