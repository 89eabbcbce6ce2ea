//! What an HTTP/2 failure means to this transport, and the failures that it
//! has no words for itself.

use std::sync::Arc;

use vstd::prelude::*;
use vstd::string::*;

use crate::error::{Error, ErrorKind, Source};

verus! {

/// The code with which a peer says that nothing went wrong (RFC 9113).
pub const NO_ERROR: u32 = 0;

/// What a failure of the HTTP/2 connection says of itself.
#[derive(Debug, Clone, Copy, PartialEq, Eq, Structural)]
pub struct H2Failure {
    /// Whether it is the reset of one stream.
    pub reset: bool,
    /// The code that the peer gave.
    pub reason: Option<u32>,
}

/// A failure of the HTTP/2 connection, in its own words, as a failure of the
/// kind that fits the moment.
pub fn from_h2_error(text: String, fallback: ErrorKind) -> (r: Error)
    ensures
        r == (Error { kind: fallback, source: Arc::new(Source::Outside(text)) }),
{
    Error::new(fallback, Source::Outside(text))
}

/// A reset that says that nothing went wrong ends a response body; every other
/// failure fails it (RFC 9113, 8.1).
pub open spec fn ends_cleanly(f: H2Failure) -> bool {
    f.reset && f.reason == Some(NO_ERROR)
}

/// Whether the peer stopped the request because its response was complete.
pub fn stopped_after_a_complete_response(f: &H2Failure) -> (r: bool)
    ensures
        r == ends_cleanly(*f),
{
    f.reset && match f.reason {
        Some(code) => code == NO_ERROR,
        None => false,
    }
}

/// A pooled connection closed before its request was handed over.
#[derive(Debug, Clone, Copy, PartialEq, Eq, Structural)]
pub struct ConnectionWentAwayBeforeTheRequest;

/// A connection ended with its request under way.
#[derive(Debug, Clone, Copy, PartialEq, Eq, Structural)]
pub struct ConnectionEndedWithTheRequestQueued;

/// A stream closed with its request body half sent.
#[derive(Debug, Clone, Copy, PartialEq, Eq, Structural)]
pub struct StreamClosedWhileSendingTheRequestBody;

/// A request body that holds something that cannot be sent.
#[derive(Debug, Clone, Copy, PartialEq, Eq, Structural)]
pub struct UnknownRequestBodyFrame;

/// A peer that did not answer in time.
#[derive(Debug, Clone, Copy, PartialEq, Eq, Structural)]
pub struct PingNotAnswered;

impl ConnectionWentAwayBeforeTheRequest {
    /// The words for it.
    pub open spec fn words(self) -> Seq<char> {
        "the pooled HTTP/2 connection was closed before the request was sent"@
    }

    /// It in words.
    pub fn message(&self) -> (r: String)
        ensures
            r@ == self.words(),
    {
        "the pooled HTTP/2 connection was closed before the request was sent".to_owned()
    }
}

impl ConnectionEndedWithTheRequestQueued {
    /// The words for it.
    pub open spec fn words(self) -> Seq<char> {
        "the HTTP/2 connection ended while the request was still in flight"@
    }

    /// It in words.
    pub fn message(&self) -> (r: String)
        ensures
            r@ == self.words(),
    {
        "the HTTP/2 connection ended while the request was still in flight".to_owned()
    }
}

impl StreamClosedWhileSendingTheRequestBody {
    /// The words for it.
    pub open spec fn words(self) -> Seq<char> {
        "the HTTP/2 stream closed while the request body was still being sent"@
    }

    /// It in words.
    pub fn message(&self) -> (r: String)
        ensures
            r@ == self.words(),
    {
        "the HTTP/2 stream closed while the request body was still being sent".to_owned()
    }
}

impl UnknownRequestBodyFrame {
    /// The words for it.
    pub open spec fn words(self) -> Seq<char> {
        "the request body produced a frame that is neither data nor trailers"@
    }

    /// It in words.
    pub fn message(&self) -> (r: String)
        ensures
            r@ == self.words(),
    {
        "the request body produced a frame that is neither data nor trailers".to_owned()
    }
}

impl PingNotAnswered {
    /// The words for it.
    pub open spec fn words(self) -> Seq<char> {
        "the HTTP/2 peer did not answer a keep-alive PING within the bound"@
    }

    /// It in words.
    pub fn message(&self) -> (r: String)
        ensures
            r@ == self.words(),
    {
        "the HTTP/2 peer did not answer a keep-alive PING within the bound".to_owned()
    }
}

/// A body ends without a failure exactly where its stream was reset with the
/// code zero.
pub proof fn law_only_a_reset_without_an_error_is_an_end(f: H2Failure)
    ensures
        ends_cleanly(f) <==> f.reset && f.reason is Some && f.reason->0 == 0,
{
}

} // verus!
