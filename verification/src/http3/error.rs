//! What HTTP/3 refuses and nothing else does.

use vstd::prelude::*;
use vstd::string::*;

use crate::error::{span_text, span_words};
use crate::time::Duration;

verus! {

/// A request body with trailers, which are not sent.
#[derive(Debug, Clone, Copy, PartialEq, Eq, Structural)]
pub struct RequestTrailersNotSent;

/// A request body that holds something that cannot be sent.
#[derive(Debug, Clone, Copy, PartialEq, Eq, Structural)]
pub struct UnknownRequestBodyFrame;

/// No connection came within the bound.
#[derive(Debug, Clone, Copy, PartialEq, Eq, Structural)]
pub struct ConnectTimedOut(pub Duration);

impl RequestTrailersNotSent {
    /// The words for it.
    pub open spec fn words(self) -> Seq<char> {
        "hclient-h3 does not send request trailers; Capabilities::request_trailers reports false, and the request stream was reset rather than finished without them"@
    }

    /// It in words.
    pub fn message(&self) -> (r: String)
        ensures
            r@ == self.words(),
    {
        "hclient-h3 does not send request trailers; Capabilities::request_trailers reports false, and the request stream was reset rather than finished without them".to_owned()
    }
}

impl UnknownRequestBodyFrame {
    /// The words for it.
    pub open spec fn words(self) -> Seq<char> {
        "the request body yielded a frame that is neither data nor trailers"@
    }

    /// It in words.
    pub fn message(&self) -> (r: String)
        ensures
            r@ == self.words(),
    {
        "the request body yielded a frame that is neither data nor trailers".to_owned()
    }
}

impl ConnectTimedOut {
    /// The words for it.
    pub open spec fn words(self) -> Seq<char> {
        "no HTTP/3 connection within the connect timeout of "@ + span_words(self.0)
    }

    /// It in words.
    pub fn message(&self) -> (r: String)
        ensures
            r@ == self.words(),
    {
        "no HTTP/3 connection within the connect timeout of ".to_owned().concat(
            span_text(self.0).as_str(),
        )
    }
}

} // verus!
