//! Everything this transport fails with, and the words it fails in.

use std::sync::Arc;

use vstd::prelude::*;
use vstd::string::*;

use crate::text::{decimal, to_decimal};
use crate::time::Duration;

verus! {

/// Which of the deadlines of a request passed.
#[derive(Debug, Clone, Copy, PartialEq, Eq, Structural)]
pub enum Phase {
    Resolve,
    Connect,
    FirstByte,
    BetweenBytes,
}

/// What a caller can tell failures apart by.
#[derive(Debug, Clone, Copy, PartialEq, Eq, Structural)]
pub enum ErrorKind {
    Connect,
    Resolve,
    Tls,
    Timeout(Phase),
    Cancelled,
    Unsupported,
    Body,
}

/// A failure: its kind, and what went wrong.
#[derive(Debug)]
pub struct Error {
    /// What a caller can tell failures apart by.
    pub kind: ErrorKind,
    /// What went wrong.
    pub source: Arc<Source>,
}

/// What went wrong.
#[derive(Debug)]
pub enum Source {
    /// Something outside this transport, in its own words.
    Outside(String),
    Io(IoFailure),
    NoVersionsLeft(NoVersionsLeft),
    Http2NotCompiledIn(Http2NotCompiledIn),
    MaxBufSizeTooSmall(MaxBufSizeTooSmall),
    ProxyAndUnixSocket(ProxyAndUnixSocket),
    InvalidHeConfig(InvalidHeConfig),
    UriError(UriError),
    UnsupportedScheme(UnsupportedScheme),
    PlaintextNeedsHttp1(PlaintextNeedsHttp1),
    NeedsHttp1(NeedsHttp1),
    UnknownClientIdentity(UnknownClientIdentity),
    NoQuicArm(NoQuicArm),
    AllAttemptsFailed(AllAttemptsFailed),
    ResolveErrors(ResolveErrors),
    ProxySpokeFirst(ProxySpokeFirst),
    ResolveTimedOut(ResolveTimedOut),
    ConnectTimedOut(ConnectTimedOut),
    FirstByteTimedOut(FirstByteTimedOut),
    BetweenBytesElapsed(BetweenBytesElapsed),
    H3ConnectTimedOut(crate::http3::error::ConnectTimedOut),
}

/// A peer that stopped taking or giving octets.
#[derive(Debug, Clone, Copy, PartialEq, Eq, Structural)]
pub enum IoFailure {
    /// A write of something took nothing.
    WriteZero,
    /// A read came to the end where more was due.
    UnexpectedEof,
}

/// Neither HTTP/1.1 nor HTTP/2 was left to speak.
#[derive(Debug, Clone, Copy, PartialEq, Eq, Structural)]
pub struct NoVersionsLeft;

/// HTTP/2 was asked for and is not there.
#[derive(Debug, Clone, Copy, PartialEq, Eq, Structural)]
pub struct Http2NotCompiledIn;

/// The smallest read buffer that HTTP/1.1 works with.
pub const MINIMUM_MAX_BUF_SIZE: usize = 8192;

/// A read buffer below [`MINIMUM_MAX_BUF_SIZE`].
#[derive(Debug, Clone, Copy, PartialEq, Eq, Structural)]
pub struct MaxBufSizeTooSmall {
    pub asked: usize,
}

/// Two answers to where a connection goes.
#[derive(Debug, Clone, Copy, PartialEq, Eq, Structural)]
pub struct ProxyAndUnixSocket;

/// A delay between connection attempts that would not be kept to.
#[derive(Debug, Clone, Copy, PartialEq, Eq, Structural)]
pub struct InvalidHeConfig {
    pub requested: Duration,
    pub effective: Duration,
}

/// Two stacks of which no one statement is true.
#[derive(Debug, PartialEq, Eq)]
pub struct Disagreement {
    /// What they disagree on.
    pub field: &'static str,
    /// What the TCP stack says.
    pub tcp: String,
    /// What the QUIC stack says.
    pub quic: String,
}

/// A request without a host.
#[derive(Debug, Clone, Copy, PartialEq, Eq, Structural)]
pub struct UriError;

/// A scheme that is neither `http` nor `https`.
#[derive(Debug)]
pub struct UnsupportedScheme(pub String);

/// Plain `http` on a transport without HTTP/1.1.
#[derive(Debug, Clone, Copy, PartialEq, Eq, Structural)]
pub struct PlaintextNeedsHttp1;

/// A request that could go by HTTP/1.1 alone, on a transport that does not
/// speak it.
#[derive(Debug, Clone, Copy, PartialEq, Eq, Structural)]
pub struct NeedsHttp1;

/// A client identity that the TLS backend has not got.
#[derive(Debug)]
pub struct UnknownClientIdentity(pub String);

/// HTTP/3 asked of a transport without QUIC.
#[derive(Debug, Clone, Copy, PartialEq, Eq, Structural)]
pub struct NoQuicArm;

/// Every connection attempt failed; so many were made.
#[derive(Debug, Clone, Copy, PartialEq, Eq, Structural)]
pub struct AllAttemptsFailed(pub usize);

/// What the address lookups failed with, by family.
#[derive(Debug)]
pub enum ResolveErrors {
    Both { v6: Error, v4: Error },
    Ipv6 { v6: Error },
    Ipv4 { v4: Error },
    Neither,
}

/// A proxy sent so many octets before anything was said to the origin.
#[derive(Debug, Clone, Copy, PartialEq, Eq, Structural)]
pub struct ProxySpokeFirst(pub usize);

/// No address came within the bound.
#[derive(Debug, Clone, Copy, PartialEq, Eq, Structural)]
pub struct ResolveTimedOut(pub Duration);

/// No connection came within the bound.
#[derive(Debug, Clone, Copy, PartialEq, Eq, Structural)]
pub struct ConnectTimedOut(pub Duration);

/// No response head came within the bound.
#[derive(Debug, Clone, Copy, PartialEq, Eq, Structural)]
pub struct FirstByteTimedOut(pub Duration);

/// The response body stayed silent for the bound.
#[derive(Debug, Clone, Copy, PartialEq, Eq, Structural)]
pub struct BetweenBytesElapsed(pub Duration);

/// A pooled connection closed before its request was handed over.
#[derive(Debug, Clone, Copy, PartialEq, Eq, Structural)]
pub struct ConnectionWentAwayBeforeTheRequest;

/// A connection ended with its request still waiting on it.
#[derive(Debug, Clone, Copy, PartialEq, Eq, Structural)]
pub struct ConnectionEndedWithTheRequestQueued;

/// An upgrade answered with another status.
#[derive(Debug, Clone, Copy, PartialEq, Eq, Structural)]
pub struct NotSwitchingProtocols(pub u16);

/// A connection ended before the answer to an upgrade came.
#[derive(Debug, Clone, Copy, PartialEq, Eq, Structural)]
pub struct EndedBeforeTheResponse;

/// Trailer fields that the request head did not declare.
#[derive(Debug, PartialEq, Eq)]
pub struct UndeclaredRequestTrailers(pub Vec<String>);

impl Error {
    /// A failure of this kind.
    pub fn new(kind: ErrorKind, source: Source) -> (r: Self)
        ensures
            r == (Error { kind, source: Arc::new(source) }),
            r.kind == kind,
            *r.source == source,
    {
        Error { kind, source: Arc::new(source) }
    }

    /// Another one of the same.
    pub fn copy(&self) -> (r: Self)
        ensures
            r == *self,
    {
        Error { kind: self.kind, source: self.source.clone() }
    }

    /// What a caller can tell failures apart by.
    pub fn kind(&self) -> (r: &ErrorKind)
        ensures
            *r == self.kind,
    {
        &self.kind
    }

    /// What went wrong.
    pub fn source(&self) -> (r: &Source)
        ensures
            *r == *self.source,
    {
        &self.source
    }
}

// ---------------------------------------------------------------------------
// The words
// ---------------------------------------------------------------------------

/// How `Debug` of `std::time::Duration` writes so many seconds and
/// nanoseconds.
pub uninterp spec fn duration_text(secs: u64, subsec_nanos: u32) -> Seq<char>;

/// `Debug` of `std::time::Duration`: the text is a function of the seconds and
/// nanoseconds.
#[verifier::external_body]
fn duration_debug(secs: u64, subsec_nanos: u32) -> (r: String)
    requires
        subsec_nanos < 1_000_000_000,
    ensures
        r@ == duration_text(secs, subsec_nanos),
{
    format!("{:?}", std::time::Duration::new(secs, subsec_nanos))
}

/// How a span is written.
pub open spec fn span_words(d: Duration) -> Seq<char> {
    duration_text(
        (if d.nanos / 1_000_000_000 <= u64::MAX {
            d.nanos / 1_000_000_000
        } else {
            u64::MAX as u128
        }) as u64,
        (d.nanos % 1_000_000_000) as u32,
    )
}

/// A span in words.
pub fn span_text(d: Duration) -> (r: String)
    ensures
        r@ == span_words(d),
{
    duration_debug(d.as_secs(), (d.nanos % 1_000_000_000) as u32)
}

/// How `Debug` of `str` writes some text: in quotes, with what needs it
/// escaped.
pub uninterp spec fn quoted_text(s: Seq<char>) -> Seq<char>;

/// `Debug` of `str`: the text in quotes is a function of the text.
#[verifier::external_body]
pub(crate) fn quote(s: &str) -> (r: String)
    ensures
        r@ == quoted_text(s@),
{
    format!("{:?}", s)
}

/// How `Display` of `http::StatusCode` writes a status: the number and the
/// phrase that goes with it.
pub uninterp spec fn status_text(code: u16) -> Seq<char>;

/// `http::StatusCode::from_u16` and its `Display`: from 100 to 999 there is a
/// status, and its text is a function of the number.
#[verifier::external_body]
fn status_display(code: u16) -> (r: String)
    requires
        100 <= code < 1000,
    ensures
        r@ == status_text(code),
{
    http::StatusCode::from_u16(code).map(|s| s.to_string()).unwrap_or_default()
}

/// The name of a kind.
pub open spec fn kind_words(kind: ErrorKind) -> Seq<char> {
    match kind {
        ErrorKind::Connect => "Connect"@,
        ErrorKind::Resolve => "Resolve"@,
        ErrorKind::Tls => "Tls"@,
        ErrorKind::Timeout(Phase::Resolve) => "Timeout(Resolve)"@,
        ErrorKind::Timeout(Phase::Connect) => "Timeout(Connect)"@,
        ErrorKind::Timeout(Phase::FirstByte) => "Timeout(FirstByte)"@,
        ErrorKind::Timeout(Phase::BetweenBytes) => "Timeout(BetweenBytes)"@,
        ErrorKind::Cancelled => "Cancelled"@,
        ErrorKind::Unsupported => "Unsupported"@,
        ErrorKind::Body => "Body"@,
    }
}

impl ErrorKind {
    /// The name of the kind.
    pub fn name(&self) -> (r: &'static str)
        ensures
            r@ == kind_words(*self),
    {
        match self {
            ErrorKind::Connect => "Connect",
            ErrorKind::Resolve => "Resolve",
            ErrorKind::Tls => "Tls",
            ErrorKind::Timeout(Phase::Resolve) => "Timeout(Resolve)",
            ErrorKind::Timeout(Phase::Connect) => "Timeout(Connect)",
            ErrorKind::Timeout(Phase::FirstByte) => "Timeout(FirstByte)",
            ErrorKind::Timeout(Phase::BetweenBytes) => "Timeout(BetweenBytes)",
            ErrorKind::Cancelled => "Cancelled",
            ErrorKind::Unsupported => "Unsupported",
            ErrorKind::Body => "Body",
        }
    }
}

/// The words of a failure: its kind, then what went wrong.
pub open spec fn error_words(e: Error) -> Seq<char>
    decreases e,
{
    kind_words(e.kind) + ": "@ + source_words(*e.source)
}

/// The words of the failed lookups. Each that failed is named.
pub open spec fn resolve_words(e: ResolveErrors) -> Seq<char>
    decreases e,
{
    match e {
        ResolveErrors::Both { v6, v4 } => "ipv6 lookup failed ("@ + error_words(v6)
            + "); ipv4 lookup failed ("@ + error_words(v4) + ")"@,
        ResolveErrors::Ipv6 { v6 } => "ipv6 lookup failed ("@ + error_words(v6)
            + "); ipv4 lookup returned no addresses"@,
        ResolveErrors::Ipv4 { v4 } => "ipv4 lookup failed ("@ + error_words(v4)
            + "); ipv6 lookup returned no addresses"@,
        ResolveErrors::Neither => "resolver returned no addresses for either address family"@,
    }
}

/// The words of what went wrong.
pub open spec fn source_words(s: Source) -> Seq<char>
    decreases s,
{
    match s {
        Source::Outside(text) => text@,
        Source::Io(e) => e.words(),
        Source::NoVersionsLeft(e) => e.words(),
        Source::Http2NotCompiledIn(e) => e.words(),
        Source::MaxBufSizeTooSmall(e) => e.words(),
        Source::ProxyAndUnixSocket(e) => e.words(),
        Source::InvalidHeConfig(e) => e.words(),
        Source::UriError(e) => e.words(),
        Source::UnsupportedScheme(e) => e.words(),
        Source::PlaintextNeedsHttp1(e) => e.words(),
        Source::NeedsHttp1(e) => e.words(),
        Source::UnknownClientIdentity(e) => e.words(),
        Source::NoQuicArm(e) => e.words(),
        Source::AllAttemptsFailed(e) => e.words(),
        Source::ProxySpokeFirst(e) => e.words(),
        Source::ResolveTimedOut(e) => e.words(),
        Source::ConnectTimedOut(e) => e.words(),
        Source::FirstByteTimedOut(e) => e.words(),
        Source::BetweenBytesElapsed(e) => e.words(),
        Source::H3ConnectTimedOut(e) => e.words(),
        Source::ResolveErrors(e) => resolve_words(e),
    }
}

/// A failure in words.
pub fn error_message(e: &Error) -> (r: String)
    ensures
        r@ == error_words(*e),
    decreases *e,
{
    e.kind.name().to_owned().concat(": ").concat(source_message(&e.source).as_str())
}

/// The failed lookups in words.
pub fn resolve_message(e: &ResolveErrors) -> (r: String)
    ensures
        r@ == resolve_words(*e),
    decreases *e,
{
    match e {
        ResolveErrors::Both { v6, v4 } => "ipv6 lookup failed (".to_owned().concat(
            error_message(v6).as_str(),
        ).concat("); ipv4 lookup failed (").concat(error_message(v4).as_str()).concat(")"),
        ResolveErrors::Ipv6 { v6 } => "ipv6 lookup failed (".to_owned().concat(
            error_message(v6).as_str(),
        ).concat("); ipv4 lookup returned no addresses"),
        ResolveErrors::Ipv4 { v4 } => "ipv4 lookup failed (".to_owned().concat(
            error_message(v4).as_str(),
        ).concat("); ipv6 lookup returned no addresses"),
        ResolveErrors::Neither => "resolver returned no addresses for either address family".to_owned(),
    }
}

/// What went wrong in words.
pub fn source_message(s: &Source) -> (r: String)
    ensures
        r@ == source_words(*s),
    decreases *s,
{
    match s {
        Source::Outside(text) => text.clone(),
        Source::Io(e) => e.message(),
        Source::NoVersionsLeft(e) => e.message(),
        Source::Http2NotCompiledIn(e) => e.message(),
        Source::MaxBufSizeTooSmall(e) => e.message(),
        Source::ProxyAndUnixSocket(e) => e.message(),
        Source::InvalidHeConfig(e) => e.message(),
        Source::UriError(e) => e.message(),
        Source::UnsupportedScheme(e) => e.message(),
        Source::PlaintextNeedsHttp1(e) => e.message(),
        Source::NeedsHttp1(e) => e.message(),
        Source::UnknownClientIdentity(e) => e.message(),
        Source::NoQuicArm(e) => e.message(),
        Source::AllAttemptsFailed(e) => e.message(),
        Source::ProxySpokeFirst(e) => e.message(),
        Source::ResolveTimedOut(e) => e.message(),
        Source::ConnectTimedOut(e) => e.message(),
        Source::FirstByteTimedOut(e) => e.message(),
        Source::BetweenBytesElapsed(e) => e.message(),
        Source::H3ConnectTimedOut(e) => e.message(),
        Source::ResolveErrors(e) => resolve_message(e),
    }
}

impl Error {
    /// The failure in words: its kind, then what went wrong.
    pub fn message(&self) -> (r: String)
        ensures
            r@ == error_words(*self),
    {
        error_message(self)
    }
}

impl ResolveErrors {
    /// The failed lookups in words.
    pub fn message(&self) -> (r: String)
        ensures
            r@ == resolve_words(*self),
    {
        resolve_message(self)
    }
}

impl IoFailure {
    /// The words for it.
    pub open spec fn words(self) -> Seq<char> {
        match self {
            IoFailure::WriteZero => "write zero"@,
            IoFailure::UnexpectedEof => "unexpected end of file"@,
        }
    }

    /// It in words.
    pub fn message(&self) -> (r: String)
        ensures
            r@ == self.words(),
    {
        match self {
            IoFailure::WriteZero => "write zero".to_owned(),
            IoFailure::UnexpectedEof => "unexpected end of file".to_owned(),
        }
    }
}

impl NoVersionsLeft {
    /// The words for it.
    pub open spec fn words(self) -> Seq<char> {
        "this would leave the transport unable to speak any HTTP version: `http1` and `http2` cannot both be off"@
    }

    /// It in words.
    pub fn message(&self) -> (r: String)
        ensures
            r@ == self.words(),
    {
        "this would leave the transport unable to speak any HTTP version: `http1` and `http2` cannot both be off".to_owned()
    }
}

impl Http2NotCompiledIn {
    /// The words for it.
    pub open spec fn words(self) -> Seq<char> {
        "`http2(true)` needs `hclient-native`'s `http2` feature, which this build does not have"@
    }

    /// It in words.
    pub fn message(&self) -> (r: String)
        ensures
            r@ == self.words(),
    {
        "`http2(true)` needs `hclient-native`'s `http2` feature, which this build does not have".to_owned()
    }
}

impl MaxBufSizeTooSmall {
    /// The words for it.
    pub open spec fn words(self) -> Seq<char> {
        "max_buf_size is "@ + decimal(self.asked as nat) + ", below hyper's minimum of "@ + decimal(MINIMUM_MAX_BUF_SIZE as nat)
    }

    /// It in words.
    pub fn message(&self) -> (r: String)
        ensures
            r@ == self.words(),
    {
        "max_buf_size is ".to_owned().concat(to_decimal(self.asked as u64).as_str()).concat(", below hyper's minimum of ").concat(to_decimal(MINIMUM_MAX_BUF_SIZE as u64).as_str())
    }
}

impl ProxyAndUnixSocket {
    /// The words for it.
    pub open spec fn words(self) -> Seq<char> {
        "a proxy and a Unix socket both answer `where does this connection go`; configure at most one"@
    }

    /// It in words.
    pub fn message(&self) -> (r: String)
        ensures
            r@ == self.words(),
    {
        "a proxy and a Unix socket both answer `where does this connection go`; configure at most one".to_owned()
    }
}

impl InvalidHeConfig {
    /// The words for it.
    pub open spec fn words(self) -> Seq<char> {
        "attempt_delay "@ + span_words(self.requested) + " is outside the RFC 8305 recommended range and would be silently clamped to "@ + span_words(self.effective) + "; pass a value inside the range instead"@
    }

    /// It in words.
    pub fn message(&self) -> (r: String)
        ensures
            r@ == self.words(),
    {
        "attempt_delay ".to_owned().concat(span_text(self.requested).as_str()).concat(" is outside the RFC 8305 recommended range and would be silently clamped to ").concat(span_text(self.effective).as_str()).concat("; pass a value inside the range instead")
    }
}

impl Disagreement {
    /// The words for it.
    pub open spec fn words(self) -> Seq<char> {
        "the two stacks disagree on `"@ + self.field@ + "`, and neither value is true of the pair: the TCP stack says `"@ + self.tcp@ + "`, the QUIC stack says `"@ + self.quic@ + "`"@
    }

    /// It in words.
    pub fn message(&self) -> (r: String)
        ensures
            r@ == self.words(),
    {
        "the two stacks disagree on `".to_owned().concat(self.field).concat("`, and neither value is true of the pair: the TCP stack says `").concat(self.tcp.as_str()).concat("`, the QUIC stack says `").concat(self.quic.as_str()).concat("`")
    }
}

impl UriError {
    /// The words for it.
    pub open spec fn words(self) -> Seq<char> {
        "request URI has no host to connect to"@
    }

    /// It in words.
    pub fn message(&self) -> (r: String)
        ensures
            r@ == self.words(),
    {
        "request URI has no host to connect to".to_owned()
    }
}

impl UnsupportedScheme {
    /// The words for it.
    pub open spec fn words(self) -> Seq<char> {
        "unsupported URI scheme: "@ + quoted_text(self.0@)
    }

    /// It in words.
    pub fn message(&self) -> (r: String)
        ensures
            r@ == self.words(),
    {
        "unsupported URI scheme: ".to_owned().concat(quote(self.0.as_str()).as_str())
    }
}

impl PlaintextNeedsHttp1 {
    /// The words for it.
    pub open spec fn words(self) -> Seq<char> {
        "`http://` needs HTTP/1.1, which this transport has been told not to speak"@
    }

    /// It in words.
    pub fn message(&self) -> (r: String)
        ensures
            r@ == self.words(),
    {
        "`http://` needs HTTP/1.1, which this transport has been told not to speak".to_owned()
    }
}

impl NeedsHttp1 {
    /// The words for it.
    pub open spec fn words(self) -> Seq<char> {
        "this request needs HTTP/1.1, which this transport has been told not to speak"@
    }

    /// It in words.
    pub fn message(&self) -> (r: String)
        ensures
            r@ == self.words(),
    {
        "this request needs HTTP/1.1, which this transport has been told not to speak".to_owned()
    }
}

impl UnknownClientIdentity {
    /// The words for it.
    pub open spec fn words(self) -> Seq<char> {
        "no client identity named `"@ + self.0@ + "` in this TLS backend"@
    }

    /// It in words.
    pub fn message(&self) -> (r: String)
        ensures
            r@ == self.words(),
    {
        "no client identity named `".to_owned().concat(self.0.as_str()).concat("` in this TLS backend")
    }
}

impl NoQuicArm {
    /// The words for it.
    pub open spec fn words(self) -> Seq<char> {
        "this transport has no QUIC arm; see `Native::http3`"@
    }

    /// It in words.
    pub fn message(&self) -> (r: String)
        ensures
            r@ == self.words(),
    {
        "this transport has no QUIC arm; see `Native::http3`".to_owned()
    }
}

impl AllAttemptsFailed {
    /// The words for it.
    pub open spec fn words(self) -> Seq<char> {
        "all "@ + decimal(self.0 as nat) + " connection attempts failed"@
    }

    /// It in words.
    pub fn message(&self) -> (r: String)
        ensures
            r@ == self.words(),
    {
        "all ".to_owned().concat(to_decimal(self.0 as u64).as_str()).concat(" connection attempts failed")
    }
}

impl ProxySpokeFirst {
    /// The words for it.
    pub open spec fn words(self) -> Seq<char> {
        "the proxy sent "@ + decimal(self.0 as nat) + " bytes past its own handshake, before anything was sent to the origin"@
    }

    /// It in words.
    pub fn message(&self) -> (r: String)
        ensures
            r@ == self.words(),
    {
        "the proxy sent ".to_owned().concat(to_decimal(self.0 as u64).as_str()).concat(" bytes past its own handshake, before anything was sent to the origin")
    }
}

impl ResolveTimedOut {
    /// The words for it.
    pub open spec fn words(self) -> Seq<char> {
        "no address from the resolver within the resolve timeout of "@ + span_words(self.0)
    }

    /// It in words.
    pub fn message(&self) -> (r: String)
        ensures
            r@ == self.words(),
    {
        "no address from the resolver within the resolve timeout of ".to_owned().concat(span_text(self.0).as_str())
    }
}

impl ConnectTimedOut {
    /// The words for it.
    pub open spec fn words(self) -> Seq<char> {
        "connect timed out after "@ + span_words(self.0)
    }

    /// It in words.
    pub fn message(&self) -> (r: String)
        ensures
            r@ == self.words(),
    {
        "connect timed out after ".to_owned().concat(span_text(self.0).as_str())
    }
}

impl FirstByteTimedOut {
    /// The words for it.
    pub open spec fn words(self) -> Seq<char> {
        "no response head within the first_byte timeout of "@ + span_words(self.0)
    }

    /// It in words.
    pub fn message(&self) -> (r: String)
        ensures
            r@ == self.words(),
    {
        "no response head within the first_byte timeout of ".to_owned().concat(span_text(self.0).as_str())
    }
}

impl BetweenBytesElapsed {
    /// The words for it.
    pub open spec fn words(self) -> Seq<char> {
        "the response body sent nothing for "@ + span_words(self.0) + ", its between_bytes timeout"@
    }

    /// It in words.
    pub fn message(&self) -> (r: String)
        ensures
            r@ == self.words(),
    {
        "the response body sent nothing for ".to_owned().concat(span_text(self.0).as_str()).concat(", its between_bytes timeout")
    }
}

impl ConnectionWentAwayBeforeTheRequest {
    /// The words for it.
    pub open spec fn words(self) -> Seq<char> {
        "the pooled connection was closed before the request was sent"@
    }

    /// It in words.
    pub fn message(&self) -> (r: String)
        ensures
            r@ == self.words(),
    {
        "the pooled connection was closed before the request was sent".to_owned()
    }
}

impl ConnectionEndedWithTheRequestQueued {
    /// The words for it.
    pub open spec fn words(self) -> Seq<char> {
        "the connection ended while the request was still queued on it"@
    }

    /// It in words.
    pub fn message(&self) -> (r: String)
        ensures
            r@ == self.words(),
    {
        "the connection ended while the request was still queued on it".to_owned()
    }
}

impl EndedBeforeTheResponse {
    /// The words for it.
    pub open spec fn words(self) -> Seq<char> {
        "the connection ended before the handshake response arrived"@
    }

    /// It in words.
    pub fn message(&self) -> (r: String)
        ensures
            r@ == self.words(),
    {
        "the connection ended before the handshake response arrived".to_owned()
    }
}

impl NotSwitchingProtocols {
    /// The words for it.
    pub open spec fn words(self) -> Seq<char> {
        "the server answered "@ + status_text(self.0) + " rather than 101 Switching Protocols"@
    }

    /// It in words, where it holds a status.
    pub fn message(&self) -> (r: String)
        requires
            100 <= self.0 < 1000,
        ensures
            r@ == self.words(),
    {
        "the server answered ".to_owned().concat(status_display(self.0).as_str()).concat(
            " rather than 101 Switching Protocols",
        )
    }
}

/// Some pieces of text with a separator between them.
pub open spec fn listed(parts: Seq<String>, sep: Seq<char>) -> Seq<char>
    decreases parts.len(),
{
    if parts.len() == 0 {
        Seq::empty()
    } else if parts.len() == 1 {
        parts[0]@
    } else {
        listed(parts.drop_last(), sep) + sep + parts.last()@
    }
}

/// Some pieces of text with a separator between them.
pub fn list(parts: &Vec<String>, sep: &str) -> (r: String)
    ensures
        r@ == listed(parts@, sep@),
{
    let mut out = String::new();
    let mut i: usize = 0;
    while i < parts.len()
        invariant
            i <= parts@.len(),
            out@ == listed(parts@.take(i as int), sep@),
        decreases parts@.len() - i,
    {
        proof {
            assert(parts@.take(i + 1).drop_last() =~= parts@.take(i as int));
            assert(Seq::<char>::empty() + parts@[0]@ =~= parts@[0]@);
        }
        if i > 0 {
            out.append(sep);
        }
        out.append(parts[i].as_str());
        i = i + 1;
    }
    assert(parts@.take(i as int) =~= parts@);
    out
}

impl UndeclaredRequestTrailers {
    /// The names of the fields.
    pub fn fields(&self) -> (r: &[String])
        ensures
            r@ == self.0@,
    {
        self.0.as_slice()
    }

    /// The words for it.
    pub open spec fn words(self) -> Seq<char> {
        "the request body emitted trailer field(s) ["@ + listed(self.0@, ", "@)
            + "] that the request's `Trailer:` header did not declare, and this connection speaks HTTP/1.1, where hyper's encoder drops an undeclared trailer field silently (RFC 9110 §6.6.2) — send `Trailer: "@
            + listed(self.0@, ", "@)
            + "` with the request head. The message was aborted rather than finished without them, so the server never saw a complete request; how much of it had already been flushed depends on whether the body pended before its trailers, and a non-idempotent request that had may already have taken effect — do not retry blindly"@
    }

    /// It in words.
    pub fn message(&self) -> (r: String)
        ensures
            r@ == self.words(),
    {
        let names = list(&self.0, ", ");
        "the request body emitted trailer field(s) [".to_owned().concat(names.as_str()).concat(
            "] that the request's `Trailer:` header did not declare, and this connection speaks HTTP/1.1, where hyper's encoder drops an undeclared trailer field silently (RFC 9110 §6.6.2) — send `Trailer: ",
        ).concat(names.as_str()).concat(
            "` with the request head. The message was aborted rather than finished without them, so the server never saw a complete request; how much of it had already been flushed depends on whether the body pended before its trailers, and a non-idempotent request that had may already have taken effect — do not retry blindly",
        )
    }
}

impl Disagreement {
    /// The two stacks say two things of the field.
    pub fn new(field: &'static str, tcp: String, quic: String) -> (r: Self)
        ensures
            r == (Disagreement { field, tcp, quic }),
    {
        Disagreement { field, tcp, quic }
    }
}

// ---------------------------------------------------------------------------
// Failed lookups
// ---------------------------------------------------------------------------

/// The failures of the two families, as one.
pub open spec fn families(v6: Option<Error>, v4: Option<Error>) -> ResolveErrors {
    match (v6, v4) {
        (Some(v6), Some(v4)) => ResolveErrors::Both { v6, v4 },
        (Some(v6), None) => ResolveErrors::Ipv6 { v6 },
        (None, Some(v4)) => ResolveErrors::Ipv4 { v4 },
        (None, None) => ResolveErrors::Neither,
    }
}

/// The first failure that is not about the name itself: IPv6's before IPv4's.
pub open spec fn distinguishing(v6: Option<Error>, v4: Option<Error>) -> Option<Error> {
    if v6 is Some && (v6->0).kind != ErrorKind::Resolve {
        v6
    } else if v4 is Some && (v4->0).kind != ErrorKind::Resolve {
        v4
    } else {
        None
    }
}

impl ResolveErrors {
    /// The failures of the two families, as one.
    pub fn from_families(v6: Option<Error>, v4: Option<Error>) -> (r: Self)
        ensures
            r == families(v6, v4),
    {
        match (v6, v4) {
            (Some(v6), Some(v4)) => ResolveErrors::Both { v6, v4 },
            (Some(v6), None) => ResolveErrors::Ipv6 { v6 },
            (None, Some(v4)) => ResolveErrors::Ipv4 { v4 },
            (None, None) => ResolveErrors::Neither,
        }
    }

    /// What the IPv6 lookup failed with.
    pub open spec fn v6_of(self) -> Option<Error> {
        match self {
            ResolveErrors::Both { v6, v4 } => Some(v6),
            ResolveErrors::Ipv6 { v6 } => Some(v6),
            _ => None,
        }
    }

    /// What the IPv4 lookup failed with.
    pub open spec fn v4_of(self) -> Option<Error> {
        match self {
            ResolveErrors::Both { v6, v4 } => Some(v4),
            ResolveErrors::Ipv4 { v4 } => Some(v4),
            _ => None,
        }
    }

    /// The failure that the chain of causes leads to: IPv6's where there is
    /// one, else IPv4's, else none.
    pub fn source(&self) -> (r: Option<&Error>)
        ensures
            match r {
                Some(e) => if self.v6_of() is Some {
                    self.v6_of() == Some(*e)
                } else {
                    self.v4_of() == Some(*e)
                },
                None => self.v6_of() is None && self.v4_of() is None,
            },
    {
        match self {
            ResolveErrors::Both { v6, v4: _ } => Some(v6),
            ResolveErrors::Ipv6 { v6 } => Some(v6),
            ResolveErrors::Ipv4 { v4 } => Some(v4),
            ResolveErrors::Neither => None,
        }
    }

    /// The failure that says more than that a name did not resolve.
    pub fn distinguishing_error(&self) -> (r: Option<&Error>)
        ensures
            match r {
                Some(e) => distinguishing(self.v6_of(), self.v4_of()) == Some(*e),
                None => distinguishing(self.v6_of(), self.v4_of()) is None,
            },
    {
        let (first, second) = match self {
            ResolveErrors::Both { v6, v4 } => (Some(v6), Some(v4)),
            ResolveErrors::Ipv6 { v6 } => (Some(v6), None),
            ResolveErrors::Ipv4 { v4 } => (None, Some(v4)),
            ResolveErrors::Neither => (None, None),
        };
        if let Some(e) = first {
            if e.kind != ErrorKind::Resolve {
                return Some(e);
            }
        }
        if let Some(e) = second {
            if e.kind != ErrorKind::Resolve {
                return Some(e);
            }
        }
        None
    }
}

/// The failures of the two families are kept apart, and none is lost or made
/// up.
pub proof fn law_each_family_keeps_its_failure(v6: Option<Error>, v4: Option<Error>)
    ensures
        families(v6, v4).v6_of() == v6,
        families(v6, v4).v4_of() == v4,
        families(v6, v4) is Both <==> v6 is Some && v4 is Some,
        families(v6, v4) is Neither <==> v6 is None && v4 is None,
{
}

/// The failure that tells more than the name is one of the two, is never about
/// the name, and is found wherever there is one.
pub proof fn law_the_telling_failure(v6: Option<Error>, v4: Option<Error>)
    ensures
        distinguishing(v6, v4) matches Some(e) ==> e.kind != ErrorKind::Resolve && (v6 == Some(e)
            || v4 == Some(e)),
        v6 matches Some(e) && e.kind != ErrorKind::Resolve ==> distinguishing(v6, v4) == v6,
        v4 matches Some(e) && e.kind != ErrorKind::Resolve ==> distinguishing(v6, v4) is Some,
{
}

/// A failure says its kind, a colon and where it came from.
pub proof fn law_a_failure_says_its_kind_first(e: Error)
    ensures
        error_words(e) == kind_words(e.kind) + ": "@ + source_words(*e.source),
        *e.source matches Source::Outside(text) ==> error_words(e) == kind_words(e.kind) + ": "@
            + text@,
{
}

/// The failure of a lookup says which family failed and with what, and which
/// one gave nothing, each under its own name.
pub proof fn law_a_failed_lookup_names_its_family(v6: Error, v4: Error)
    ensures
        resolve_words(families(Some(v6), Some(v4))) == "ipv6 lookup failed ("@ + error_words(v6)
            + "); ipv4 lookup failed ("@ + error_words(v4) + ")"@,
        resolve_words(families(Some(v6), None)) == "ipv6 lookup failed ("@ + error_words(v6)
            + "); ipv4 lookup returned no addresses"@,
        resolve_words(families(None, Some(v4))) == "ipv4 lookup failed ("@ + error_words(v4)
            + "); ipv6 lookup returned no addresses"@,
{
    reveal_with_fuel(resolve_words, 2);
}

/// A span is said as its whole seconds and the nanoseconds beyond them.
pub proof fn law_a_span_is_said_whole(d: Duration, secs: u64, nanos: u32)
    requires
        nanos < 1_000_000_000,
        d.nanos == secs * 1_000_000_000 + nanos,
    ensures
        span_words(d) == duration_text(secs, nanos),
{
}

} // verus!
