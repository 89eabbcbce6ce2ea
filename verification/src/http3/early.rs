//! Which requests may go out before the handshake is over.
//!
//! What goes out early can be replayed by whoever records it, so a request
//! does so only where its caller said that it may, and only where it can be
//! sent a second time should the peer refuse the early keys.

use vstd::prelude::*;
use vstd::string::*;

use crate::error::{Error, ErrorKind, Source};

verus! {

/// What a request body is made of.
#[derive(Debug, Clone, Copy, PartialEq, Eq, Structural)]
pub enum BodyKind {
    /// Nothing.
    Empty,
    /// Octets that are all there.
    Full,
    /// Something that can be started again.
    Rewindable,
    /// Something that comes once.
    Streaming,
}

/// Whether a request can be sent a second time.
#[derive(Debug, Clone, Copy, PartialEq, Eq, Structural)]
pub enum RetryKind {
    Possible,
    Impossible,
}

impl BodyKind {
    /// Only what comes once cannot be sent a second time.
    pub open spec fn retry(self) -> RetryKind {
        match self {
            BodyKind::Streaming => RetryKind::Impossible,
            _ => RetryKind::Possible,
        }
    }

    /// Whether a request with this body can be sent a second time.
    pub fn retry_kind(&self) -> (r: RetryKind)
        ensures
            r == self.retry(),
    {
        match self {
            BodyKind::Streaming => RetryKind::Impossible,
            _ => RetryKind::Possible,
        }
    }
}

/// Whether a request may go out early: it is marked, and it can be sent again.
pub open spec fn may_go_early(marked: bool, body: BodyKind) -> bool {
    marked && body.retry() != RetryKind::Impossible
}

/// Whether a request may go out early.
pub fn admits_early_data(marked: bool, body: &BodyKind) -> (r: bool)
    ensures
        r == may_go_early(marked, *body),
{
    if !marked {
        return false;
    }
    match body.retry_kind() {
        RetryKind::Impossible => false,
        RetryKind::Possible => true,
    }
}

/// The words for a request that may go out early on a transport that cannot.
pub open spec fn refusal_words(backend: Seq<char>) -> Seq<char> {
    backend
        + " cannot offer TLS 1.3 early data, and the request carries AllowEarlyData; it was refused rather than silently sent at 1-RTT"@
}

/// The failure of a request that may go out early on a transport that cannot.
pub fn refuse_early_data(backend: &'static str) -> (r: Error)
    ensures
        r.kind == ErrorKind::Unsupported,
        *r.source matches Source::Outside(text) && text@ == refusal_words(backend@),
{
    Error::new(
        ErrorKind::Unsupported,
        Source::Outside(
            backend.to_owned().concat(
                " cannot offer TLS 1.3 early data, and the request carries AllowEarlyData; it was refused rather than silently sent at 1-RTT",
            ),
        ),
    )
}

/// A request that is not marked never goes out early, whatever its body.
pub proof fn law_unmarked_never_goes_early(body: BodyKind)
    ensures
        !may_go_early(false, body),
{
}

/// What goes out early can always be sent again.
pub proof fn law_early_means_replayable(marked: bool, body: BodyKind)
    requires
        may_go_early(marked, body),
    ensures
        marked,
        body != BodyKind::Streaming,
{
}

/// A marked request goes out early exactly where its body can be sent again:
/// every body but one that streams.
pub proof fn law_what_goes_early(marked: bool, body: BodyKind)
    ensures
        may_go_early(marked, body) <==> marked && body != BodyKind::Streaming,
{
}

} // verus!
