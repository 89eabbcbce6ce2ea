//! The body of an HTTP/3 response, while the request may still be being sent.
//!
//! Data comes first, trailers once the data is over, and nothing after them.
//! A failure of the sending half is the body's failure too.

use std::sync::Arc;

use vstd::prelude::*;

use crate::error::{Error, ErrorKind, Source};
use crate::poll::Polled;

verus! {

/// How far a body has come.
#[derive(Debug, Clone, Copy, PartialEq, Eq, Structural)]
pub enum Phase {
    Data,
    Trailers,
    Done,
}

/// A response body.
#[derive(Debug, Clone, Copy, PartialEq, Eq, Structural)]
pub struct H3Body {
    /// Whether the request body is still being sent.
    pub sending: bool,
    pub phase: Phase,
}

/// What a body gives: data, trailers, a failure that is to be reported, or its
/// end.
#[derive(Debug)]
pub enum Given<D, T> {
    Data(D),
    Trailers(T),
    Failed(Error),
    End,
    /// Nothing yet: ask the stream for its trailers.
    AskTrailers,
}

/// What the stream is asked for.
#[derive(Debug, Clone, Copy, PartialEq, Eq, Structural)]
pub enum Ask {
    Data,
    Trailers,
    /// Nothing: the body is over.
    Nothing,
}

/// A failure of the stream, in its own words.
pub open spec fn stream_failure(text: String) -> Error {
    Error { kind: ErrorKind::Body, source: Arc::new(Source::Outside(text)) }
}

/// A failure of the stream, in its own words.
pub fn stream_error(text: String) -> (r: Error)
    ensures
        r == stream_failure(text),
{
    Error::new(ErrorKind::Body, Source::Outside(text))
}

/// What happens to a body.
pub enum Happened {
    /// The request body was sent in full.
    Sent,
    /// Sending it failed.
    SendFailed,
    /// It is still being sent.
    StillSending,
    /// Data came.
    Data,
    /// The data is over.
    DataOver,
    /// The stream failed.
    Failed,
    /// The stream was asked for trailers and answered.
    Trailers,
}

/// Whether it can happen to a body.
pub open spec fn can_happen(b: H3Body, h: Happened) -> bool {
    match h {
        Happened::Sent | Happened::SendFailed | Happened::StillSending => b.sending,
        Happened::Data | Happened::DataOver | Happened::Failed => b.phase == Phase::Data,
        Happened::Trailers => b.phase == Phase::Trailers,
    }
}

/// A body behind what happened to it.
pub open spec fn body_after(b: H3Body, h: Happened) -> H3Body {
    match h {
        Happened::Sent => H3Body { sending: false, ..b },
        Happened::SendFailed => H3Body { sending: false, phase: Phase::Done },
        Happened::StillSending | Happened::Data => b,
        Happened::DataOver => H3Body { phase: Phase::Trailers, ..b },
        Happened::Failed | Happened::Trailers => H3Body { phase: Phase::Done, ..b },
    }
}

/// A body behind all that happened to it, where it could happen.
pub open spec fn body_behind(b: H3Body, history: Seq<Happened>) -> Option<H3Body>
    decreases history.len(),
{
    if history.len() == 0 {
        Some(b)
    } else {
        match body_behind(b, history.drop_last()) {
            Some(c) => if can_happen(c, history.last()) {
                Some(body_after(c, history.last()))
            } else {
                None
            },
            None => None,
        }
    }
}

impl H3Body {
    /// A body of which nothing was read.
    pub fn new(sending: bool) -> (r: Self)
        ensures
            r == (H3Body { sending, phase: Phase::Data }),
    {
        H3Body { sending, phase: Phase::Data }
    }

    /// The sending half was asked. Its failure ends the body.
    pub fn pumped(&mut self, polled: Polled<Result<(), Error>>) -> (r: Option<Error>)
        requires
            old(self).sending,
        ensures
            match polled {
                Polled::Ready(Ok(_)) => *final(self) == body_after(*old(self), Happened::Sent)
                    && r is None,
                Polled::Ready(Err(e)) => *final(self) == body_after(
                    *old(self),
                    Happened::SendFailed,
                ) && r == Some(e),
                Polled::Pending => *final(self) == body_after(*old(self), Happened::StillSending)
                    && r is None,
            },
    {
        match polled {
            Polled::Ready(Ok(_)) => {
                self.sending = false;
                None
            },
            Polled::Ready(Err(e)) => {
                self.sending = false;
                self.phase = Phase::Done;
                Some(e)
            },
            Polled::Pending => None,
        }
    }

    /// What the stream is asked for next.
    pub fn ask(&self) -> (r: Ask)
        ensures
            r == match self.phase {
                Phase::Data => Ask::Data,
                Phase::Trailers => Ask::Trailers,
                Phase::Done => Ask::Nothing,
            },
    {
        match self.phase {
            Phase::Data => Ask::Data,
            Phase::Trailers => Ask::Trailers,
            Phase::Done => Ask::Nothing,
        }
    }

    /// The stream was asked for data.
    pub fn data<D, T>(&mut self, got: Result<Option<D>, String>) -> (r: Given<D, T>)
        requires
            old(self).phase == Phase::Data,
        ensures
            match got {
                Ok(Some(d)) => *final(self) == body_after(*old(self), Happened::Data) && r
                    == Given::<D, T>::Data(d),
                Ok(None) => *final(self) == body_after(*old(self), Happened::DataOver) && r
                    == Given::<D, T>::AskTrailers,
                Err(text) => *final(self) == body_after(*old(self), Happened::Failed) && r
                    == Given::<D, T>::Failed(stream_failure(text)),
            },
    {
        match got {
            Ok(Some(d)) => Given::Data(d),
            Ok(None) => {
                self.phase = Phase::Trailers;
                Given::AskTrailers
            },
            Err(text) => {
                self.phase = Phase::Done;
                Given::Failed(stream_error(text))
            },
        }
    }

    /// The stream was asked for trailers. Nothing comes after them.
    pub fn trailers<D, T>(&mut self, got: Result<Option<T>, String>) -> (r: Given<D, T>)
        requires
            old(self).phase == Phase::Trailers,
        ensures
            *final(self) == body_after(*old(self), Happened::Trailers),
            r == match got {
                Ok(Some(t)) => Given::<D, T>::Trailers(t),
                Ok(None) => Given::<D, T>::End,
                Err(text) => Given::<D, T>::Failed(stream_failure(text)),
            },
    {
        self.phase = Phase::Done;
        match got {
            Ok(Some(t)) => Given::Trailers(t),
            Ok(None) => Given::End,
            Err(text) => Given::Failed(stream_error(text)),
        }
    }
}

/// What is over stays over: nothing that can still happen to a body that is
/// done makes it ask the stream again.
pub proof fn law_over_stays_over(b: H3Body, history: Seq<Happened>)
    requires
        b.phase == Phase::Done,
    ensures
        body_behind(b, history) matches Some(c) ==> c.phase == Phase::Done,
        forall|i: int|
            0 <= i < history.len() && body_behind(b, history) is Some ==> (match #[trigger] history[i] {
                Happened::Sent | Happened::SendFailed | Happened::StillSending => true,
                _ => false,
            }),
    decreases history.len(),
{
    if history.len() > 0 {
        let before = history.drop_last();
        law_over_stays_over(b, before);
        assert forall|i: int| 0 <= i < history.len() && body_behind(b, history) is Some implies (
        match #[trigger] history[i] {
            Happened::Sent | Happened::SendFailed | Happened::StillSending => true,
            _ => false,
        }) by {
            if i < before.len() {
                assert(history[i] == before[i]);
            }
        }
    }
}

/// Data comes before trailers and trailers come once: behind the stream's
/// answer about trailers the body is done.
pub proof fn law_nothing_follows_the_trailers(b: H3Body, history: Seq<Happened>, i: int)
    requires
        0 <= i < history.len(),
        history[i] == Happened::Trailers,
        body_behind(b, history) is Some,
    ensures
        body_behind(b, history)->0.phase == Phase::Done,
        forall|j: int|
            i < j < history.len() ==> (match #[trigger] history[j] {
                Happened::Sent | Happened::SendFailed | Happened::StillSending => true,
                _ => false,
            }),
    decreases history.len(),
{
    let before = history.drop_last();
    if i < before.len() {
        law_nothing_follows_the_trailers(b, before, i);
        assert forall|j: int| i < j < history.len() implies (match #[trigger] history[j] {
            Happened::Sent | Happened::SendFailed | Happened::StillSending => true,
            _ => false,
        }) by {
            if j < before.len() {
                assert(history[j] == before[j]);
            }
        }
    }
}

/// A request that is still being sent does not hold its response up, and a
/// response that is over does not wait for its request.
pub proof fn law_sending_holds_nothing_up(b: H3Body)
    ensures
        body_after(b, Happened::StillSending) == b,
        body_after(b, Happened::Sent).phase == b.phase,
        body_after(b, Happened::Trailers).sending == b.sending,
        body_after(b, Happened::Trailers).phase == Phase::Done,
{
}

/// What each thing that happens does to a body: data leaves it as it is, the
/// end of the data leads to the trailers, the trailers and every failure end
/// it, and what is sent in full is not being sent any more.
pub proof fn law_how_a_body_goes_on(b: H3Body)
    ensures
        body_after(b, Happened::Data) == b,
        body_after(b, Happened::DataOver).phase == Phase::Trailers,
        body_after(b, Happened::DataOver).sending == b.sending,
        body_after(b, Happened::Failed).phase == Phase::Done,
        body_after(b, Happened::Failed).sending == b.sending,
        body_after(b, Happened::SendFailed).phase == Phase::Done,
        !body_after(b, Happened::SendFailed).sending,
        !body_after(b, Happened::Sent).sending,
        can_happen(b, Happened::Data) <==> b.phase == Phase::Data,
        can_happen(b, Happened::Trailers) <==> b.phase == Phase::Trailers,
        can_happen(b, Happened::Sent) <==> b.sending,
{
}

/// A failure of the stream is a failure of the body, in the stream's words.
pub proof fn law_a_failed_stream_is_a_failed_body(text: String)
    ensures
        stream_failure(text).kind == ErrorKind::Body,
        *stream_failure(text).source == Source::Outside(text),
{
}

} // verus!
