//! A request in two halves: a connection that can carry it, and the exchange
//! on that connection.
//!
//! The first half hands the request back untouched where it fails, because
//! nothing of it was sent. The second neither looks up nor dials, so the bound
//! on the first cannot be spent twice.

use std::sync::Arc;

use vstd::prelude::*;
use vstd::string::*;

use crate::error::{Error, ErrorKind, Phase, Source, UnknownClientIdentity};
use crate::http3::early::{
    admits_early_data, may_go_early, refusal_words, refuse_early_data, BodyKind,
};
use crate::http3::error::ConnectTimedOut;
use crate::net::SocketAddr;
use crate::time::{Duration, Timeouts};
use crate::uri::{UriParts, HTTPS_DEFAULT_PORT};

verus! {

// ---------------------------------------------------------------------------
// What the request alone decides
// ---------------------------------------------------------------------------

/// What is read of a request before anything is done for it.
#[derive(Debug)]
pub struct Asked {
    pub uri: UriParts,
    /// Whether it may go out early.
    pub marked: bool,
    pub body: BodyKind,
    /// The client identity that it names.
    pub identity: Option<String>,
    pub timeouts: Timeouts,
}

/// What the request alone decides about its connection.
#[derive(Debug)]
pub struct Admitted {
    pub host: String,
    pub port: u16,
    /// Whether it goes out early.
    pub wants_early: bool,
    pub timeouts: Timeouts,
    /// The client identity, and the TLS configuration that has it.
    pub identity: Option<String>,
    pub identity_id: Option<u64>,
}

/// The words for a scheme that is not `https`.
pub open spec fn no_plaintext_words(scheme: Option<Seq<char>>) -> Seq<char> {
    "HTTP/3 runs over QUIC, which is always TLS; `"@ + match scheme {
        Some(s) => s,
        None => "(no scheme)"@,
    } + "` has no plaintext form"@
}

/// The name of this stack in its messages.
pub const BACKEND: &'static str = "hclient-h3";

/// Whether an error is the refusal of a request, given what its version demand
/// came to, what the TLS backend knows of the identity that it names, and
/// whether early data can be offered. The first thing that is wrong is named.
pub open spec fn refused_with(
    version: Result<(), Error>,
    req: Asked,
    known: Option<u64>,
    early_data: bool,
    e: Error,
) -> bool {
    if version is Err {
        e == version->Err_0
    } else if req.uri@.0 != Some("https"@) {
        e.kind == ErrorKind::Connect && (*e.source matches Source::Outside(text) && text@
            == no_plaintext_words(req.uri@.0))
    } else if req.uri@.1 is None {
        e.kind == ErrorKind::Connect && (*e.source matches Source::Outside(text) && text@
            == "request URI has no host"@)
    } else if req.identity is Some && known is None {
        e.kind == ErrorKind::Tls && (*e.source matches Source::UnknownClientIdentity(u) && u.0@
            == (req.identity->0)@)
    } else {
        req.marked && !early_data && e.kind == ErrorKind::Unsupported && (
        *e.source matches Source::Outside(text) && text@ == refusal_words(BACKEND@))
    }
}

/// Whether nothing is wrong with a request.
pub open spec fn admissible(
    version: Result<(), Error>,
    req: Asked,
    known: Option<u64>,
    early_data: bool,
) -> bool {
    &&& version is Ok
    &&& req.uri@.0 == Some("https"@)
    &&& req.uri@.1 is Some
    &&& req.identity is Some ==> known is Some
    &&& req.marked ==> early_data
}

/// The text of an optional string.
pub open spec fn text_of(s: Option<String>) -> Option<Seq<char>> {
    match s {
        Some(t) => Some(t@),
        None => None,
    }
}

/// What the request alone decides about its connection, where it is admitted.
pub open spec fn decides(req: Asked, known: Option<u64>, a: Admitted) -> bool {
    &&& req.uri@.1 == Some(a.host@)
    &&& a.port == match req.uri@.2 {
        Some(p) => p,
        None => HTTPS_DEFAULT_PORT,
    }
    &&& a.wants_early == may_go_early(req.marked, req.body)
    &&& a.timeouts == req.timeouts
    &&& text_of(a.identity) == text_of(req.identity)
    &&& a.identity_id == if req.identity is Some {
        known
    } else {
        None
    }
}

/// Every question that the request alone answers. `version` is what its demand
/// for a version came to, `known` the TLS configuration of the identity that
/// it names, and `early_data` whether any can be offered.
pub fn admission(
    version: Result<(), Error>,
    req: &Asked,
    known: Option<u64>,
    early_data: bool,
) -> (r: Result<Admitted, Error>)
    ensures
        match r {
            Ok(a) => {
                &&& admissible(version, *req, known, early_data)
                &&& decides(*req, known, a)
            },
            Err(e) => !admissible(version, *req, known, early_data) && refused_with(
                version,
                *req,
                known,
                early_data,
                e,
            ),
        },
{
    if let Err(e) = version {
        return Err(e);
    }
    let secure = match &req.uri.scheme {
        Some(s) => *s == "https".to_owned(),
        None => false,
    };
    if !secure {
        let named = match &req.uri.scheme {
            Some(s) => s.clone(),
            None => "(no scheme)".to_owned(),
        };
        return Err(
            Error::new(
                ErrorKind::Connect,
                Source::Outside(
                    "HTTP/3 runs over QUIC, which is always TLS; `".to_owned().concat(
                        named.as_str(),
                    ).concat("` has no plaintext form"),
                ),
            ),
        );
    }
    let host = match &req.uri.host {
        Some(h) => h.clone(),
        None => return Err(
            Error::new(ErrorKind::Connect, Source::Outside("request URI has no host".to_owned())),
        ),
    };
    let port: u16 = match req.uri.port {
        Some(p) => p,
        None => HTTPS_DEFAULT_PORT,
    };
    let wants_early = admits_early_data(req.marked, &req.body);
    let (identity, identity_id) = match &req.identity {
        None => (None, None),
        Some(name) => match known {
            Some(id) => (Some(name.clone()), Some(id)),
            None => return Err(
                Error::new(
                    ErrorKind::Tls,
                    Source::UnknownClientIdentity(UnknownClientIdentity(name.clone())),
                ),
            ),
        },
    };
    if req.marked && !early_data {
        return Err(refuse_early_data(BACKEND));
    }
    Ok(Admitted { host, port, wants_early, timeouts: req.timeouts, identity, identity_id })
}

// ---------------------------------------------------------------------------
// The first half
// ---------------------------------------------------------------------------

/// A connection that was not made, with the request back.
#[derive(Debug)]
pub struct Refused<Q> {
    error: Error,
    request: Q,
}

impl<Q> Refused<Q> {
    /// Why.
    pub closed spec fn why(self) -> Error {
        self.error
    }

    /// The request that was not sent.
    pub closed spec fn unsent(self) -> Q {
        self.request
    }

    /// A connection that was not made.
    pub fn new(error: Error, request: Q) -> (r: Self)
        ensures
            r.why() == error,
            r.unsent() == request,
    {
        Refused { error, request }
    }

    /// Why, without taking the request.
    pub fn error(&self) -> (r: &Error)
        ensures
            *r == self.why(),
    {
        &self.error
    }

    /// Why, for a caller with nowhere else to send this.
    pub fn into_error(self) -> (r: Error)
        ensures
            r == self.why(),
    {
        self.error
    }

    /// Both, for a caller that sends the request elsewhere.
    pub fn into_parts(self) -> (r: (Error, Q))
        ensures
            r == (self.why(), self.unsent()),
    {
        (self.error, self.request)
    }
}

/// Everything that must be the same for a QUIC connection to be used again.
#[derive(Debug)]
pub struct QuicKey {
    pub host: String,
    pub port: u16,
    /// The TLS configuration.
    pub tls: u64,
    pub early_data: bool,
    pub identity: Option<String>,
}

/// The TLS configuration for an admitted request, on a backend whose own is
/// `default`.
pub open spec fn config_of(a: Admitted, default: u64) -> u64 {
    match a.identity_id {
        Some(id) => id,
        None => default,
    }
}

/// The key that an admitted request names, on a backend whose own
/// configuration is `default`.
pub open spec fn keyed(a: Admitted, default: u64, key: QuicKey) -> bool {
    &&& key.host@ == a.host@
    &&& key.port == a.port
    &&& key.tls == config_of(a, default)
    &&& key.early_data == a.wants_early
    &&& text_of(key.identity) == text_of(a.identity)
}

/// A first half under way: the request, kept for whoever gets it back, and
/// what it decided.
#[derive(Debug)]
pub struct Staging<Q> {
    pub req: Q,
    pub admitted: Admitted,
}

/// A connection with a request to spend it on.
#[derive(Debug)]
pub struct Staged<Q> {
    pub req: Q,
    /// Whether the connection went out with early data.
    pub early: bool,
}

/// What is to be reported of a connection.
#[derive(Debug, Clone, Copy, PartialEq, Eq, Structural)]
pub enum Report {
    /// It was made.
    Connected,
    /// It was there.
    Reused,
}

impl<Q> Staging<Q> {
    /// Start, unless the request alone was refused. The bound on what follows
    /// is the request's own.
    pub fn begin(req: Q, admitted: Result<Admitted, Error>) -> (r: Result<
        (Self, Option<Duration>),
        Refused<Q>,
    >)
        ensures
            match r {
                Ok(s) => admitted == Ok::<Admitted, Error>(s.0.admitted) && s.0.req == req && s.1
                    == s.0.admitted.timeouts.connect,
                Err(f) => admitted == Err::<Admitted, Error>(f.why()) && f.unsent() == req,
            },
    {
        match admitted {
            Ok(admitted) => {
                let bound = admitted.timeouts.connect;
                Ok((Staging { req, admitted }, bound))
            },
            Err(e) => Err(Refused::new(e, req)),
        }
    }

    /// The lookup is over: which connection to look for in the pool, or to
    /// make.
    pub fn resolved(self, outcome: Result<SocketAddr, Error>, default: u64) -> (r: Result<
        (Self, QuicKey, SocketAddr),
        Refused<Q>,
    >)
        ensures
            match r {
                Ok(s) => s.0 == self && outcome == Ok::<SocketAddr, Error>(s.2) && keyed(
                    self.admitted,
                    default,
                    s.1,
                ),
                Err(f) => outcome == Err::<SocketAddr, Error>(f.why()) && f.unsent() == self.req,
            },
    {
        match outcome {
            Ok(addr) => {
                let key = QuicKey {
                    host: self.admitted.host.clone(),
                    port: self.admitted.port,
                    tls: match self.admitted.identity_id {
                        Some(id) => id,
                        None => default,
                    },
                    early_data: self.admitted.wants_early,
                    identity: match &self.admitted.identity {
                        Some(name) => Some(name.clone()),
                        None => None,
                    },
                };
                Ok((self, key, addr))
            },
            Err(e) => Err(Refused::new(e, self.req)),
        }
    }

    /// The connection is there, made or found, with or without early data; or
    /// it is not.
    pub fn checked_out(self, outcome: Result<(bool, bool), Error>) -> (r: Result<
        (Staged<Q>, Report),
        Refused<Q>,
    >)
        ensures
            match outcome {
                Ok((made, early)) => r == Ok::<(Staged<Q>, Report), Refused<Q>>(
                    (
                        Staged { req: self.req, early },
                        if made {
                            Report::Connected
                        } else {
                            Report::Reused
                        },
                    ),
                ),
                Err(e) => r matches Err(f) && f.why() == e && f.unsent() == self.req,
            },
    {
        match outcome {
            Ok((made, early)) => Ok(
                (
                    Staged { req: self.req, early },
                    if made {
                        Report::Connected
                    } else {
                        Report::Reused
                    },
                ),
            ),
            Err(e) => Err(Refused::new(e, self.req)),
        }
    }

    /// The bound passed first.
    pub fn timed_out(self, bound: Duration) -> (r: Refused<Q>)
        ensures
            r.unsent() == self.req,
            r.why() == (Error {
                kind: ErrorKind::Timeout(Phase::Connect),
                source: Arc::new(Source::H3ConnectTimedOut(ConnectTimedOut(bound))),
            }),
    {
        Refused::new(
            Error::new(
                ErrorKind::Timeout(Phase::Connect),
                Source::H3ConnectTimedOut(ConnectTimedOut(bound)),
            ),
            self.req,
        )
    }
}

// ---------------------------------------------------------------------------
// The second half
// ---------------------------------------------------------------------------

/// What an exchange waits for.
#[derive(Debug, Clone, Copy, PartialEq, Eq, Structural)]
pub enum Awaiting {
    /// The answer to the first attempt.
    First,
    /// Whether the early data was accepted.
    Verdict,
    /// The answer to the second attempt.
    Second,
    /// Nothing.
    Nothing,
}

/// An exchange under way.
#[derive(Debug)]
pub struct Finish<B> {
    early: bool,
    spare: Option<B>,
    failure: Option<Error>,
    awaiting: Awaiting,
}

/// What to do next.
#[derive(Debug)]
pub enum Next<B> {
    /// Report the head and hand out the response.
    Head,
    /// Ask whether the early data was accepted.
    AskVerdict,
    /// Send the request again, with this body.
    Again(B),
    /// Report the failure and hand it out.
    Fail(Error),
}

/// What an exchange is told.
pub enum Told {
    /// Whether the first attempt was answered.
    First(bool),
    /// Whether the early data was accepted.
    Verdict(bool),
    /// Whether the second attempt was answered.
    Second(bool),
}

/// Where an exchange stands.
pub struct Standing {
    /// Whether the connection went out with early data.
    pub early: bool,
    /// Whether there is a body for a second attempt.
    pub spare: bool,
    pub awaiting: Awaiting,
}

/// Where an exchange stands behind what it was told, where that is what it
/// waited for. Only early data that was not accepted is followed by a second
/// attempt, and only with a body for it.
pub open spec fn standing_after(s: Standing, t: Told) -> Option<Standing> {
    match (s.awaiting, t) {
        (Awaiting::First, Told::First(answered)) => Some(
            Standing {
                awaiting: if !answered && s.early {
                    Awaiting::Verdict
                } else {
                    Awaiting::Nothing
                },
                ..s
            },
        ),
        (Awaiting::Verdict, Told::Verdict(accepted)) => Some(
            Standing {
                awaiting: if !accepted && s.spare {
                    Awaiting::Second
                } else {
                    Awaiting::Nothing
                },
                spare: false,
                ..s
            },
        ),
        (Awaiting::Second, Told::Second(_)) => Some(Standing { awaiting: Awaiting::Nothing, ..s }),
        _ => None,
    }
}

/// Where an exchange stands behind all that it was told, where it waited for
/// each.
pub open spec fn standing_behind(s: Standing, told: Seq<Told>) -> Option<Standing>
    decreases told.len(),
{
    if told.len() == 0 {
        Some(s)
    } else {
        match standing_behind(s, told.drop_last()) {
            Some(u) => standing_after(u, told.last()),
            None => None,
        }
    }
}

/// How much can still be told to an exchange.
pub open spec fn left_to_tell(a: Awaiting) -> nat {
    match a {
        Awaiting::First => 3,
        Awaiting::Verdict => 2,
        Awaiting::Second => 1,
        Awaiting::Nothing => 0,
    }
}

impl<B> Finish<B> {
    /// Where it stands.
    pub open spec fn standing(self) -> Standing {
        Standing {
            early: self.is_early(),
            spare: self.spare_body() is Some,
            awaiting: self.stage(),
        }
    }

    /// Whether the connection went out with early data.
    pub closed spec fn is_early(self) -> bool {
        self.early
    }

    /// The body for a second attempt.
    pub closed spec fn spare_body(self) -> Option<B> {
        self.spare
    }

    /// What the first attempt failed with.
    pub closed spec fn held_failure(self) -> Option<Error> {
        self.failure
    }

    /// What is waited for.
    pub closed spec fn stage(self) -> Awaiting {
        self.awaiting
    }

    /// A verdict is waited for only with the failure that asks for it.
    pub closed spec fn wf(self) -> bool {
        self.awaiting == Awaiting::Verdict ==> self.failure is Some
    }

    /// Start an exchange. A body for a second attempt is kept only where one
    /// could be needed: `rewound` is what rewinding the body gave.
    pub fn begin(early: bool, rewound: Option<B>) -> (r: Self)
        ensures
            r.wf(),
            r.is_early() == early,
            r.stage() == Awaiting::First,
            r.spare_body() == if early {
                rewound
            } else {
                None
            },
            r.held_failure() is None,
    {
        Finish {
            early,
            spare: if early {
                rewound
            } else {
                None
            },
            failure: None,
            awaiting: Awaiting::First,
        }
    }

    /// The first attempt is over.
    pub fn first(&mut self, outcome: Result<(), Error>) -> (r: Next<B>)
        requires
            old(self).wf(),
            old(self).stage() == Awaiting::First,
        ensures
            final(self).wf(),
            final(self).spare_body() == old(self).spare_body(),
            standing_after(old(self).standing(), Told::First(outcome is Ok)) == Some(
                final(self).standing(),
            ),
            match outcome {
                Ok(_) => r == Next::<B>::Head && final(self).stage() == Awaiting::Nothing,
                Err(e) => if old(self).is_early() {
                    &&& r == Next::<B>::AskVerdict
                    &&& final(self).stage() == Awaiting::Verdict
                    &&& final(self).held_failure() == Some(e)
                } else {
                    &&& r == Next::<B>::Fail(e)
                    &&& final(self).stage() == Awaiting::Nothing
                },
            },
    {
        match outcome {
            Ok(_) => {
                self.awaiting = Awaiting::Nothing;
                Next::Head
            },
            Err(e) => {
                if self.early {
                    self.failure = Some(e);
                    self.awaiting = Awaiting::Verdict;
                    Next::AskVerdict
                } else {
                    self.awaiting = Awaiting::Nothing;
                    Next::Fail(e)
                }
            },
        }
    }

    /// The peer said whether it accepted the early data. Only where it did
    /// not, and the body can be sent again, is there a second attempt.
    pub fn verdict(&mut self, accepted: bool) -> (r: Next<B>)
        requires
            old(self).wf(),
            old(self).stage() == Awaiting::Verdict,
        ensures
            final(self).wf(),
            old(self).held_failure() is Some,
            standing_after(old(self).standing(), Told::Verdict(accepted)) == Some(
                final(self).standing(),
            ),
            if !accepted && old(self).spare_body() is Some {
                &&& r == Next::Again(old(self).spare_body()->0)
                &&& final(self).stage() == Awaiting::Second
            } else {
                &&& r == Next::<B>::Fail(old(self).held_failure()->0)
                &&& final(self).stage() == Awaiting::Nothing
            },
    {
        let failure = self.failure.take();
        let spare = self.spare.take();
        match (accepted, spare) {
            (false, Some(body)) => {
                self.awaiting = Awaiting::Second;
                Next::Again(body)
            },
            _ => {
                self.awaiting = Awaiting::Nothing;
                Next::Fail(failure.unwrap())
            },
        }
    }

    /// The second attempt is over, and with it the exchange.
    pub fn second(&mut self, outcome: Result<(), Error>) -> (r: Next<B>)
        requires
            old(self).wf(),
            old(self).stage() == Awaiting::Second,
        ensures
            final(self).wf(),
            standing_after(old(self).standing(), Told::Second(outcome is Ok)) == Some(
                final(self).standing(),
            ),
            r == match outcome {
                Ok(_) => Next::<B>::Head,
                Err(e) => Next::<B>::Fail(e),
            },
    {
        self.awaiting = Awaiting::Nothing;
        match outcome {
            Ok(_) => Next::Head,
            Err(e) => Next::Fail(e),
        }
    }
}

/// A request with a reason against it is not admitted.
pub proof fn law_refused_is_not_admitted(
    version: Result<(), Error>,
    req: Asked,
    known: Option<u64>,
    early_data: bool,
    e: Error,
)
    ensures
        refused_with(version, req, known, early_data, e) ==> !admissible(
            version,
            req,
            known,
            early_data,
        ),
{
}

/// A marked request is never sent late in silence: it goes out early, or its
/// body cannot be sent twice, or it is refused.
pub proof fn law_marked_is_early_or_refused(
    version: Result<(), Error>,
    req: Asked,
    known: Option<u64>,
    early_data: bool,
)
    requires
        req.marked,
        admissible(version, req, known, early_data),
    ensures
        early_data,
        may_go_early(req.marked, req.body) || req.body == BodyKind::Streaming,
{
}

/// A connection that carries early data and one that does not are kept apart,
/// and so are those of two identities or two configurations.
pub proof fn law_keys_are_kept_apart(a: Admitted, b: Admitted, default: u64, k: QuicKey, l: QuicKey)
    requires
        keyed(a, default, k),
        keyed(b, default, l),
        k.host@ == l.host@ && k.port == l.port && k.tls == l.tls && k.early_data == l.early_data
            && text_of(k.identity) == text_of(l.identity),
    ensures
        a.host@ == b.host@,
        a.port == b.port,
        a.wants_early == b.wants_early,
        text_of(a.identity) == text_of(b.identity),
        config_of(a, default) == config_of(b, default),
{
}

/// An exchange ends: whatever it is told, it waits for one thing less.
pub proof fn law_an_exchange_ends(s: Standing, told: Seq<Told>)
    requires
        standing_behind(s, told) is Some,
    ensures
        left_to_tell(standing_behind(s, told)->0.awaiting) + told.len() <= left_to_tell(s.awaiting),
    decreases told.len(),
{
    if told.len() > 0 {
        law_an_exchange_ends(s, told.drop_last());
    }
}

/// A request is sent a second time only where its early data was not accepted,
/// and there is a body to send.
pub proof fn law_accepted_is_not_repeated(s: Standing, told: Seq<Told>)
    requires
        s.awaiting == Awaiting::First,
        standing_behind(s, told) is Some,
        standing_behind(s, told)->0.awaiting == Awaiting::Second,
    ensures
        told == seq![Told::First(false), Told::Verdict(false)],
        s.early,
        s.spare,
{
    law_an_exchange_ends(s, told);
    let a = told.drop_last();
    if told.len() > 0 && a.len() > 0 {
        assert(a.drop_last() =~= Seq::<Told>::empty());
        assert(standing_behind(s, a.drop_last()) == Some(s));
        assert(standing_behind(s, a) == standing_after(s, a.last()));
        assert(told =~= seq![a.last(), told.last()]);
    }
}

/// Why a request is refused: a version that it demands and is not spoken, else
/// a scheme other than `https`, else no host, else an identity that is not
/// known, else early data that cannot be offered; and always the first of them.
pub proof fn law_the_first_reason_is_given(
    version: Result<(), Error>,
    req: Asked,
    known: Option<u64>,
    early_data: bool,
    e: Error,
)
    requires
        refused_with(version, req, known, early_data, e),
    ensures
        version matches Err(v) ==> e == v,
        version is Ok && req.uri@.0 != Some("https"@) ==> e.kind == ErrorKind::Connect,
        version is Ok && req.uri@.0 == Some("https"@) && req.uri@.1 is None ==> e.kind
            == ErrorKind::Connect,
        version is Ok && req.uri@.0 == Some("https"@) && req.uri@.1 is Some && req.identity is Some
            && known is None ==> e.kind == ErrorKind::Tls && (*e.source matches
            Source::UnknownClientIdentity(u) && u.0@ == (req.identity->0)@),
        version is Ok && req.uri@.0 == Some("https"@) && req.uri@.1 is Some && !(req.identity is Some
            && known is None) ==> e.kind == ErrorKind::Unsupported && req.marked && !early_data,
{
}

/// A request is admitted exactly where nothing is wrong with it: its version is
/// spoken, it is for `https` and names a host, the identity that it names is
/// known, and it asks for early data only where that can be offered.
pub proof fn law_what_is_admitted(
    version: Result<(), Error>,
    req: Asked,
    known: Option<u64>,
    early_data: bool,
)
    ensures
        admissible(version, req, known, early_data) <==> version is Ok && req.uri@.0 == Some(
            "https"@,
        ) && req.uri@.1 is Some && !(req.identity is Some && known is None) && !(req.marked
            && !early_data),
{
}

/// The key of an admitted request names its host and port, the configuration
/// of its identity or the backend's own, whether it goes out early, and its
/// identity.
pub proof fn law_what_a_key_names(a: Admitted, default: u64, key: QuicKey)
    requires
        keyed(a, default, key),
    ensures
        key.host@ == a.host@,
        key.port == a.port,
        key.early_data == a.wants_early,
        a.identity_id matches Some(id) ==> key.tls == id,
        a.identity_id is None ==> key.tls == default,
        a.identity is Some == key.identity is Some,
        a.identity is Some ==> (key.identity->0)@ == (a.identity->0)@,
{
}

/// An attempt that is answered ends the exchange; one that fails without early
/// data does too; one that fails with it waits for the verdict, and goes on to
/// a second attempt exactly where the verdict was no and there is a body.
pub proof fn law_how_an_exchange_goes_on(s: Standing)
    ensures
        s.awaiting == Awaiting::First ==> {
            &&& standing_after(s, Told::First(true)) matches Some(n) && n.awaiting
                == Awaiting::Nothing
            &&& standing_after(s, Told::First(false)) matches Some(n) && (n.awaiting
                == Awaiting::Verdict <==> s.early) && (n.awaiting == Awaiting::Nothing <==> !s.early)
        },
        s.awaiting == Awaiting::Verdict ==> {
            &&& standing_after(s, Told::Verdict(true)) matches Some(n) && n.awaiting
                == Awaiting::Nothing
            &&& standing_after(s, Told::Verdict(false)) matches Some(n) && (n.awaiting
                == Awaiting::Second <==> s.spare) && (n.awaiting == Awaiting::Nothing <==> !s.spare)
        },
        s.awaiting == Awaiting::Second ==> forall|answered: bool|
            #[trigger] standing_after(s, Told::Second(answered)) matches Some(n) && n.awaiting
                == Awaiting::Nothing,
{
}

/// An admitted request goes to its own host, at its own port or 443, under its
/// own bounds and identity; and it goes out early exactly where it is marked
/// and its body does not stream.
pub proof fn law_what_an_admitted_request_decides(req: Asked, known: Option<u64>, a: Admitted)
    requires
        decides(req, known, a),
    ensures
        req.uri@.1 == Some(a.host@),
        req.uri@.2 matches Some(p) ==> a.port == p,
        req.uri@.2 is None ==> a.port == 443,
        a.timeouts == req.timeouts,
        a.wants_early <==> req.marked && req.body != BodyKind::Streaming,
        req.identity is None ==> a.identity is None && a.identity_id is None,
        req.identity matches Some(n) ==> (a.identity matches Some(m) && m@ == n@) && a.identity_id
            == known,
{
}

} // verus!
