//! Where a request goes: the scheme, host and port of its URI.

use vstd::prelude::*;
use vstd::string::*;

use crate::error::{Error, ErrorKind, Source, UnsupportedScheme, UriError};

verus! {

/// The port of `https` where the URI names none.
pub const HTTPS_DEFAULT_PORT: u16 = 443;

/// The port of `http` where the URI names none.
pub const HTTP_DEFAULT_PORT: u16 = 80;

/// What `str::parse` into `http::Uri` makes of some text: nothing where it is
/// no URI, else what `scheme_str`, `host` and `port_u16` read of it.
pub uninterp spec fn uri_of(text: Seq<char>) -> Option<
    (Option<Seq<char>>, Option<Seq<char>>, Option<u16>),
>;

/// The scheme, host and port of a URI, each where there is one.
#[derive(Debug)]
pub struct UriParts {
    pub scheme: Option<String>,
    pub host: Option<String>,
    pub port: Option<u16>,
}

/// The text of an optional string.
pub open spec fn text_in(s: Option<String>) -> Option<Seq<char>> {
    match s {
        Some(t) => Some(t@),
        None => None,
    }
}

impl View for UriParts {
    type V = (Option<Seq<char>>, Option<Seq<char>>, Option<u16>);

    open spec fn view(&self) -> (Option<Seq<char>>, Option<Seq<char>>, Option<u16>) {
        (text_in(self.scheme), text_in(self.host), self.port)
    }
}

/// `http::Uri` from text, read with `scheme_str`, `host` and `port_u16`: what
/// comes back is a function of the text.
#[verifier::external_body]
fn read_uri(text: &str) -> (r: Option<UriParts>)
    ensures
        match r {
            Some(p) => uri_of(text@) == Some(p@),
            None => uri_of(text@) is None,
        },
{
    let uri: http::Uri = text.parse().ok()?;
    Some(
        UriParts {
            scheme: uri.scheme_str().map(|s| s.to_owned()),
            host: uri.host().map(|s| s.to_owned()),
            port: uri.port_u16(),
        },
    )
}

impl UriParts {
    /// The parts of the URI that some text is, where it is one.
    pub fn parse(text: &str) -> (r: Option<Self>)
        ensures
            match r {
                Some(p) => uri_of(text@) == Some(p@),
                None => uri_of(text@) is None,
            },
    {
        read_uri(text)
    }
}

/// The host that a connection goes to; without one there is nowhere to go.
pub fn host(uri: &UriParts) -> (r: Result<&str, Error>)
    ensures
        match r {
            Ok(h) => uri@.1 == Some(h@),
            Err(e) => uri@.1 is None && e.kind == ErrorKind::Connect && *e.source
                == Source::UriError(UriError),
        },
{
    match &uri.host {
        Some(h) => Ok(h.as_str()),
        None => Err(Error::new(ErrorKind::Connect, Source::UriError(UriError))),
    }
}

/// The port that a connection goes to: the one named, else the scheme's own.
pub open spec fn port_of(named: Option<u16>, use_tls: bool) -> u16 {
    match named {
        Some(p) => p,
        None => if use_tls {
            HTTPS_DEFAULT_PORT
        } else {
            HTTP_DEFAULT_PORT
        },
    }
}

/// The port that a connection goes to.
pub fn port(uri: &UriParts, use_tls: bool) -> (r: u16)
    ensures
        r == port_of(uri@.2, use_tls),
{
    match uri.port {
        Some(p) => p,
        None => if use_tls {
            HTTPS_DEFAULT_PORT
        } else {
            HTTP_DEFAULT_PORT
        },
    }
}

/// Whether the scheme asks for TLS, where it is one of the two that are
/// spoken.
pub open spec fn tls_for(scheme: Option<Seq<char>>) -> Option<bool> {
    if scheme == Some("http"@) {
        Some(false)
    } else if scheme == Some("https"@) {
        Some(true)
    } else {
        None
    }
}

/// Whether an error is the refusal of a scheme, which it names; a missing one
/// is named by nothing.
pub open spec fn scheme_refused(scheme: Option<Seq<char>>, e: Error) -> bool {
    e.kind == ErrorKind::Unsupported && (*e.source matches Source::UnsupportedScheme(s) && s.0@
        == match scheme {
        Some(text) => text,
        None => Seq::empty(),
    })
}

/// Whether the connection is encrypted. A scheme that is neither `http` nor
/// `https` is refused by name.
pub fn wants_tls(uri: &UriParts) -> (r: Result<bool, Error>)
    ensures
        match r {
            Ok(tls) => tls_for(uri@.0) == Some(tls),
            Err(e) => tls_for(uri@.0) is None && scheme_refused(uri@.0, e),
        },
{
    proof {
        reveal_strlit("http");
        reveal_strlit("https");
        assert("http"@.len() != "https"@.len());
    }
    match &uri.scheme {
        Some(s) => if *s == "http".to_owned() {
            Ok(false)
        } else if *s == "https".to_owned() {
            Ok(true)
        } else {
            Err(
                Error::new(
                    ErrorKind::Unsupported,
                    Source::UnsupportedScheme(UnsupportedScheme(s.clone())),
                ),
            )
        },
        None => Err(
            Error::new(
                ErrorKind::Unsupported,
                Source::UnsupportedScheme(UnsupportedScheme(String::new())),
            ),
        ),
    }
}

/// Where a connection goes.
#[derive(Debug)]
pub struct Target {
    pub host: String,
    pub use_tls: bool,
    pub port: u16,
}

/// Whether a target is where a URI leads.
pub open spec fn leads_to(
    uri: (Option<Seq<char>>, Option<Seq<char>>, Option<u16>),
    t: Target,
) -> bool {
    &&& uri.1 == Some(t.host@)
    &&& tls_for(uri.0) == Some(t.use_tls)
    &&& t.port == port_of(uri.2, t.use_tls)
}

/// The host, the use of TLS and the port that a URI leads to, where it leads
/// anywhere.
pub open spec fn target_of(
    uri: (Option<Seq<char>>, Option<Seq<char>>, Option<u16>),
) -> Option<(Seq<char>, bool, u16)> {
    match (uri.1, tls_for(uri.0)) {
        (Some(host), Some(use_tls)) => Some((host, use_tls, port_of(uri.2, use_tls))),
        _ => None,
    }
}

impl Target {
    /// Where a URI leads: to a host, by a scheme that is spoken. A missing
    /// host is named before a scheme that is not.
    pub fn of(uri: &UriParts) -> (r: Result<Target, Error>)
        ensures
            match r {
                Ok(t) => leads_to(uri@, t),
                Err(e) => if uri@.1 is None {
                    e.kind == ErrorKind::Connect && *e.source == Source::UriError(UriError)
                } else {
                    tls_for(uri@.0) is None && scheme_refused(uri@.0, e)
                },
            },
    {
        let host = match host(uri) {
            Ok(h) => h,
            Err(e) => return Err(e),
        };
        let use_tls = match wants_tls(uri) {
            Ok(t) => t,
            Err(e) => return Err(e),
        };
        Ok(Target { host: host.to_owned(), use_tls, port: port(uri, use_tls) })
    }
}

/// A host without the brackets that an IPv6 literal wears in a URI.
pub open spec fn bare(host: Seq<char>) -> Seq<char> {
    if host.len() >= 2 && host[0] == '[' && host.last() == ']' {
        host.subrange(1, host.len() - 1)
    } else {
        host
    }
}

/// A host without the brackets that an IPv6 literal wears in a URI.
pub fn bare_host(host: &str) -> (r: &str)
    ensures
        r@ == bare(host@),
{
    let n: usize = host.unicode_len();
    if n >= 2 && host.get_char(0) == '[' && host.get_char(n - 1) == ']' {
        host.substring_char(1, n - 1)
    } else {
        host
    }
}

/// Every URI with a host and one of the two schemes leads somewhere, and no
/// other does.
pub proof fn law_where_a_uri_leads(
    uri: (Option<Seq<char>>, Option<Seq<char>>, Option<u16>),
    t: Target,
    u: Target,
)
    ensures
        leads_to(uri, t) ==> uri.1 is Some && (uri.0 == Some("http"@) || uri.0 == Some("https"@)),
        leads_to(uri, t) && leads_to(uri, u) ==> t.host@ == u.host@ && t.use_tls == u.use_tls
            && t.port == u.port,
{
}

/// A named port is the port; without one it is 443 for an encrypted connection
/// and 80 for any other.
pub proof fn law_a_named_port_is_the_port(named: u16, use_tls: bool)
    ensures
        port_of(Some(named), use_tls) == named,
        port_of(None, true) == 443,
        port_of(None, false) == 80,
{
}

/// `https` is encrypted and `http` is not, and no other scheme, nor none, is
/// either.
pub proof fn law_what_a_scheme_says(scheme: Option<Seq<char>>)
    ensures
        tls_for(scheme) == Some(true) <==> scheme == Some("https"@),
        tls_for(scheme) == Some(false) <==> scheme == Some("http"@),
{
    reveal_strlit("http");
    reveal_strlit("https");
    assert("http"@.len() != "https"@.len());
}

/// A URI leads exactly where its host, its scheme and its port say; without a
/// host, or with another scheme, nowhere.
pub proof fn law_a_uri_leads_where_it_says(
    uri: (Option<Seq<char>>, Option<Seq<char>>, Option<u16>),
    t: Target,
)
    ensures
        leads_to(uri, t) <==> target_of(uri) == Some((t.host@, t.use_tls, t.port)),
        uri.1 is None ==> target_of(uri) is None,
        uri.0 != Some("http"@) && uri.0 != Some("https"@) ==> target_of(uri) is None,
        uri.1 is Some && uri.0 == Some("https"@) ==> (target_of(uri) matches Some(x) && x.0
            == uri.1->0 && x.1 && (uri.2 matches Some(p) ==> x.2 == p) && (uri.2 is None ==> x.2
            == 443)),
        uri.1 is Some && uri.0 == Some("http"@) ==> (target_of(uri) matches Some(x) && x.0
            == uri.1->0 && !x.1 && (uri.2 matches Some(p) ==> x.2 == p) && (uri.2 is None ==> x.2
            == 80)),
{
    law_what_a_scheme_says(uri.0);
}

/// The brackets of an IPv6 literal come off, and only those.
pub proof fn law_brackets_come_off(host: Seq<char>)
    ensures
        bare(seq!['['] + host.push(']')) == host,
        host.len() < 2 || host[0] != '[' || host.last() != ']' ==> bare(host) == host,
{
    let s = seq!['['] + host.push(']');
    assert(s.subrange(1, s.len() - 1) =~= host);
}

} // verus!
