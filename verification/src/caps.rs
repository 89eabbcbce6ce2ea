//! What a transport can do, and what a pair of transports can be said to do.
//!
//! A pair is described by what is true whichever of the two serves the
//! request. Where one value asks a caller to assume less than the other, that
//! one is true of both. Where the two are different claims, nothing is, and
//! [`combine`] says which field it was.

use vstd::prelude::*;
use vstd::string::*;

use crate::error::{quote, quoted_text, Disagreement};

verus! {

/// What becomes of a redirect.
#[derive(Debug, Clone, Copy, PartialEq, Eq, Structural)]
pub enum RedirectSupport {
    Absent,
    Transparent,
    Internal,
}

/// Whether connections are used again.
#[derive(Debug, Clone, Copy, PartialEq, Eq, Structural)]
pub enum ReuseSupport {
    Absent,
    Supported,
}

/// How much of TLS a caller can set.
#[derive(Debug, Clone, Copy, PartialEq, Eq, Structural)]
pub enum TlsSupport {
    Absent,
    Full,
}

/// Which deadlines are kept.
#[derive(Debug, Clone, Copy, PartialEq, Eq, Structural)]
pub struct TimeoutSupport {
    pub resolve: bool,
    pub connect: bool,
    pub first_byte: bool,
    pub between_bytes: bool,
}

/// What a transport can do.
#[derive(Debug)]
pub struct Capabilities {
    pub streaming_request_body: bool,
    pub full_duplex: bool,
    pub request_trailers: bool,
    pub response_trailers: bool,
    pub redirects: RedirectSupport,
    pub cancel_on_drop: bool,
    pub connection_reuse: ReuseSupport,
    pub response_decompression: bool,
    pub early_data: bool,
    pub tls_config: TlsSupport,
    pub client_certs: bool,
    pub proxy: bool,
    pub owns_cookie_jar: bool,
    pub owns_cache: bool,
    pub version_select: bool,
    pub version_reported: bool,
    pub timeouts: TimeoutSupport,
    pub informational_1xx: bool,
    /// The names of the header fields that a caller may not set.
    pub forbidden_request_headers: Vec<String>,
}

/// [`Capabilities`] as a mathematical value.
#[verifier::ext_equal]
pub struct CapsView {
    pub streaming_request_body: bool,
    pub full_duplex: bool,
    pub request_trailers: bool,
    pub response_trailers: bool,
    pub redirects: RedirectSupport,
    pub cancel_on_drop: bool,
    pub connection_reuse: ReuseSupport,
    pub response_decompression: bool,
    pub early_data: bool,
    pub tls_config: TlsSupport,
    pub client_certs: bool,
    pub proxy: bool,
    pub owns_cookie_jar: bool,
    pub owns_cache: bool,
    pub version_select: bool,
    pub version_reported: bool,
    pub timeouts: TimeoutSupport,
    pub informational_1xx: bool,
    pub forbidden_request_headers: Seq<Seq<char>>,
}

/// The text of some strings.
pub open spec fn texts(s: Seq<String>) -> Seq<Seq<char>> {
    s.map_values(|t: String| t@)
}

impl View for Capabilities {
    type V = CapsView;

    open spec fn view(&self) -> CapsView {
        CapsView {
            streaming_request_body: self.streaming_request_body,
            full_duplex: self.full_duplex,
            request_trailers: self.request_trailers,
            response_trailers: self.response_trailers,
            redirects: self.redirects,
            cancel_on_drop: self.cancel_on_drop,
            connection_reuse: self.connection_reuse,
            response_decompression: self.response_decompression,
            early_data: self.early_data,
            tls_config: self.tls_config,
            client_certs: self.client_certs,
            proxy: self.proxy,
            owns_cookie_jar: self.owns_cookie_jar,
            owns_cache: self.owns_cache,
            version_select: self.version_select,
            version_reported: self.version_reported,
            timeouts: self.timeouts,
            informational_1xx: self.informational_1xx,
            forbidden_request_headers: texts(self.forbidden_request_headers@),
        }
    }
}

/// A transport that promises nothing.
pub open spec fn nothing() -> CapsView {
    CapsView {
        streaming_request_body: false,
        full_duplex: false,
        request_trailers: false,
        response_trailers: false,
        redirects: RedirectSupport::Absent,
        cancel_on_drop: false,
        connection_reuse: ReuseSupport::Absent,
        response_decompression: false,
        early_data: false,
        tls_config: TlsSupport::Absent,
        client_certs: false,
        proxy: false,
        owns_cookie_jar: false,
        owns_cache: false,
        version_select: false,
        version_reported: false,
        timeouts: TimeoutSupport {
            resolve: false,
            connect: false,
            first_byte: false,
            between_bytes: false,
        },
        informational_1xx: false,
        forbidden_request_headers: Seq::empty(),
    }
}

impl Default for Capabilities {
    fn default() -> (r: Self)
        ensures
            r@ == nothing(),
    {
        let r = Capabilities {
            streaming_request_body: false,
            full_duplex: false,
            request_trailers: false,
            response_trailers: false,
            redirects: RedirectSupport::Absent,
            cancel_on_drop: false,
            connection_reuse: ReuseSupport::Absent,
            response_decompression: false,
            early_data: false,
            tls_config: TlsSupport::Absent,
            client_certs: false,
            proxy: false,
            owns_cookie_jar: false,
            owns_cache: false,
            version_select: false,
            version_reported: false,
            timeouts: TimeoutSupport {
                resolve: false,
                connect: false,
                first_byte: false,
                between_bytes: false,
            },
            informational_1xx: false,
            forbidden_request_headers: Vec::new(),
        };
        assert(r@ =~= nothing());
        r
    }
}

/// A copy of some strings.
pub fn copy_texts(s: &Vec<String>) -> (r: Vec<String>)
    ensures
        texts(r@) == texts(s@),
{
    let mut r: Vec<String> = Vec::new();
    let mut i: usize = 0;
    assert(texts(r@) =~= texts(s@).take(0));
    while i < s.len()
        invariant
            i <= s@.len(),
            texts(r@) == texts(s@).take(i as int),
        decreases s@.len() - i,
    {
        let ghost before = r@;
        r.push(s[i].clone());
        assert(texts(r@) =~= texts(before).push(s@[i as int]@));
        assert(texts(s@).take(i + 1) =~= texts(s@).take(i as int).push(s@[i as int]@));
        i = i + 1;
    }
    assert(texts(s@).take(i as int) =~= texts(s@));
    r
}

/// Whether two lists of strings say the same in the same order.
fn same_texts(a: &Vec<String>, b: &Vec<String>) -> (r: bool)
    ensures
        r == (texts(a@) == texts(b@)),
{
    if a.len() != b.len() {
        assert(texts(a@).len() != texts(b@).len());
        return false;
    }
    let mut i: usize = 0;
    while i < a.len()
        invariant
            i <= a@.len(),
            a@.len() == b@.len(),
            forall|j: int| 0 <= j < i ==> (#[trigger] a@[j])@ == b@[j]@,
        decreases a@.len() - i,
    {
        if a[i] != b[i] {
            assert(texts(a@)[i as int] != texts(b@)[i as int]);
            return false;
        }
        i = i + 1;
    }
    assert(texts(a@) =~= texts(b@));
    true
}

/// A field on which a pair can disagree.
pub enum Field {
    Redirects,
    CancelOnDrop,
    ConnectionReuse,
    ResponseDecompression,
    TlsConfig,
    OwnsCookieJar,
    OwnsCache,
    ForbiddenRequestHeaders,
}

/// The first field of which nothing is true of both, in the order in which
/// the fields are declared.
pub open spec fn disagreement(tcp: CapsView, quic: CapsView) -> Option<Field> {
    if tcp.redirects != quic.redirects {
        Some(Field::Redirects)
    } else if tcp.cancel_on_drop != quic.cancel_on_drop {
        Some(Field::CancelOnDrop)
    } else if tcp.connection_reuse != quic.connection_reuse {
        Some(Field::ConnectionReuse)
    } else if tcp.response_decompression != quic.response_decompression {
        Some(Field::ResponseDecompression)
    } else if tcp.tls_config != quic.tls_config {
        Some(Field::TlsConfig)
    } else if tcp.owns_cookie_jar != quic.owns_cookie_jar {
        Some(Field::OwnsCookieJar)
    } else if tcp.owns_cache != quic.owns_cache {
        Some(Field::OwnsCache)
    } else if tcp.forbidden_request_headers != quic.forbidden_request_headers {
        Some(Field::ForbiddenRequestHeaders)
    } else {
        None
    }
}

/// The name of a field.
pub open spec fn field_name(field: Field) -> Seq<char> {
    match field {
        Field::Redirects => "redirects"@,
        Field::CancelOnDrop => "cancel_on_drop"@,
        Field::ConnectionReuse => "connection_reuse"@,
        Field::ResponseDecompression => "response_decompression"@,
        Field::TlsConfig => "tls_config"@,
        Field::OwnsCookieJar => "owns_cookie_jar"@,
        Field::OwnsCache => "owns_cache"@,
        Field::ForbiddenRequestHeaders => "forbidden_request_headers"@,
    }
}

/// How a field of one transport reads.
pub open spec fn field_words(c: CapsView, field: Field) -> Seq<char> {
    match field {
        Field::Redirects => redirect_words(c.redirects),
        Field::CancelOnDrop => bool_words(c.cancel_on_drop),
        Field::ConnectionReuse => reuse_words(c.connection_reuse),
        Field::ResponseDecompression => bool_words(c.response_decompression),
        Field::TlsConfig => tls_words(c.tls_config),
        Field::OwnsCookieJar => bool_words(c.owns_cookie_jar),
        Field::OwnsCache => bool_words(c.owns_cache),
        Field::ForbiddenRequestHeaders => headers_words(c.forbidden_request_headers),
    }
}

/// `pair` says what is true of both.
pub open spec fn true_of_both(tcp: CapsView, quic: CapsView, pair: CapsView) -> bool {
    &&& pair.streaming_request_body == (tcp.streaming_request_body && quic.streaming_request_body)
    &&& pair.full_duplex == (tcp.full_duplex && quic.full_duplex)
    &&& pair.request_trailers == (tcp.request_trailers && quic.request_trailers)
    &&& pair.response_trailers == (tcp.response_trailers && quic.response_trailers)
    &&& pair.client_certs == (tcp.client_certs && quic.client_certs)
    &&& pair.proxy == (tcp.proxy && quic.proxy)
    &&& pair.version_select == (tcp.version_select && quic.version_select)
    &&& pair.version_reported == (tcp.version_reported && quic.version_reported)
    &&& pair.informational_1xx == (tcp.informational_1xx && quic.informational_1xx)
    &&& pair.timeouts.resolve == (tcp.timeouts.resolve && quic.timeouts.resolve)
    &&& pair.timeouts.connect == (tcp.timeouts.connect && quic.timeouts.connect)
    &&& pair.timeouts.first_byte == (tcp.timeouts.first_byte && quic.timeouts.first_byte)
    &&& pair.timeouts.between_bytes == (tcp.timeouts.between_bytes && quic.timeouts.between_bytes)
    &&& pair.early_data == (tcp.early_data || quic.early_data)
    &&& pair.redirects == tcp.redirects
    &&& pair.redirects == quic.redirects
    &&& pair.cancel_on_drop == tcp.cancel_on_drop
    &&& pair.cancel_on_drop == quic.cancel_on_drop
    &&& pair.connection_reuse == tcp.connection_reuse
    &&& pair.connection_reuse == quic.connection_reuse
    &&& pair.response_decompression == tcp.response_decompression
    &&& pair.response_decompression == quic.response_decompression
    &&& pair.tls_config == tcp.tls_config
    &&& pair.tls_config == quic.tls_config
    &&& pair.owns_cookie_jar == tcp.owns_cookie_jar
    &&& pair.owns_cookie_jar == quic.owns_cookie_jar
    &&& pair.owns_cache == tcp.owns_cache
    &&& pair.owns_cache == quic.owns_cache
    &&& pair.forbidden_request_headers == tcp.forbidden_request_headers
    &&& pair.forbidden_request_headers == quic.forbidden_request_headers
}

/// `true` or `false`.
pub open spec fn bool_words(b: bool) -> Seq<char> {
    if b {
        "true"@
    } else {
        "false"@
    }
}

fn bool_text(b: bool) -> (r: String)
    ensures
        r@ == bool_words(b),
{
    if b {
        "true".to_owned()
    } else {
        "false".to_owned()
    }
}

/// The name of a redirect policy.
pub open spec fn redirect_words(r: RedirectSupport) -> Seq<char> {
    match r {
        RedirectSupport::Absent => "None"@,
        RedirectSupport::Transparent => "Transparent"@,
        RedirectSupport::Internal => "Internal"@,
    }
}

fn redirect_text(v: RedirectSupport) -> (r: String)
    ensures
        r@ == redirect_words(v),
{
    match v {
        RedirectSupport::Absent => "None".to_owned(),
        RedirectSupport::Transparent => "Transparent".to_owned(),
        RedirectSupport::Internal => "Internal".to_owned(),
    }
}

/// The name of a reuse policy.
pub open spec fn reuse_words(r: ReuseSupport) -> Seq<char> {
    match r {
        ReuseSupport::Absent => "None"@,
        ReuseSupport::Supported => "Supported"@,
    }
}

fn reuse_text(v: ReuseSupport) -> (r: String)
    ensures
        r@ == reuse_words(v),
{
    match v {
        ReuseSupport::Absent => "None".to_owned(),
        ReuseSupport::Supported => "Supported".to_owned(),
    }
}

/// The name of a degree of TLS support.
pub open spec fn tls_words(r: TlsSupport) -> Seq<char> {
    match r {
        TlsSupport::Absent => "None"@,
        TlsSupport::Full => "Full"@,
    }
}

fn tls_text(v: TlsSupport) -> (r: String)
    ensures
        r@ == tls_words(v),
{
    match v {
        TlsSupport::Absent => "None".to_owned(),
        TlsSupport::Full => "Full".to_owned(),
    }
}

/// Names in quotes, with commas between them.
pub open spec fn quoted_list(names: Seq<Seq<char>>) -> Seq<char>
    decreases names.len(),
{
    if names.len() == 0 {
        Seq::empty()
    } else if names.len() == 1 {
        quoted_text(names[0])
    } else {
        quoted_list(names.drop_last()) + ", "@ + quoted_text(names.last())
    }
}

/// A list of names, in brackets.
pub open spec fn headers_words(names: Seq<Seq<char>>) -> Seq<char> {
    "["@ + quoted_list(names) + "]"@
}

fn headers_text(names: &Vec<String>) -> (r: String)
    ensures
        r@ == headers_words(texts(names@)),
{
    let mut out = String::new();
    let mut i: usize = 0;
    let ghost all = texts(names@);
    while i < names.len()
        invariant
            i <= names@.len(),
            all == texts(names@),
            out@ == quoted_list(all.take(i as int)),
        decreases names@.len() - i,
    {
        proof {
            assert(all.take(i + 1).drop_last() =~= all.take(i as int));
            assert(all[i as int] == names@[i as int]@);
            assert(Seq::<char>::empty() + quoted_text(all[0]) =~= quoted_text(all[0]));
        }
        if i > 0 {
            out.append(", ");
        }
        out.append(quote(names[i].as_str()).as_str());
        i = i + 1;
    }
    assert(all.take(i as int) =~= all);
    "[".to_owned().concat(out.as_str()).concat("]")
}

/// The value both members can be held to, or the first field on which there
/// is none.
pub fn combine(tcp: &Capabilities, quic: &Capabilities) -> (r: Result<Capabilities, Disagreement>)
    ensures
        match r {
            Ok(c) => disagreement(tcp@, quic@) is None && true_of_both(tcp@, quic@, c@),
            Err(d) => disagreement(tcp@, quic@) matches Some(f) && d.field@ == field_name(f)
                && d.tcp@ == field_words(tcp@, f) && d.quic@ == field_words(quic@, f),
        },
{
    if tcp.redirects != quic.redirects {
        return Err(
            Disagreement::new(
                "redirects",
                redirect_text(tcp.redirects),
                redirect_text(quic.redirects),
            ),
        );
    }
    if tcp.cancel_on_drop != quic.cancel_on_drop {
        return Err(
            Disagreement::new(
                "cancel_on_drop",
                bool_text(tcp.cancel_on_drop),
                bool_text(quic.cancel_on_drop),
            ),
        );
    }
    if tcp.connection_reuse != quic.connection_reuse {
        return Err(
            Disagreement::new(
                "connection_reuse",
                reuse_text(tcp.connection_reuse),
                reuse_text(quic.connection_reuse),
            ),
        );
    }
    if tcp.response_decompression != quic.response_decompression {
        return Err(
            Disagreement::new(
                "response_decompression",
                bool_text(tcp.response_decompression),
                bool_text(quic.response_decompression),
            ),
        );
    }
    if tcp.tls_config != quic.tls_config {
        return Err(
            Disagreement::new("tls_config", tls_text(tcp.tls_config), tls_text(quic.tls_config)),
        );
    }
    if tcp.owns_cookie_jar != quic.owns_cookie_jar {
        return Err(
            Disagreement::new(
                "owns_cookie_jar",
                bool_text(tcp.owns_cookie_jar),
                bool_text(quic.owns_cookie_jar),
            ),
        );
    }
    if tcp.owns_cache != quic.owns_cache {
        return Err(
            Disagreement::new("owns_cache", bool_text(tcp.owns_cache), bool_text(quic.owns_cache)),
        );
    }
    if !same_texts(&tcp.forbidden_request_headers, &quic.forbidden_request_headers) {
        return Err(
            Disagreement::new(
                "forbidden_request_headers",
                headers_text(&tcp.forbidden_request_headers),
                headers_text(&quic.forbidden_request_headers),
            ),
        );
    }
    Ok(
        Capabilities {
            streaming_request_body: tcp.streaming_request_body && quic.streaming_request_body,
            full_duplex: tcp.full_duplex && quic.full_duplex,
            request_trailers: tcp.request_trailers && quic.request_trailers,
            response_trailers: tcp.response_trailers && quic.response_trailers,
            redirects: tcp.redirects,
            cancel_on_drop: tcp.cancel_on_drop,
            connection_reuse: tcp.connection_reuse,
            response_decompression: tcp.response_decompression,
            early_data: tcp.early_data || quic.early_data,
            tls_config: tcp.tls_config,
            client_certs: tcp.client_certs && quic.client_certs,
            proxy: tcp.proxy && quic.proxy,
            owns_cookie_jar: tcp.owns_cookie_jar,
            owns_cache: tcp.owns_cache,
            version_select: tcp.version_select && quic.version_select,
            version_reported: tcp.version_reported && quic.version_reported,
            timeouts: TimeoutSupport {
                resolve: tcp.timeouts.resolve && quic.timeouts.resolve,
                connect: tcp.timeouts.connect && quic.timeouts.connect,
                first_byte: tcp.timeouts.first_byte && quic.timeouts.first_byte,
                between_bytes: tcp.timeouts.between_bytes && quic.timeouts.between_bytes,
            },
            informational_1xx: tcp.informational_1xx && quic.informational_1xx,
            forbidden_request_headers: copy_texts(&tcp.forbidden_request_headers),
        },
    )
}

/// Whether every capability that a caller may assume of `pair` may be assumed
/// of `member`: each flag that is up for the pair is up for the member. Early
/// data is not among them: it is a permission, and one member's is the pair's.
pub open spec fn assumes_no_more(pair: CapsView, member: CapsView) -> bool {
    &&& pair.streaming_request_body ==> member.streaming_request_body
    &&& pair.full_duplex ==> member.full_duplex
    &&& pair.request_trailers ==> member.request_trailers
    &&& pair.response_trailers ==> member.response_trailers
    &&& pair.client_certs ==> member.client_certs
    &&& pair.proxy ==> member.proxy
    &&& pair.informational_1xx ==> member.informational_1xx
    &&& pair.version_select ==> member.version_select
    &&& pair.version_reported ==> member.version_reported
    &&& pair.timeouts.resolve ==> member.timeouts.resolve
    &&& pair.timeouts.connect ==> member.timeouts.connect
    &&& pair.timeouts.first_byte ==> member.timeouts.first_byte
    &&& pair.timeouts.between_bytes ==> member.timeouts.between_bytes
    &&& pair.redirects == member.redirects
    &&& pair.cancel_on_drop == member.cancel_on_drop
    &&& pair.connection_reuse == member.connection_reuse
    &&& pair.response_decompression == member.response_decompression
    &&& pair.tls_config == member.tls_config
    &&& pair.owns_cookie_jar == member.owns_cookie_jar
    &&& pair.owns_cache == member.owns_cache
    &&& pair.forbidden_request_headers == member.forbidden_request_headers
}

/// What is said of a pair is true whichever member serves the request.
pub proof fn law_true_of_either_member(tcp: CapsView, quic: CapsView, pair: CapsView)
    requires
        true_of_both(tcp, quic, pair),
    ensures
        assumes_no_more(pair, tcp),
        assumes_no_more(pair, quic),
{
}

/// Nothing that both members have is lost.
pub proof fn law_nothing_shared_is_lost(c: CapsView)
    ensures
        disagreement(c, c) is None,
        true_of_both(c, c, c),
{
}

/// The order of the members changes neither what a pair is said to do nor
/// whether it can be said.
pub proof fn law_members_may_be_swapped(a: CapsView, b: CapsView, pair: CapsView)
    ensures
        disagreement(a, b) == disagreement(b, a),
        true_of_both(a, b, pair) == true_of_both(b, a, pair),
{
}

/// Where a field stands against it, nothing at all is true of both.
pub proof fn law_a_disagreement_leaves_no_answer(tcp: CapsView, quic: CapsView, pair: CapsView)
    requires
        disagreement(tcp, quic) is Some,
    ensures
        !true_of_both(tcp, quic, pair),
{
}

/// Two stacks disagree exactly where one of eight fields differs, and what is
/// named is one that does, with no other before it.
pub proof fn law_the_first_difference_is_named(tcp: CapsView, quic: CapsView)
    ensures
        disagreement(tcp, quic) is None <==> tcp.redirects == quic.redirects && tcp.cancel_on_drop
            == quic.cancel_on_drop && tcp.connection_reuse == quic.connection_reuse
            && tcp.response_decompression == quic.response_decompression && tcp.tls_config
            == quic.tls_config && tcp.owns_cookie_jar == quic.owns_cookie_jar && tcp.owns_cache
            == quic.owns_cache && tcp.forbidden_request_headers == quic.forbidden_request_headers,
        disagreement(tcp, quic) == Some(Field::Redirects) ==> tcp.redirects != quic.redirects,
        tcp.redirects != quic.redirects ==> disagreement(tcp, quic) == Some(Field::Redirects),
        disagreement(tcp, quic) == Some(Field::CancelOnDrop) ==> tcp.cancel_on_drop
            != quic.cancel_on_drop && tcp.redirects == quic.redirects,
        disagreement(tcp, quic) == Some(Field::ConnectionReuse) ==> tcp.connection_reuse
            != quic.connection_reuse && tcp.cancel_on_drop == quic.cancel_on_drop,
        disagreement(tcp, quic) == Some(Field::ResponseDecompression) ==> tcp.response_decompression
            != quic.response_decompression && tcp.connection_reuse == quic.connection_reuse,
        disagreement(tcp, quic) == Some(Field::TlsConfig) ==> tcp.tls_config != quic.tls_config
            && tcp.response_decompression == quic.response_decompression,
        disagreement(tcp, quic) == Some(Field::OwnsCookieJar) ==> tcp.owns_cookie_jar
            != quic.owns_cookie_jar && tcp.tls_config == quic.tls_config,
        disagreement(tcp, quic) == Some(Field::OwnsCache) ==> tcp.owns_cache != quic.owns_cache
            && tcp.owns_cookie_jar == quic.owns_cookie_jar,
        disagreement(tcp, quic) == Some(Field::ForbiddenRequestHeaders)
            ==> tcp.forbidden_request_headers != quic.forbidden_request_headers && tcp.owns_cache
            == quic.owns_cache,
{
}

/// Where a field other than the headers is named, what the two stacks are said
/// to say of it differs.
pub proof fn law_a_named_difference_can_be_seen(tcp: CapsView, quic: CapsView)
    ensures
        disagreement(tcp, quic) matches Some(f) && f != Field::ForbiddenRequestHeaders
            ==> field_words(tcp, disagreement(tcp, quic)->0) != field_words(
            quic,
            disagreement(tcp, quic)->0,
        ),
{
    reveal_strlit("true");
    reveal_strlit("false");
    reveal_strlit("None");
    reveal_strlit("Transparent");
    reveal_strlit("Internal");
    reveal_strlit("Supported");
    reveal_strlit("Full");
    assert("true"@.len() == 4 && "false"@.len() == 5);
    assert("None"@.len() == 4 && "Transparent"@.len() == 11 && "Internal"@.len() == 8);
    assert("Supported"@.len() == 9);
    assert("None"@[0] == 'N' && "Full"@[0] == 'F');
}

/// A pair can do exactly what both members can, and early data where either
/// can; and where the members agree, there is such a pair.
pub proof fn law_a_pair_can_do_what_both_can(tcp: CapsView, quic: CapsView, pair: CapsView)
    requires
        true_of_both(tcp, quic, pair),
    ensures
        pair.streaming_request_body <==> tcp.streaming_request_body && quic.streaming_request_body,
        pair.full_duplex <==> tcp.full_duplex && quic.full_duplex,
        pair.request_trailers <==> tcp.request_trailers && quic.request_trailers,
        pair.response_trailers <==> tcp.response_trailers && quic.response_trailers,
        pair.client_certs <==> tcp.client_certs && quic.client_certs,
        pair.proxy <==> tcp.proxy && quic.proxy,
        pair.informational_1xx <==> tcp.informational_1xx && quic.informational_1xx,
        pair.version_select <==> tcp.version_select && quic.version_select,
        pair.version_reported <==> tcp.version_reported && quic.version_reported,
        pair.timeouts.resolve <==> tcp.timeouts.resolve && quic.timeouts.resolve,
        pair.timeouts.connect <==> tcp.timeouts.connect && quic.timeouts.connect,
        pair.timeouts.first_byte <==> tcp.timeouts.first_byte && quic.timeouts.first_byte,
        pair.timeouts.between_bytes <==> tcp.timeouts.between_bytes && quic.timeouts.between_bytes,
        pair.early_data <==> tcp.early_data || quic.early_data,
        disagreement(tcp, quic) is None,
{
}

/// What a view of capabilities says is what they are.
pub proof fn law_capabilities_are_seen_as_they_are(c: Capabilities)
    ensures
        c@.streaming_request_body == c.streaming_request_body,
        c@.full_duplex == c.full_duplex,
        c@.request_trailers == c.request_trailers,
        c@.response_trailers == c.response_trailers,
        c@.redirects == c.redirects,
        c@.cancel_on_drop == c.cancel_on_drop,
        c@.connection_reuse == c.connection_reuse,
        c@.response_decompression == c.response_decompression,
        c@.early_data == c.early_data,
        c@.tls_config == c.tls_config,
        c@.client_certs == c.client_certs,
        c@.proxy == c.proxy,
        c@.owns_cookie_jar == c.owns_cookie_jar,
        c@.owns_cache == c.owns_cache,
        c@.version_select == c.version_select,
        c@.version_reported == c.version_reported,
        c@.timeouts == c.timeouts,
        c@.informational_1xx == c.informational_1xx,
        c@.forbidden_request_headers.len() == c.forbidden_request_headers@.len(),
        forall|i: int|
            0 <= i < c.forbidden_request_headers@.len() ==> #[trigger] c@.forbidden_request_headers[i]
                == c.forbidden_request_headers@[i]@,
{
}

} // verus!
