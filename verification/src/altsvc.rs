//! `Alt-Svc` (RFC 7838): what an origin said about where else it answers, and
//! for how long that may be believed.
//!
//! [`parse`] reads one field value. [`AltSvcCache`] remembers, per origin, the
//! one thing this transport acts on: an HTTP/3 alternative at the origin's own
//! host and port.

use vstd::prelude::*;
use vstd::slice::slice_subrange;
use vstd::utf8::{decode_utf8, valid_utf8};

use crate::table::{kept, Key, Table};
use crate::text::{
    lemma_lower_idempotent, lower, lower_octets, same_ignoring_case, same_octets,
    same_octets_ignoring_case, to_lower,
};
use crate::time::{secs_of, sum_of, Duration};

pub mod kv;

verus! {

/// How long an alternative is fresh when it does not say, in seconds.
pub const DEFAULT_MAX_AGE: u64 = 86_400;

/// One field value, read.
#[derive(Debug, Clone, PartialEq, Eq)]
pub enum FieldValue {
    /// Everything known about the origin is to be forgotten.
    Clear,
    /// The alternatives that could be read, in the order they were written.
    Alternatives(Vec<Alternative>),
}

/// One alternative service.
#[derive(Debug, Clone, PartialEq, Eq)]
pub struct Alternative {
    /// The ALPN identifier, with its percent escapes undone.
    pub protocol_id: Vec<u8>,
    /// The host, or `None` where the alternative is at the origin's own.
    pub host: Option<String>,
    /// The port, never zero.
    pub port: u16,
    /// For how many seconds this may be believed.
    pub max_age: u64,
    /// Whether it outlives a change of network.
    pub persist: bool,
}

/// An [`Alternative`] as a mathematical value.
pub struct AltView {
    pub protocol_id: Seq<u8>,
    pub host: Option<Seq<char>>,
    pub port: u16,
    pub max_age: u64,
    pub persist: bool,
}

/// A [`FieldValue`] as a mathematical value.
pub enum FieldView {
    Clear,
    Alternatives(Seq<AltView>),
}

/// The text of an optional string.
pub open spec fn opt_text(s: Option<String>) -> Option<Seq<char>> {
    match s {
        Some(t) => Some(t@),
        None => None,
    }
}

impl View for Alternative {
    type V = AltView;

    open spec fn view(&self) -> AltView {
        AltView {
            protocol_id: self.protocol_id@,
            host: opt_text(self.host),
            port: self.port,
            max_age: self.max_age,
            persist: self.persist,
        }
    }
}

/// A list of alternatives as mathematical values.
pub open spec fn alt_views(list: Seq<Alternative>) -> Seq<AltView> {
    list.map_values(|a: Alternative| a@)
}

impl View for FieldValue {
    type V = FieldView;

    open spec fn view(&self) -> FieldView {
        match *self {
            FieldValue::Clear => FieldView::Clear,
            FieldValue::Alternatives(list) => FieldView::Alternatives(alt_views(list@)),
        }
    }
}

// ---------------------------------------------------------------------------
// The grammar
// ---------------------------------------------------------------------------

/// The characters of an HTTP token (RFC 9110).
pub open spec fn tchar(b: u8) -> bool {
    ||| 0x30 <= b <= 0x39
    ||| 0x41 <= b <= 0x5a
    ||| 0x61 <= b <= 0x7a
    ||| seq![
        0x21u8, 0x23, 0x24, 0x25, 0x26, 0x27, 0x2a, 0x2b, 0x2d, 0x2e, 0x5e, 0x5f, 0x60, 0x7c, 0x7e,
    ].contains(b)
}

/// Space and tab.
pub open spec fn blank(b: u8) -> bool {
    b == 0x20 || b == 0x09
}

/// What is left once the leading blanks are gone.
pub open spec fn skip_blanks(s: Seq<u8>) -> Seq<u8>
    decreases s.len(),
{
    if s.len() > 0 && blank(s[0]) {
        skip_blanks(s.skip(1))
    } else {
        s
    }
}

/// What is left once the blanks at both ends are gone.
pub open spec fn trimmed(s: Seq<u8>) -> Seq<u8>
    decreases s.len(),
{
    if s.len() > 0 && blank(s[0]) {
        trimmed(s.skip(1))
    } else if s.len() > 0 && blank(s.last()) {
        trimmed(s.drop_last())
    } else {
        s
    }
}

/// How many octets come before the first comma that stands outside a quoted
/// string. `quoted` says whether `s` starts inside one; inside, a backslash
/// takes the octet after it along.
pub open spec fn member_len(s: Seq<u8>, quoted: bool) -> nat
    decreases s.len(),
{
    if s.len() == 0 {
        0
    } else if quoted {
        if s[0] == 0x5c {
            if s.len() == 1 {
                1
            } else {
                2 + member_len(s.skip(2), true)
            }
        } else {
            1 + member_len(s.skip(1), s[0] != 0x22)
        }
    } else if s[0] == 0x2c {
        0
    } else {
        1 + member_len(s.skip(1), s[0] == 0x22)
    }
}

/// A member never reaches past the value it is part of.
pub proof fn lemma_member_len(s: Seq<u8>, quoted: bool)
    ensures
        member_len(s, quoted) <= s.len(),
    decreases s.len(),
{
    if s.len() == 0 {
    } else if quoted {
        if s[0] == 0x5c {
            if s.len() > 1 {
                lemma_member_len(s.skip(2), true);
            }
        } else {
            lemma_member_len(s.skip(1), s[0] != 0x22);
        }
    } else if s[0] != 0x2c {
        lemma_member_len(s.skip(1), s[0] == 0x22);
    }
}

/// The members of a list value: what stands between the commas that are
/// outside quoted strings.
pub open spec fn members_of(s: Seq<u8>) -> Seq<Seq<u8>>
    decreases s.len(),
{
    let n = member_len(s, false);
    if n >= s.len() {
        seq![s]
    } else {
        seq![s.take(n as int)] + members_of(s.skip(n as int + 1))
    }
}

/// A hexadecimal digit, in either case.
pub open spec fn hex_digit(b: u8) -> bool {
    0x30 <= b <= 0x39 || 0x41 <= b <= 0x46 || 0x61 <= b <= 0x66
}

/// What a hexadecimal digit stands for.
pub open spec fn hex_value(b: u8) -> int {
    if b <= 0x39 {
        b - 0x30
    } else if b <= 0x46 {
        b - 0x37
    } else {
        b - 0x57
    }
}

/// The first octet of an ALPN identifier and how many octets it was written
/// with: a percent escape, or a token character other than `%`.
pub open spec fn id_octet(s: Seq<u8>) -> Option<(u8, int)> {
    if s.len() >= 3 && s[0] == 0x25 && hex_digit(s[1]) && hex_digit(s[2]) {
        Some(((16 * hex_value(s[1]) + hex_value(s[2])) as u8, 3))
    } else if s.len() >= 1 && tchar(s[0]) && s[0] != 0x25 {
        Some((s[0], 1))
    } else {
        None
    }
}

/// As many octets of an ALPN identifier as there are, and what follows them.
pub open spec fn id_octets(s: Seq<u8>) -> (Seq<u8>, Seq<u8>)
    decreases s.len(),
{
    match id_octet(s) {
        Some((b, width)) => {
            let (more, rest) = id_octets(s.skip(width));
            (seq![b] + more, rest)
        },
        None => (Seq::empty(), s),
    }
}

/// What a quoted string holds from here to its closing quote, and what
/// follows that quote. A backslash stands for the octet behind it.
pub open spec fn quoted_tail(s: Seq<u8>) -> Option<(Seq<u8>, Seq<u8>)>
    decreases s.len(),
{
    if s.len() == 0 {
        None
    } else if s[0] == 0x22 {
        Some((Seq::empty(), s.skip(1)))
    } else if s[0] == 0x5c && s.len() >= 2 {
        match quoted_tail(s.skip(2)) {
            Some((more, rest)) => Some((seq![s[1]] + more, rest)),
            None => None,
        }
    } else {
        match quoted_tail(s.skip(1)) {
            Some((more, rest)) => Some((seq![s[0]] + more, rest)),
            None => None,
        }
    }
}

/// A quoted string: what it holds, and what follows it.
pub open spec fn quoted(s: Seq<u8>) -> Option<(Seq<u8>, Seq<u8>)> {
    if s.len() >= 1 && s[0] == 0x22 {
        quoted_tail(s.skip(1))
    } else {
        None
    }
}

/// How many token characters `s` starts with.
pub open spec fn token_len(s: Seq<u8>) -> nat
    decreases s.len(),
{
    if s.len() > 0 && tchar(s[0]) {
        1 + token_len(s.skip(1))
    } else {
        0
    }
}

/// A token never reaches past the text it is part of.
pub proof fn lemma_token_len(s: Seq<u8>)
    ensures
        token_len(s) <= s.len(),
    decreases s.len(),
{
    if s.len() > 0 && tchar(s[0]) {
        lemma_token_len(s.skip(1));
    }
}

/// One parameter, `name=value` with a token or a quoted string for a value,
/// and what follows it.
pub open spec fn param(s: Seq<u8>) -> Option<((Seq<u8>, Seq<u8>), Seq<u8>)> {
    let n = token_len(s) as int;
    let name = s.take(n);
    let after = s.skip(n);
    if n == 0 || after.len() == 0 || after[0] != 0x3d {
        None
    } else {
        let v = after.skip(1);
        match quoted(v) {
            Some((value, rest)) => Some(((name, value), rest)),
            None => {
                let m = token_len(v) as int;
                if m == 0 {
                    None
                } else {
                    Some(((name, v.take(m)), v.skip(m)))
                }
            },
        }
    }
}

/// What a semicolon with blanks round it introduces, where there is one.
pub open spec fn after_semicolon(s: Seq<u8>) -> Option<Seq<u8>> {
    let t = skip_blanks(s);
    if t.len() > 0 && t[0] == 0x3b {
        Some(skip_blanks(t.skip(1)))
    } else {
        None
    }
}

/// The parameter behind the next semicolon, and what follows it.
pub open spec fn next_param(s: Seq<u8>) -> Option<((Seq<u8>, Seq<u8>), Seq<u8>)> {
    match after_semicolon(s) {
        Some(t) => param(t),
        None => None,
    }
}

/// As many parameters as there are, and what follows the last of them.
pub open spec fn params(s: Seq<u8>) -> (Seq<(Seq<u8>, Seq<u8>)>, Seq<u8>)
    decreases s.len(),
{
    match next_param(s) {
        Some((p, rest)) => if rest.len() < s.len() {
            let (more, end) = params(rest);
            (seq![p] + more, end)
        } else {
            (Seq::empty(), s)
        },
        None => (Seq::empty(), s),
    }
}

/// A decimal digit.
pub open spec fn digit(b: u8) -> bool {
    0x30 <= b <= 0x39
}

/// The number that a run of decimal digits writes.
pub open spec fn numeral(s: Seq<u8>) -> nat
    decreases s.len(),
{
    if s.len() == 0 {
        0
    } else {
        (10 * numeral(s.drop_last()) + (s.last() - 0x30)) as nat
    }
}

/// The number a non-empty run of digits writes, held at `u64::MAX`; nothing
/// where an octet is not a digit.
pub open spec fn number(s: Seq<u8>) -> Option<u64> {
    if s.len() > 0 && (forall|i: int| 0 <= i < s.len() ==> digit(#[trigger] s[i])) {
        Some(
            if numeral(s) <= u64::MAX {
                numeral(s) as u64
            } else {
                u64::MAX
            },
        )
    } else {
        None
    }
}

/// Where the colon before the port stands: behind the closing bracket of an
/// IPv6 literal, else the last one.
pub open spec fn port_colon(s: Seq<u8>) -> Option<int> {
    if s.len() > 0 && s[0] == 0x5b {
        match s.index_of_first(0x5d) {
            Some(close) => if close + 1 < s.len() && s[close + 1] == 0x3a {
                Some(close + 1)
            } else {
                None
            },
            None => None,
        }
    } else {
        s.index_of_last(0x3a)
    }
}

/// An authority: a host, or none where it is empty, and a port that is a
/// number from 1 to 65535.
pub open spec fn authority(s: Seq<u8>) -> Option<(Option<Seq<char>>, u16)> {
    match port_colon(s) {
        None => None,
        Some(colon) => match number(s.skip(colon + 1)) {
            None => None,
            Some(port) => {
                let host = s.take(colon);
                if port == 0 || port > u16::MAX {
                    None
                } else if host.len() == 0 {
                    Some((None, port as u16))
                } else if valid_utf8(host) {
                    Some((Some(decode_utf8(host)), port as u16))
                } else {
                    None
                }
            },
        },
    }
}

/// `ma`
pub open spec fn name_ma() -> Seq<u8> {
    seq![0x6du8, 0x61]
}

/// `persist`
pub open spec fn name_persist() -> Seq<u8> {
    seq![0x70u8, 0x65, 0x72, 0x73, 0x69, 0x73, 0x74]
}

/// The freshness that the parameters state, the last `ma` winning; nothing
/// where some `ma` is not a number.
pub open spec fn max_age_of(ps: Seq<(Seq<u8>, Seq<u8>)>) -> Option<u64>
    decreases ps.len(),
{
    if ps.len() == 0 {
        Some(DEFAULT_MAX_AGE)
    } else {
        match max_age_of(ps.drop_last()) {
            None => None,
            Some(before) => if lower_octets(ps.last().0) == name_ma() {
                number(ps.last().1)
            } else {
                Some(before)
            },
        }
    }
}

/// Whether the last `persist` is the single digit one.
pub open spec fn persist_of(ps: Seq<(Seq<u8>, Seq<u8>)>) -> bool
    decreases ps.len(),
{
    if ps.len() == 0 {
        false
    } else if lower_octets(ps.last().0) == name_persist() {
        ps.last().1 == seq![0x31u8]
    } else {
        persist_of(ps.drop_last())
    }
}

/// What one member of the list says: `protocol="authority"`, parameters, and
/// nothing behind them but blanks.
pub open spec fn alternative_of(s: Seq<u8>) -> Option<AltView> {
    let (id, after_id) = id_octets(s);
    if id.len() == 0 || after_id.len() == 0 || after_id[0] != 0x3d {
        None
    } else {
        match quoted(after_id.skip(1)) {
            None => None,
            Some((auth, after_auth)) => {
                let (ps, end) = params(after_auth);
                match authority(auth) {
                    None => None,
                    Some((host, port)) => if skip_blanks(end).len() > 0 {
                        None
                    } else {
                        match max_age_of(ps) {
                            None => None,
                            Some(max_age) => Some(
                                AltView {
                                    protocol_id: id,
                                    host,
                                    port,
                                    max_age,
                                    persist: persist_of(ps),
                                },
                            ),
                        }
                    },
                }
            },
        }
    }
}

/// `clear`
pub open spec fn clear_word() -> Seq<u8> {
    seq![0x63u8, 0x6c, 0x65, 0x61, 0x72]
}

/// The alternatives among some members, in their order. A member that is
/// empty or cannot be read costs no other one.
pub open spec fn alternatives_in(ms: Seq<Seq<u8>>) -> Seq<AltView>
    decreases ms.len(),
{
    if ms.len() == 0 {
        Seq::empty()
    } else {
        let before = alternatives_in(ms.drop_last());
        match alternative_of(trimmed(ms.last())) {
            Some(a) => before.push(a),
            None => before,
        }
    }
}

/// What a whole field value says: `clear` where any member is that word, else
/// the alternatives among its members.
pub open spec fn field_of(value: Seq<u8>) -> FieldView {
    let ms = members_of(value);
    if exists|i: int| 0 <= i < ms.len() && trimmed(#[trigger] ms[i]) == clear_word() {
        FieldView::Clear
    } else {
        FieldView::Alternatives(alternatives_in(ms))
    }
}

// ---------------------------------------------------------------------------
// Reading it
// ---------------------------------------------------------------------------

/// `str::from_utf8`: text is returned exactly where the octets are valid
/// UTF-8, and it is the text that they encode.
#[verifier::external_body]
fn text_of(octets: &[u8]) -> (r: Option<String>)
    ensures
        r is Some <==> valid_utf8(octets@),
        r is Some ==> r->0@ == decode_utf8(octets@),
{
    std::str::from_utf8(octets).ok().map(|s| s.to_owned())
}

/// What stands behind the first `n` octets.
fn tail<'a>(s: &'a [u8], n: usize) -> (r: &'a [u8])
    requires
        n <= s@.len(),
    ensures
        r@ == s@.skip(n as int),
{
    let r = slice_subrange(s, n, s.len());
    assert(r@ =~= s@.skip(n as int));
    r
}

/// Whether `b` is a token character.
pub fn is_tchar(b: u8) -> (r: bool)
    ensures
        r == tchar(b),
{
    let ghost marks = seq![
        0x21u8, 0x23, 0x24, 0x25, 0x26, 0x27, 0x2a, 0x2b, 0x2d, 0x2e, 0x5e, 0x5f, 0x60, 0x7c, 0x7e,
    ];
    let r = (b >= 0x30 && b <= 0x39) || (b >= 0x41 && b <= 0x5a) || (b >= 0x61 && b <= 0x7a) || b
        == 0x21 || (b >= 0x23 && b <= 0x27) || b == 0x2a || b == 0x2b || b == 0x2d || b == 0x2e || b
        == 0x5e || b == 0x5f || b == 0x60 || b == 0x7c || b == 0x7e;
    proof {
        assert(marks[0] == 0x21 && marks[1] == 0x23 && marks[2] == 0x24 && marks[3] == 0x25);
        assert(marks[4] == 0x26 && marks[5] == 0x27 && marks[6] == 0x2a && marks[7] == 0x2b);
        assert(marks[8] == 0x2d && marks[9] == 0x2e && marks[10] == 0x5e && marks[11] == 0x5f);
        assert(marks[12] == 0x60 && marks[13] == 0x7c && marks[14] == 0x7e);
    }
    r
}

/// Whether `b` is a space or a tab.
fn is_blank(b: u8) -> (r: bool)
    ensures
        r == blank(b),
{
    b == 0x20 || b == 0x09
}

/// `s` without its leading blanks.
fn skip_ows<'a>(s: &'a [u8]) -> (r: &'a [u8])
    ensures
        r@ == skip_blanks(s@),
        r@.len() <= s@.len(),
{
    let mut rest = s;
    while rest.len() > 0 && is_blank(rest[0])
        invariant
            skip_blanks(rest@) == skip_blanks(s@),
            rest@.len() <= s@.len(),
        decreases rest@.len(),
    {
        rest = tail(rest, 1);
    }
    rest
}

/// `s` without the blanks at both ends.
pub fn trim_ows<'a>(s: &'a [u8]) -> (r: &'a [u8])
    ensures
        r@ == trimmed(s@),
{
    let mut rest = s;
    while rest.len() > 0 && is_blank(rest[0])
        invariant
            trimmed(rest@) == trimmed(s@),
        decreases rest@.len(),
    {
        rest = tail(rest, 1);
    }
    while rest.len() > 0 && is_blank(rest[rest.len() - 1])
        invariant
            trimmed(rest@) == trimmed(s@),
            rest@.len() > 0 ==> !blank(rest@[0]),
        decreases rest@.len(),
    {
        let shorter = slice_subrange(rest, 0, rest.len() - 1);
        assert(shorter@ =~= rest@.drop_last());
        rest = shorter;
    }
    rest
}

/// The members of a list value, split at the commas outside quoted strings.
pub fn members<'a>(value: &'a [u8]) -> (out: Vec<&'a [u8]>)
    ensures
        out@.map_values(|m: &[u8]| m@) == members_of(value@),
{
    let mut out: Vec<&'a [u8]> = Vec::new();
    let mut start: usize = 0;
    let mut i: usize = 0;
    let mut in_quotes: bool = false;
    assert(value@.skip(0) =~= value@);
    assert(out@.map_values(|m: &[u8]| m@) + members_of(value@) =~= members_of(value@));
    while i < value.len()
        invariant
            start <= i <= value@.len(),
            out@.map_values(|m: &[u8]| m@) + members_of(value@.skip(start as int)) == members_of(
                value@,
            ),
            member_len(value@.skip(start as int), false) == (i - start) + member_len(
                value@.skip(i as int),
                in_quotes,
            ),
        decreases value@.len() - i,
    {
        let b: u8 = value[i];
        let ghost here = value@.skip(i as int);
        let ghost from = value@.skip(start as int);
        assert(here.skip(1) =~= value@.skip(i + 1));
        if in_quotes {
            if b == 0x5c {
                if i + 1 < value.len() {
                    assert(here.skip(2) =~= value@.skip(i + 2));
                    i = i + 1;
                } else {
                    assert(value@.skip(i + 1).len() == 0);
                }
            } else if b == 0x22 {
                in_quotes = false;
            }
        } else if b == 0x22 {
            in_quotes = true;
        } else if b == 0x2c {
            let piece = slice_subrange(value, start, i);
            proof {
                let n = member_len(from, false);
                assert(n == i - start);
                assert(piece@ =~= from.take(n as int));
                assert(from.skip(n as int + 1) =~= value@.skip(i + 1));
                assert(members_of(from) == seq![piece@] + members_of(value@.skip(i + 1)));
                assert((out@.push(piece)).map_values(|m: &[u8]| m@) =~= out@.map_values(
                    |m: &[u8]| m@,
                ) + seq![piece@]);
                assert((out@.map_values(|m: &[u8]| m@) + seq![piece@]) + members_of(
                    value@.skip(i + 1),
                ) =~= out@.map_values(|m: &[u8]| m@) + (seq![piece@] + members_of(
                    value@.skip(i + 1),
                )));
            }
            out.push(piece);
            start = i + 1;
        }
        i = i + 1;
    }
    let last = slice_subrange(value, start, value.len());
    proof {
        let from = value@.skip(start as int);
        assert(last@ =~= from);
        assert(members_of(from) == seq![from]);
        assert((out@.push(last)).map_values(|m: &[u8]| m@) =~= out@.map_values(|m: &[u8]| m@)
            + seq![from]);
    }
    out.push(last);
    out
}

/// What a hexadecimal digit stands for, where `b` is one.
fn hex(b: u8) -> (r: Option<u8>)
    ensures
        r is Some <==> hex_digit(b),
        r is Some ==> r->0 == hex_value(b) && r->0 < 16,
{
    if b >= 0x30 && b <= 0x39 {
        Some((b - 0x30) as u8)
    } else if b >= 0x41 && b <= 0x46 {
        Some((b - 0x37) as u8)
    } else if b >= 0x61 && b <= 0x66 {
        Some((b - 0x57) as u8)
    } else {
        None
    }
}

/// The first octet of an ALPN identifier and what follows it.
fn one_id_octet<'a>(s: &'a [u8]) -> (r: Option<(u8, &'a [u8])>)
    ensures
        match id_octet(s@) {
            Some((b, width)) => r is Some && (r->0).0 == b && (r->0).1@ == s@.skip(width) && (r->0).1@.len()
                < s@.len(),
            None => r is None,
        },
{
    if s.len() >= 3 && s[0] == 0x25 {
        if let (Some(hi), Some(lo)) = (hex(s[1]), hex(s[2])) {
            return Some((16 * hi + lo, tail(s, 3)));
        }
    }
    if s.len() >= 1 && is_tchar(s[0]) && s[0] != 0x25 {
        return Some((s[0], tail(s, 1)));
    }
    None
}

/// As many octets of an ALPN identifier as there are, and what follows them.
fn protocol_id<'a>(s: &'a [u8]) -> (r: (Vec<u8>, &'a [u8]))
    ensures
        (r.0@, r.1@) == id_octets(s@),
        r.1@.len() <= s@.len(),
{
    let mut out: Vec<u8> = Vec::new();
    let mut rest = s;
    assert(out@ + id_octets(s@).0 =~= id_octets(s@).0);
    loop
        invariant
            out@ + id_octets(rest@).0 == id_octets(s@).0,
            id_octets(rest@).1 == id_octets(s@).1,
            rest@.len() <= s@.len(),
        ensures
            out@ == id_octets(s@).0,
            rest@ == id_octets(s@).1,
            rest@.len() <= s@.len(),
        decreases rest@.len(),
    {
        match one_id_octet(rest) {
            Some((b, next)) => {
                proof {
                    let more = id_octets(next@).0;
                    assert(id_octets(rest@).0 == seq![b] + more);
                    assert(out@ + (seq![b] + more) =~= out@.push(b) + more);
                }
                out.push(b);
                rest = next;
            },
            None => {
                assert(out@ + Seq::<u8>::empty() =~= out@);
                break ;
            },
        }
    }
    (out, rest)
}

/// A quoted string and what follows it.
fn quoted_string<'a>(s: &'a [u8]) -> (r: Option<(Vec<u8>, &'a [u8])>)
    ensures
        match quoted(s@) {
            Some((held, rest)) => r is Some && (r->0).0@ == held && (r->0).1@ == rest && rest.len()
                < s@.len(),
            None => r is None,
        },
{
    if s.len() == 0 || s[0] != 0x22 {
        return None;
    }
    let mut out: Vec<u8> = Vec::new();
    let mut rest = tail(s, 1);
    let ghost whole = quoted_tail(rest@);
    proof {
        if let Some((held, end)) = whole {
            assert(out@ + held =~= held);
        }
    }
    while rest.len() > 0
        invariant
            quoted(s@) == whole,
            rest@.len() < s@.len(),
            match quoted_tail(rest@) {
                Some((held, end)) => whole is Some && (whole->0).0 == out@ + held && (whole->0).1
                    == end,
                None => whole is None,
            },
        decreases rest@.len(),
    {
        let b: u8 = rest[0];
        if b == 0x22 {
            assert(out@ + Seq::<u8>::empty() =~= out@);
            return Some((out, tail(rest, 1)));
        }
        let (held, next) = if b == 0x5c && rest.len() >= 2 {
            (rest[1], tail(rest, 2))
        } else {
            (b, tail(rest, 1))
        };
        proof {
            if let Some((more, end)) = quoted_tail(next@) {
                assert(out@ + (seq![held] + more) =~= out@.push(held) + more);
            }
        }
        out.push(held);
        rest = next;
    }
    None
}

/// How many token characters `s` starts with.
fn token(s: &[u8]) -> (n: usize)
    ensures
        n == token_len(s@),
        n <= s@.len(),
{
    let mut n: usize = 0;
    assert(s@.skip(0) =~= s@);
    while n < s.len() && is_tchar(s[n])
        invariant
            n <= s@.len(),
            token_len(s@) == n + token_len(s@.skip(n as int)),
        decreases s@.len() - n,
    {
        assert(s@.skip(n as int).skip(1) =~= s@.skip(n + 1));
        n = n + 1;
    }
    n
}

/// A copy of the first `n` octets of `s`.
fn first_octets(s: &[u8], n: usize) -> (r: Vec<u8>)
    requires
        n <= s@.len(),
    ensures
        r@ == s@.take(n as int),
{
    let mut r: Vec<u8> = Vec::new();
    let mut i: usize = 0;
    while i < n
        invariant
            i <= n <= s@.len(),
            r@ =~= s@.take(i as int),
        decreases n - i,
    {
        r.push(s[i]);
        i = i + 1;
    }
    r
}

/// One parameter and what follows it.
fn parameter<'a>(s: &'a [u8]) -> (r: Option<(Vec<u8>, Vec<u8>, &'a [u8])>)
    ensures
        match param(s@) {
            Some(((name, value), rest)) => r is Some && (r->0).0@ == name && (r->0).1@ == value
                && (r->0).2@ == rest && rest.len() < s@.len(),
            None => r is None,
        },
{
    let n: usize = token(s);
    if n == 0 {
        return None;
    }
    let after = tail(s, n);
    if after.len() == 0 || after[0] != 0x3d {
        return None;
    }
    let v = tail(after, 1);
    match quoted_string(v) {
        Some((value, rest)) => Some((first_octets(s, n), value, rest)),
        None => {
            let m: usize = token(v);
            if m == 0 {
                None
            } else {
                Some((first_octets(s, n), first_octets(v, m), tail(v, m)))
            }
        },
    }
}

/// The parameter behind the next semicolon, and what follows it.
fn semicolon_parameter<'a>(s: &'a [u8]) -> (r: Option<(Vec<u8>, Vec<u8>, &'a [u8])>)
    ensures
        match next_param(s@) {
            Some(((name, value), rest)) => r is Some && (r->0).0@ == name && (r->0).1@ == value
                && (r->0).2@ == rest && rest.len() < s@.len(),
            None => r is None,
        },
{
    let t = skip_ows(s);
    if t.len() > 0 && t[0] == 0x3b {
        parameter(skip_ows(tail(t, 1)))
    } else {
        None
    }
}

/// The number that a run of digits writes.
fn digits(s: &[u8]) -> (r: Option<u64>)
    ensures
        r == number(s@),
{
    if s.len() == 0 {
        return None;
    }
    let mut n: u64 = 0;
    let mut i: usize = 0;
    while i < s.len()
        invariant
            i <= s@.len(),
            forall|j: int| 0 <= j < i ==> digit(#[trigger] s@[j]),
            n == if numeral(s@.take(i as int)) <= u64::MAX {
                numeral(s@.take(i as int))
            } else {
                u64::MAX as nat
            },
        decreases s@.len() - i,
    {
        let b: u8 = s[i];
        if b < 0x30 || b > 0x39 {
            assert(!digit(s@[i as int]));
            return None;
        }
        let d: u64 = (b - 0x30) as u64;
        proof {
            let longer = s@.take(i + 1);
            assert(longer.drop_last() =~= s@.take(i as int));
            assert(longer.last() == b);
        }
        n = if n > (u64::MAX - d) / 10 {
            u64::MAX
        } else {
            10 * n + d
        };
        i = i + 1;
    }
    assert(s@.take(s@.len() as int) =~= s@);
    Some(n)
}

/// Where the first `wanted` stands.
fn position(s: &[u8], wanted: u8) -> (r: Option<usize>)
    ensures
        match s@.index_of_first(wanted) {
            Some(i) => r is Some && r->0 == i && i < s@.len(),
            None => r is None,
        },
{
    broadcast use vstd::seq_lib::group_seq_properties;

    let mut i: usize = 0;
    while i < s.len()
        invariant
            i <= s@.len(),
            forall|j: int| 0 <= j < i ==> s@[j] != wanted,
        decreases s@.len() - i,
    {
        if s[i] == wanted {
            proof {
                s@.index_of_first_ensures(wanted);
            }
            return Some(i);
        }
        i = i + 1;
    }
    proof {
        s@.index_of_first_ensures(wanted);
    }
    None
}

/// Where the last `wanted` stands.
fn rposition(s: &[u8], wanted: u8) -> (r: Option<usize>)
    ensures
        match s@.index_of_last(wanted) {
            Some(i) => r is Some && r->0 == i && 0 <= i < s@.len(),
            None => r is None,
        },
{
    let mut i: usize = s.len();
    while i > 0
        invariant
            i <= s@.len(),
            forall|j: int| i <= j < s@.len() ==> s@[j] != wanted,
        decreases i,
    {
        i = i - 1;
        if s[i] == wanted {
            proof {
                s@.index_of_last_ensures(wanted);
            }
            return Some(i);
        }
    }
    proof {
        s@.index_of_last_ensures(wanted);
    }
    None
}

/// The host and port of an authority.
pub fn alt_authority(octets: &[u8]) -> (r: Option<(Option<String>, u16)>)
    ensures
        match authority(octets@) {
            Some((host, port)) => r is Some && opt_text((r->0).0) == host && (r->0).1 == port,
            None => r is None,
        },
{
    let colon: usize = if octets.len() > 0 && octets[0] == 0x5b {
        match position(octets, 0x5d) {
            Some(close) => if close + 1 < octets.len() && octets[close + 1] == 0x3a {
                close + 1
            } else {
                return None;
            },
            None => return None,
        }
    } else {
        match rposition(octets, 0x3a) {
            Some(i) => i,
            None => return None,
        }
    };
    let port: u64 = match digits(tail(octets, colon + 1)) {
        Some(p) => p,
        None => return None,
    };
    if port == 0 || port > u16::MAX as u64 {
        return None;
    }
    let host = slice_subrange(octets, 0, colon);
    assert(host@ =~= octets@.take(colon as int));
    if host.len() == 0 {
        Some((None, port as u16))
    } else {
        match text_of(host) {
            Some(h) => Some((Some(h), port as u16)),
            None => None,
        }
    }
}

/// What the parameters state: the freshness, or nothing where one could not be
/// read, and whether to persist; and what follows them.
fn parameters<'a>(s: &'a [u8]) -> (r: (Option<u64>, bool, &'a [u8]))
    ensures
        r.0 == max_age_of(params(s@).0),
        r.1 == persist_of(params(s@).0),
        r.2@ == params(s@).1,
{
    let mut max_age: Option<u64> = Some(DEFAULT_MAX_AGE);
    let mut persist: bool = false;
    let mut rest = s;
    let ghost mut seen: Seq<(Seq<u8>, Seq<u8>)> = Seq::empty();
    assert(seen + params(s@).0 =~= params(s@).0);
    loop
        invariant
            seen + params(rest@).0 == params(s@).0,
            params(rest@).1 == params(s@).1,
            max_age == max_age_of(seen),
            persist == persist_of(seen),
        ensures
            seen == params(s@).0,
            rest@ == params(s@).1,
            max_age == max_age_of(seen),
            persist == persist_of(seen),
        decreases rest@.len(),
    {
        match semicolon_parameter(rest) {
            Some((name, value, next)) => {
                let is_ma = same_octets_ignoring_case(name.as_slice(), &[0x6d, 0x61]);
                let is_persist = same_octets_ignoring_case(
                    name.as_slice(),
                    &[0x70, 0x65, 0x72, 0x73, 0x69, 0x73, 0x74],
                );
                proof {
                    let p = (name@, value@);
                    assert(next_param(rest@) == Some((p, next@)));
                    let more = params(next@).0;
                    assert(params(rest@).0 == seq![p] + more);
                    assert(seen + (seq![p] + more) =~= seen.push(p) + more);
                    assert(seen.push(p).drop_last() =~= seen);
                    assert(seq![0x6du8, 0x61] =~= [0x6du8, 0x61]@);
                    assert(seq![0x70u8, 0x65, 0x72, 0x73, 0x69, 0x73, 0x74] =~= [
                        0x70u8,
                        0x65,
                        0x72,
                        0x73,
                        0x69,
                        0x73,
                        0x74,
                    ]@);
                    assert(lower_octets(name_ma()) =~= name_ma());
                    assert(lower_octets(name_persist()) =~= name_persist());
                    assert(name_ma() != name_persist()) by {
                        assert(name_ma().len() != name_persist().len());
                    }
                    seen = seen.push(p);
                }
                if is_ma {
                    if max_age.is_some() {
                        max_age = digits(value.as_slice());
                    }
                } else if is_persist {
                    persist = value.len() == 1 && value[0] == 0x31;
                    proof {
                        if persist {
                            assert(value@ =~= seq![0x31u8]);
                        }
                    }
                }
                rest = next;
            },
            None => {
                assert(seen + Seq::<(Seq<u8>, Seq<u8>)>::empty() =~= seen);
                break ;
            },
        }
    }
    (max_age, persist, rest)
}

/// One alternative, where `member` is one.
pub fn alternative(member: &[u8]) -> (r: Option<Alternative>)
    ensures
        match alternative_of(member@) {
            Some(a) => r is Some && r->0@ == a,
            None => r is None,
        },
{
    let (protocol_id, after_id) = protocol_id(member);
    if protocol_id.len() == 0 || after_id.len() == 0 || after_id[0] != 0x3d {
        return None;
    }
    let (auth, after_auth) = match quoted_string(tail(after_id, 1)) {
        Some(q) => q,
        None => return None,
    };
    let (host, port) = match alt_authority(auth.as_slice()) {
        Some(hp) => hp,
        None => return None,
    };
    let (max_age, persist, end) = parameters(after_auth);
    if skip_ows(end).len() > 0 {
        return None;
    }
    match max_age {
        Some(max_age) => Some(Alternative { protocol_id, host, port, max_age, persist }),
        None => None,
    }
}

/// Read a field value.
pub fn parse(value: &[u8]) -> (r: FieldValue)
    ensures
        r@ == field_of(value@),
{
    let ms = members(value);
    let ghost all = members_of(value@);
    let mut out: Vec<Alternative> = Vec::new();
    let mut i: usize = 0;
    assert(alt_views(out@) =~= Seq::empty());
    while i < ms.len()
        invariant
            i <= ms@.len(),
            all == members_of(value@),
            ms@.map_values(|m: &[u8]| m@) == all,
            forall|j: int| 0 <= j < i ==> trimmed(#[trigger] all[j]) != clear_word(),
            alt_views(out@) == alternatives_in(all.take(i as int)),
        decreases ms@.len() - i,
    {
        let member = trim_ows(ms[i]);
        proof {
            assert(all[i as int] == ms@[i as int]@);
            assert(all.take(i + 1).drop_last() =~= all.take(i as int));
            assert([0x63u8, 0x6c, 0x65, 0x61, 0x72]@ =~= clear_word());
        }
        if same_octets(member, &[0x63, 0x6c, 0x65, 0x61, 0x72]) {
            return FieldValue::Clear;
        }
        if let Some(a) = alternative(member) {
            proof {
                assert(alt_views(out@.push(a)) =~= alt_views(out@).push(a@));
            }
            out.push(a);
        }
        i = i + 1;
    }
    assert(all.take(all.len() as int) =~= all);
    FieldValue::Alternatives(out)
}

// ---------------------------------------------------------------------------
// Remembering it
// ---------------------------------------------------------------------------

/// `h3`, the ALPN identifier of HTTP/3.
pub open spec fn alpn_h3() -> Seq<u8> {
    seq![0x68u8, 0x33]
}

/// Whose advertisement is remembered: an `https` host and port.
#[derive(Debug, Clone, PartialEq, Eq, Hash)]
pub struct Origin {
    host: String,
    port: u16,
}

/// An [`Origin`] as a mathematical value.
pub struct OriginView {
    pub host: Seq<char>,
    pub port: u16,
}

impl View for Origin {
    type V = OriginView;

    closed spec fn view(&self) -> OriginView {
        OriginView { host: self.host@, port: self.port }
    }
}

/// The origin that a host, in any case, and a port name.
pub open spec fn origin_of(host: Seq<char>, port: u16) -> OriginView {
    OriginView { host: lower(host), port }
}

impl Origin {
    /// The origin at this host and port. The host's case does not matter.
    pub fn new(host: &str, port: u16) -> (r: Self)
        ensures
            r@ == origin_of(host@, port),
    {
        Origin { host: to_lower(host), port }
    }

    /// Another one of the same.
    pub fn copy(&self) -> (r: Self)
        ensures
            r@ == self@,
    {
        Origin { host: self.host.clone(), port: self.port }
    }

    /// The host, in lower case.
    pub fn host(&self) -> (r: &str)
        ensures
            r@ == self@.host,
    {
        self.host.as_str()
    }

    /// The port.
    pub fn port(&self) -> (r: u16)
        ensures
            r == self@.port,
    {
        self.port
    }
}

impl Key for Origin {
    fn same(&self, other: &Self) -> (r: bool) {
        self.port == other.port && self.host == other.host
    }
}

/// Whether an alternative is at the origin's own authority.
pub open spec fn at_origin(a: AltView, origin: OriginView) -> bool {
    &&& a.port == origin.port
    &&& match a.host {
        None => true,
        Some(h) => lower(h) == lower(origin.host),
    }
}

impl Alternative {
    /// Whether this alternative is at the origin's own host and port.
    pub fn is_at(&self, origin: &Origin) -> (r: bool)
        ensures
            r == at_origin(self@, origin@),
    {
        self.port == origin.port && match &self.host {
            None => true,
            Some(h) => same_ignoring_case(h.as_str(), origin.host.as_str()),
        }
    }
}

/// What is remembered of one advertisement.
#[derive(Debug, Clone, Copy, PartialEq, Eq, Structural)]
pub struct Held {
    /// From when on it is no longer believed.
    pub expires_at: Duration,
    /// Whether it outlives a change of network.
    pub persist: bool,
}

/// The first HTTP/3 alternative at the origin's own authority.
pub open spec fn first_h3(list: Seq<AltView>, origin: OriginView) -> Option<AltView>
    decreases list.len(),
{
    if list.len() == 0 {
        None
    } else if list[0].protocol_id == alpn_h3() && at_origin(list[0], origin) {
        Some(list[0])
    } else {
        first_h3(list.skip(1), origin)
    }
}

/// What a field value says that is worth remembering for the origin.
pub open spec fn worth_holding(value: FieldView, origin: OriginView, now: Duration) -> Option<Held> {
    match value {
        FieldView::Clear => None,
        FieldView::Alternatives(list) => match first_h3(list, origin) {
            Some(a) => Some(
                Held { expires_at: sum_of(now, secs_of(a.max_age)), persist: a.persist },
            ),
            None => None,
        },
    }
}

/// What is remembered once a field value has been taken in: it replaces
/// whatever was remembered of that origin.
pub open spec fn noted(
    cache: Map<OriginView, Held>,
    origin: OriginView,
    value: FieldView,
    now: Duration,
) -> Map<OriginView, Held> {
    match worth_holding(value, origin, now) {
        Some(held) => cache.insert(origin, held),
        None => cache.remove(origin),
    }
}

/// Whether HTTP/3 at the origin is believed at `now`.
pub open spec fn believed(
    cache: Map<OriginView, Held>,
    origin: OriginView,
    now: Duration,
) -> bool {
    cache.contains_key(origin) && now.nanos < cache[origin].expires_at.nanos
}

/// What is remembered once `origin` has been asked for at `now`: what is no
/// longer believed of it is forgotten.
pub open spec fn asked(
    cache: Map<OriginView, Held>,
    origin: OriginView,
    now: Duration,
) -> Map<OriginView, Held> {
    if believed(cache, origin, now) {
        cache
    } else {
        cache.remove(origin)
    }
}

/// What a change of network leaves.
pub open spec fn after_network_change(cache: Map<OriginView, Held>) -> Map<OriginView, Held> {
    kept(cache, |h: Held| h.persist)
}

/// Which origins advertised HTTP/3 at their own authority, and until when.
pub struct AltSvcCache {
    entries: Table<Origin, Held>,
}

impl View for AltSvcCache {
    type V = Map<OriginView, Held>;

    closed spec fn view(&self) -> Map<OriginView, Held> {
        self.entries@
    }
}

impl Default for AltSvcCache {
    fn default() -> (r: Self)
        ensures
            r.wf(),
            r@ == Map::<OriginView, Held>::empty(),
    {
        AltSvcCache { entries: Table::new() }
    }
}

impl AltSvcCache {
    /// No origin is remembered twice.
    pub closed spec fn wf(self) -> bool {
        self.entries.wf()
    }

    /// Whether HTTP/3 at `origin` may still be believed. What may not is
    /// forgotten on the way.
    pub fn advertises_h3(&mut self, origin: &Origin, now: Duration) -> (r: bool)
        requires
            old(self).wf(),
        ensures
            final(self).wf(),
            r == believed(old(self)@, origin@, now),
            final(self)@ == asked(old(self)@, origin@, now),
    {
        let fresh = match self.entries.get(origin) {
            Some(held) => now.nanos < held.expires_at.nanos,
            None => false,
        };
        if !fresh {
            let _ = self.entries.remove(origin);
        }
        fresh
    }

    /// Take in what one response said about `origin`.
    pub fn note(&mut self, origin: &Origin, value: &FieldValue, now: Duration)
        requires
            old(self).wf(),
        ensures
            final(self).wf(),
            final(self)@ == noted(old(self)@, origin@, value@, now),
    {
        match value {
            FieldValue::Clear => {
                let _ = self.entries.remove(origin);
            },
            FieldValue::Alternatives(list) => {
                let mut i: usize = 0;
                let ghost all = alt_views(list@);
                assert(all.skip(0) =~= all);
                while i < list.len()
                    invariant
                        i <= list@.len(),
                        all == alt_views(list@),
                        value@ == FieldView::Alternatives(all),
                        first_h3(all.skip(i as int), origin@) == first_h3(all, origin@),
                        self.wf(),
                        self@ == old(self)@,
                    decreases list@.len() - i,
                {
                    let a = &list[i];
                    let ghost here = all.skip(i as int);
                    assert(here[0] == a@);
                    assert(here.skip(1) =~= all.skip(i + 1));
                    assert([0x68u8, 0x33]@ =~= alpn_h3());
                    if same_octets(a.protocol_id.as_slice(), &[0x68, 0x33]) && a.is_at(origin) {
                        let held = Held {
                            expires_at: now.saturating_add(Duration::from_secs(a.max_age)),
                            persist: a.persist,
                        };
                        self.entries.insert(origin.copy(), held);
                        return ;
                    }
                    i = i + 1;
                }
                let _ = self.entries.remove(origin);
            },
        }
    }

    /// The network changed: forget every advertisement that did not ask to
    /// outlive that.
    pub fn network_changed(&mut self)
        requires
            old(self).wf(),
        ensures
            final(self).wf(),
            final(self)@ == after_network_change(old(self)@),
    {
        let keep = |h: &Held| -> (b: bool)
            ensures
                b == h.persist,
            { h.persist };
        self.entries.retain(keep, Ghost(|h: Held| h.persist));
    }
}

// ---------------------------------------------------------------------------
// What holds of it all
// ---------------------------------------------------------------------------

/// A field value that advertises HTTP/3 at the origin is believed for as many
/// seconds as it says, counted from when it was taken in, and not at the
/// moment they are over or later.
pub proof fn law_believed_for_max_age(
    cache: Map<OriginView, Held>,
    origin: OriginView,
    value: FieldView,
    now: Duration,
    later: Duration,
)
    requires
        value is Alternatives,
        first_h3(value->Alternatives_0, origin) is Some,
    ensures
        believed(noted(cache, origin, value, now), origin, later) <==> later.nanos < sum_of(
            now,
            secs_of((first_h3(value->Alternatives_0, origin)->0).max_age),
        ).nanos,
{
}

/// A freshness of zero is a removal: what advertises it is not believed at
/// the moment it is taken in, nor later.
pub proof fn law_zero_max_age_is_removal(
    cache: Map<OriginView, Held>,
    origin: OriginView,
    value: FieldView,
    now: Duration,
    later: Duration,
)
    requires
        value is Alternatives,
        first_h3(value->Alternatives_0, origin) matches Some(a) && a.max_age == 0,
        now.nanos <= later.nanos,
    ensures
        !believed(noted(cache, origin, value, now), origin, later),
{
}

/// A field value without HTTP/3 at the origin, whatever else it holds, leaves
/// the origin without an advertisement; and so does `clear`.
pub proof fn law_anything_else_forgets(
    cache: Map<OriginView, Held>,
    origin: OriginView,
    value: FieldView,
    now: Duration,
    later: Duration,
)
    requires
        value matches FieldView::Alternatives(list) ==> first_h3(list, origin) is None,
    ensures
        !believed(noted(cache, origin, value, now), origin, later),
{
}

/// Taking in a value about one origin changes nothing about another.
pub proof fn law_origins_are_separate(
    cache: Map<OriginView, Held>,
    origin: OriginView,
    other: OriginView,
    value: FieldView,
    now: Duration,
    later: Duration,
)
    requires
        origin != other,
    ensures
        believed(noted(cache, origin, value, now), other, later) == believed(cache, other, later),
        believed(asked(cache, origin, now), other, later) == believed(cache, other, later),
{
}

/// Asking changes no later answer: what asking forgets was over already.
pub proof fn law_asking_changes_no_answer(
    cache: Map<OriginView, Held>,
    origin: OriginView,
    now: Duration,
    other: OriginView,
    later: Duration,
)
    requires
        now.nanos <= later.nanos,
    ensures
        believed(asked(cache, origin, now), other, later) == believed(cache, other, later),
{
}

/// A change of network leaves exactly the advertisements that asked to outlive
/// one, and a second change takes nothing more.
pub proof fn law_network_change_keeps_persistent(
    cache: Map<OriginView, Held>,
    origin: OriginView,
    now: Duration,
)
    ensures
        believed(after_network_change(cache), origin, now) <==> believed(cache, origin, now)
            && cache[origin].persist,
        after_network_change(after_network_change(cache)) == after_network_change(cache),
{
    assert(after_network_change(after_network_change(cache)) =~= after_network_change(cache));
}

/// Two spellings of a host that differ in ASCII case alone name one origin,
/// and an alternative at either is at both.
pub proof fn law_case_does_not_matter(a: Seq<char>, b: Seq<char>, port: u16, alt: AltView)
    requires
        lower(a) == lower(b),
    ensures
        origin_of(a, port) == origin_of(b, port),
        alt.host == Some(a) && alt.port == port ==> at_origin(alt, origin_of(b, port)),
{
    lemma_lower_idempotent(b);
}

/// A member that cannot be read costs no other member.
pub proof fn law_unreadable_member_is_dropped(
    before: Seq<Seq<u8>>,
    bad: Seq<u8>,
    after: Seq<Seq<u8>>,
)
    requires
        alternative_of(trimmed(bad)) is None,
    ensures
        alternatives_in(before + seq![bad] + after) == alternatives_in(before + after),
    decreases after.len(),
{
    if after.len() == 0 {
        assert((before + seq![bad] + after).drop_last() =~= before);
        assert(before + after =~= before);
    } else {
        law_unreadable_member_is_dropped(before, bad, after.drop_last());
        assert((before + seq![bad] + after).drop_last() =~= before + seq![bad]
            + after.drop_last());
        assert((before + after).drop_last() =~= before + after.drop_last());
    }
}

/// A parameter whose name is not known is read as if it were not there.
pub proof fn law_unknown_parameter_is_ignored(
    before: Seq<(Seq<u8>, Seq<u8>)>,
    unknown: (Seq<u8>, Seq<u8>),
    after: Seq<(Seq<u8>, Seq<u8>)>,
)
    requires
        lower_octets(unknown.0) != name_ma(),
        lower_octets(unknown.0) != name_persist(),
    ensures
        max_age_of(before + seq![unknown] + after) == max_age_of(before + after),
        persist_of(before + seq![unknown] + after) == persist_of(before + after),
    decreases after.len(),
{
    if after.len() == 0 {
        assert((before + seq![unknown] + after).drop_last() =~= before);
        assert(before + after =~= before);
    } else {
        law_unknown_parameter_is_ignored(before, unknown, after.drop_last());
        assert((before + seq![unknown] + after).drop_last() =~= before + seq![unknown]
            + after.drop_last());
        assert((before + after).drop_last() =~= before + after.drop_last());
    }
}

/// What is read names a protocol, a port that can be reached, and no empty
/// host: an alternative without a host is at the origin's own.
pub proof fn law_alternative_is_reachable(member: Seq<u8>)
    requires
        alternative_of(member) is Some,
    ensures
        (alternative_of(member)->0).port != 0,
        (alternative_of(member)->0).protocol_id.len() > 0,
        (alternative_of(member)->0).host matches Some(host) ==> host.len() > 0,
{
}

/// Whether text that starts outside a quoted string, or inside one, ends
/// inside one.
pub open spec fn ends_quoted(s: Seq<u8>, quoted: bool) -> bool
    decreases s.len(),
{
    if s.len() == 0 {
        quoted
    } else if quoted && s[0] == 0x5c {
        if s.len() == 1 {
            true
        } else {
            ends_quoted(s.skip(2), true)
        }
    } else if quoted {
        ends_quoted(s.skip(1), s[0] != 0x22)
    } else {
        ends_quoted(s.skip(1), s[0] == 0x22)
    }
}

/// The first member of a value is not changed by what follows a comma behind
/// it.
proof fn lemma_member_before_comma(a: Seq<u8>, b: Seq<u8>, quoted: bool)
    requires
        !ends_quoted(a, quoted),
    ensures
        member_len(a.push(0x2c) + b, quoted) == member_len(a, quoted),
        member_len(a, quoted) < a.len() ==> a[member_len(a, quoted) as int] == 0x2c
            && !ends_quoted(a.skip(member_len(a, quoted) as int + 1), false),
    decreases a.len(),
{
    let t = a.push(0x2c) + b;
    if a.len() == 0 {
        assert(t[0] == 0x2c);
    } else {
        assert(t[0] == a[0]);
        if quoted && a[0] == 0x5c {
            assert(a.len() >= 2);
            assert(t.skip(2) =~= a.skip(2).push(0x2c) + b);
            lemma_member_before_comma(a.skip(2), b, true);
            let n = member_len(a.skip(2), true) as int;
            if n < a.skip(2).len() {
                assert(a.skip(2).skip(n + 1) =~= a.skip(n + 3));
            }
        } else if quoted {
            assert(t.skip(1) =~= a.skip(1).push(0x2c) + b);
            lemma_member_before_comma(a.skip(1), b, a[0] != 0x22);
            let n = member_len(a.skip(1), a[0] != 0x22) as int;
            if n < a.skip(1).len() {
                assert(a.skip(1).skip(n + 1) =~= a.skip(n + 2));
            }
        } else if a[0] != 0x2c {
            assert(t.skip(1) =~= a.skip(1).push(0x2c) + b);
            lemma_member_before_comma(a.skip(1), b, a[0] == 0x22);
            let n = member_len(a.skip(1), a[0] == 0x22) as int;
            if n < a.skip(1).len() {
                assert(a.skip(1).skip(n + 1) =~= a.skip(n + 2));
            }
        }
    }
}

/// Two field values joined by a comma have the members of both, in order,
/// unless the first one ends inside a quoted string.
pub proof fn law_joined_values_have_the_members_of_both(a: Seq<u8>, b: Seq<u8>)
    requires
        !ends_quoted(a, false),
    ensures
        members_of(a.push(0x2c) + b) == members_of(a) + members_of(b),
    decreases a.len(),
{
    let t = a.push(0x2c) + b;
    let n = member_len(a, false) as int;
    lemma_member_len(a, false);
    lemma_member_before_comma(a, b, false);
    assert(t.take(n) =~= a.take(n));
    if n < a.len() {
        let rest = a.skip(n + 1);
        law_joined_values_have_the_members_of_both(rest, b);
        assert(t.skip(n + 1) =~= rest.push(0x2c) + b);
        assert(members_of(t) =~= members_of(a) + members_of(b));
    } else {
        assert(a.take(n) =~= a);
        assert(t.skip(n + 1) =~= b);
        assert(members_of(t) =~= members_of(a) + members_of(b));
    }
}

/// The alternatives of two lists of members, one behind the other, are those of
/// the first followed by those of the second.
pub proof fn law_alternatives_add_up(a: Seq<Seq<u8>>, b: Seq<Seq<u8>>)
    ensures
        alternatives_in(a + b) == alternatives_in(a) + alternatives_in(b),
    decreases b.len(),
{
    if b.len() == 0 {
        assert(a + b =~= a);
        assert(alternatives_in(a) + alternatives_in(b) =~= alternatives_in(a));
    } else {
        law_alternatives_add_up(a, b.drop_last());
        assert((a + b).drop_last() =~= a + b.drop_last());
        assert((a + b).last() == b.last());
        assert(alternatives_in(a + b) =~= alternatives_in(a) + alternatives_in(b));
    }
}

// ---------------------------------------------------------------------------
// What is remembered, member by member
// ---------------------------------------------------------------------------

/// Where some member of a list has the identifier `h3` and is at the origin,
/// one is remembered, wherever it stands: it is a member with both, and none
/// before it has both. Where no member has both, none is.
pub proof fn law_the_first_h3_here_is_remembered(list: Seq<AltView>, origin: OriginView)
    ensures
        first_h3(list, origin) matches Some(a) ==> exists|i: int|
            0 <= i < list.len() && #[trigger] list[i] == a && list[i].protocol_id == seq![
                0x68u8,
                0x33,
            ] && list[i].port == origin.port && (list[i].host matches Some(h) ==> lower(h) == lower(
                origin.host,
            )) && forall|j: int|
                0 <= j < i ==> !((#[trigger] list[j]).protocol_id == seq![0x68u8, 0x33]
                    && list[j].port == origin.port && (list[j].host matches Some(h) ==> lower(h)
                    == lower(origin.host))),
        forall|k: int|
            0 <= k < list.len() && (#[trigger] list[k]).protocol_id == seq![0x68u8, 0x33]
                && list[k].port == origin.port && (list[k].host matches Some(h) ==> lower(h)
                == lower(origin.host)) ==> first_h3(list, origin) is Some,
    decreases list.len(),
{
    if list.len() > 0 {
        let rest = list.skip(1);
        law_the_first_h3_here_is_remembered(rest, origin);
        assert(forall|k: int| 0 <= k < rest.len() ==> rest[k] == list[k + 1]);
        assert(forall|k: int| 1 <= k < list.len() ==> list[k] == rest[k - 1]);
        assert(alpn_h3() == seq![0x68u8, 0x33]);
        if list[0].protocol_id == seq![0x68u8, 0x33] && at_origin(list[0], origin) {
            assert(list[0] == first_h3(list, origin)->0);
        } else if first_h3(rest, origin) is Some {
            let a = first_h3(rest, origin)->0;
            let i = choose|i: int|
                0 <= i < rest.len() && #[trigger] rest[i] == a && rest[i].protocol_id == seq![
                    0x68u8,
                    0x33,
                ] && rest[i].port == origin.port && (rest[i].host matches Some(h) ==> lower(h)
                    == lower(origin.host)) && forall|j: int|
                    0 <= j < i ==> !((#[trigger] rest[j]).protocol_id == seq![0x68u8, 0x33]
                        && rest[j].port == origin.port && (rest[j].host matches Some(h) ==> lower(h)
                        == lower(origin.host)));
            assert(list[i + 1] == a);
            assert forall|j: int| 0 <= j < i + 1 implies !((#[trigger] list[j]).protocol_id
                == seq![0x68u8, 0x33] && list[j].port == origin.port && (list[j].host matches Some(h)
                ==> lower(h) == lower(origin.host))) by {
                if j > 0 {
                    assert(list[j] == rest[j - 1]);
                }
            }
        }
    }
}

/// Members that are not `h3` at the origin change nothing, before the one that
/// is or behind it: that one is believed for its own seconds, and outlives a
/// change of network exactly where it says so.
pub proof fn law_other_members_change_nothing(
    cache: Map<OriginView, Held>,
    before: Seq<AltView>,
    a: AltView,
    behind: Seq<AltView>,
    origin: OriginView,
    now: Duration,
    later: Duration,
)
    requires
        a.protocol_id == seq![0x68u8, 0x33],
        a.port == origin.port,
        a.host matches Some(h) ==> lower(h) == lower(origin.host),
        forall|i: int|
            0 <= i < before.len() ==> (#[trigger] before[i]).protocol_id != seq![0x68u8, 0x33]
                || before[i].port != origin.port || (before[i].host matches Some(h) && lower(h)
                != lower(origin.host)),
        now.nanos + a.max_age * 1_000_000_000 <= crate::time::MAX_NANOS,
    ensures
        ({
            let after = noted(
                cache,
                origin,
                FieldView::Alternatives(before + seq![a] + behind),
                now,
            );
            &&& believed(after, origin, later) <==> later.nanos < now.nanos + a.max_age
                * 1_000_000_000
            &&& believed(after_network_change(after), origin, later) <==> a.persist && later.nanos
                < now.nanos + a.max_age * 1_000_000_000
        }),
{
    lemma_first_h3_behind(before, a, behind, origin);
}

/// Members that are not it are passed over.
proof fn lemma_first_h3_behind(
    before: Seq<AltView>,
    a: AltView,
    behind: Seq<AltView>,
    origin: OriginView,
)
    requires
        a.protocol_id == alpn_h3() && at_origin(a, origin),
        forall|i: int|
            0 <= i < before.len() ==> !((#[trigger] before[i]).protocol_id == alpn_h3()
                && at_origin(before[i], origin)),
    ensures
        first_h3(before + seq![a] + behind, origin) == Some(a),
    decreases before.len(),
{
    let list = before + seq![a] + behind;
    if before.len() == 0 {
        assert(list[0] == a);
    } else {
        let rest = before.skip(1);
        assert forall|i: int| 0 <= i < rest.len() implies !((#[trigger] rest[i]).protocol_id
            == alpn_h3() && at_origin(rest[i], origin)) by {
            assert(rest[i] == before[i + 1]);
        }
        lemma_first_h3_behind(rest, a, behind, origin);
        assert(list[0] == before[0]);
        assert(list.skip(1) =~= rest + seq![a] + behind);
    }
}

/// One origin is one host, up to case, and one port; an alternative is at it
/// where the port is its own and the host is or none is named.
pub proof fn law_what_an_origin_is(a: Seq<char>, b: Seq<char>, p: u16, q: u16, alt: AltView)
    ensures
        origin_of(a, p) == origin_of(b, q) <==> lower(a) == lower(b) && p == q,
        at_origin(alt, origin_of(a, p)) <==> alt.port == p && (alt.host is None || lower(
            alt.host->0,
        ) == lower(a)),
{
    lemma_lower_idempotent(a);
}

// ---------------------------------------------------------------------------
// The grammar, piece by piece
// ---------------------------------------------------------------------------

/// The characters of a token are the visible ones other than the delimiters.
pub proof fn law_delimiters_end_a_token(b: u8)
    ensures
        tchar(b) <==> 0x21 <= b <= 0x7e && b != 0x22 && b != 0x28 && b != 0x29 && b != 0x2c && b
            != 0x2f && !(0x3a <= b <= 0x40) && !(0x5b <= b <= 0x5d) && b != 0x7b && b != 0x7d,
{
    let marks = seq![
        0x21u8, 0x23, 0x24, 0x25, 0x26, 0x27, 0x2a, 0x2b, 0x2d, 0x2e, 0x5e, 0x5f, 0x60, 0x7c, 0x7e,
    ];
    assert(marks[0] == 0x21 && marks[1] == 0x23 && marks[2] == 0x24 && marks[3] == 0x25 && marks[4]
        == 0x26 && marks[5] == 0x27 && marks[6] == 0x2a && marks[7] == 0x2b && marks[8] == 0x2d
        && marks[9] == 0x2e && marks[10] == 0x5e && marks[11] == 0x5f && marks[12] == 0x60
        && marks[13] == 0x7c && marks[14] == 0x7e);
    if marks.contains(b) {
        let i = choose|i: int| 0 <= i < marks.len() && marks[i] == b;
        assert(marks[i] == b);
    }
}

/// Spaces and tabs at either end do not matter, and nothing else is taken off.
pub proof fn law_blanks_at_the_ends_do_not_matter(s: Seq<u8>, b: u8)
    ensures
        b == 0x20 || b == 0x09 ==> trimmed(seq![b] + s) == trimmed(s) && trimmed(s.push(b))
            == trimmed(s),
        s.len() > 0 && s[0] != 0x20 && s[0] != 0x09 && s.last() != 0x20 && s.last() != 0x09
            ==> trimmed(s) == s,
        b == 0x20 || b == 0x09 ==> skip_blanks(seq![b] + s) == skip_blanks(s),
        s.len() > 0 && s[0] != 0x20 && s[0] != 0x09 ==> skip_blanks(s) == s,
        trimmed(Seq::empty()) == Seq::<u8>::empty(),
    decreases s.len(),
{
    assert((seq![b] + s).skip(1) =~= s);
    assert((seq![b] + s)[0] == b);
    if b == 0x20 || b == 0x09 {
        let t = s.push(b);
        assert(t.drop_last() =~= s);
        if s.len() > 0 && blank(s[0]) {
            law_blanks_at_the_ends_do_not_matter(s.skip(1), b);
            assert(t.skip(1) =~= s.skip(1).push(b));
        } else if s.len() == 0 {
            assert(t.skip(1) =~= s);
        }
    }
}

/// Some members with commas between them.
pub open spec fn with_commas(ms: Seq<Seq<u8>>) -> Seq<u8>
    decreases ms.len(),
{
    if ms.len() == 0 {
        Seq::empty()
    } else if ms.len() == 1 {
        ms[0]
    } else {
        ms[0].push(0x2c) + with_commas(ms.skip(1))
    }
}

/// A member that ends before the value does ends at a comma.
proof fn lemma_member_ends_at_a_comma(s: Seq<u8>, quoted: bool)
    ensures
        member_len(s, quoted) < s.len() ==> s[member_len(s, quoted) as int] == 0x2c,
    decreases s.len(),
{
    if s.len() == 0 {
    } else if quoted {
        if s[0] == 0x5c {
            if s.len() > 1 {
                lemma_member_ends_at_a_comma(s.skip(2), true);
            }
        } else {
            lemma_member_ends_at_a_comma(s.skip(1), s[0] != 0x22);
        }
    } else if s[0] != 0x2c {
        lemma_member_ends_at_a_comma(s.skip(1), s[0] == 0x22);
    }
}

/// Nothing of a value is lost between its members: with commas between them
/// they are the value.
pub proof fn law_the_members_make_up_the_value(s: Seq<u8>)
    ensures
        members_of(s).len() > 0,
        with_commas(members_of(s)) == s,
    decreases s.len(),
{
    let n = member_len(s, false);
    lemma_member_len(s, false);
    lemma_member_ends_at_a_comma(s, false);
    if n < s.len() {
        let rest = s.skip(n as int + 1);
        law_the_members_make_up_the_value(rest);
        assert(members_of(s).skip(1) =~= members_of(rest));
        assert(members_of(s)[0] == s.take(n as int));
        assert(s =~= s.take(n as int).push(0x2c) + rest);
    }
}

/// Before the end of a member without quotes there is no comma.
proof fn lemma_no_comma_before_the_end(s: Seq<u8>, j: int)
    requires
        forall|i: int| 0 <= i < s.len() ==> #[trigger] s[i] != 0x22,
        0 <= j < member_len(s, false),
    ensures
        j < s.len(),
        s[j] != 0x2c,
    decreases s.len(),
{
    lemma_member_len(s, false);
    if j > 0 {
        assert forall|i: int| 0 <= i < s.skip(1).len() implies #[trigger] s.skip(1)[i] != 0x22 by {
            assert(s.skip(1)[i] == s[i + 1]);
        }
        lemma_no_comma_before_the_end(s.skip(1), j - 1);
    }
}

/// Without a quote in the value every comma is a boundary: no member holds one.
pub proof fn law_every_comma_is_a_boundary(s: Seq<u8>, i: int, j: int)
    requires
        forall|k: int| 0 <= k < s.len() ==> #[trigger] s[k] != 0x22,
        0 <= i < members_of(s).len(),
        0 <= j < members_of(s)[i].len(),
    ensures
        members_of(s)[i][j] != 0x2c,
    decreases s.len(),
{
    let n = member_len(s, false);
    lemma_member_len(s, false);
    if n < s.len() {
        let rest = s.skip(n as int + 1);
        assert forall|k: int| 0 <= k < rest.len() implies #[trigger] rest[k] != 0x22 by {
            assert(rest[k] == s[n as int + 1 + k]);
        }
        if i > 0 {
            assert(members_of(s)[i] == members_of(rest)[i - 1]);
            law_every_comma_is_a_boundary(rest, i - 1, j);
        } else {
            assert(members_of(s)[0] == s.take(n as int));
            lemma_no_comma_before_the_end(s, j);
        }
    } else {
        lemma_no_comma_before_the_end(s, j);
    }
}

/// Inside a quoted string nothing but its end counts.
proof fn lemma_member_through_quotes(t: Seq<u8>, rest: Seq<u8>)
    requires
        forall|i: int| 0 <= i < t.len() ==> #[trigger] t[i] != 0x22 && t[i] != 0x5c,
    ensures
        member_len(t.push(0x22) + rest, true) == t.len() + 1 + member_len(rest, false),
    decreases t.len(),
{
    let s = t.push(0x22) + rest;
    if t.len() == 0 {
        assert(s.skip(1) =~= rest);
    } else {
        assert(s[0] == t[0]);
        assert forall|i: int| 0 <= i < t.skip(1).len() implies #[trigger] t.skip(1)[i] != 0x22
            && t.skip(1)[i] != 0x5c by {
            assert(t.skip(1)[i] == t[i + 1]);
        }
        lemma_member_through_quotes(t.skip(1), rest);
        assert(s.skip(1) =~= t.skip(1).push(0x22) + rest);
    }
}

/// A comma inside a quoted string is no boundary: a member goes on behind the
/// closing quote, whatever the string holds.
pub proof fn law_quotes_hold_a_member_together(t: Seq<u8>, rest: Seq<u8>)
    requires
        forall|i: int| 0 <= i < t.len() ==> #[trigger] t[i] != 0x22 && t[i] != 0x5c,
    ensures
        member_len(seq![0x22u8] + t.push(0x22) + rest, false) == t.len() + 2 + member_len(
            rest,
            false,
        ),
{
    let s = seq![0x22u8] + t.push(0x22) + rest;
    assert(s.skip(1) =~= t.push(0x22) + rest);
    lemma_member_through_quotes(t, rest);
}

/// An identifier is read octet by octet: a token character stands for itself,
/// `%` and two hexadecimal digits, in either case, for the octet that they
/// write, and anything else ends it.
pub proof fn law_an_identifier_is_read_octet_by_octet(c: u8, hi: u8, lo: u8, s: Seq<u8>)
    ensures
        tchar(c) && c != 0x25 ==> id_octets(seq![c] + s) == (
            seq![c] + id_octets(s).0,
            id_octets(s).1,
        ),
        0x30 <= hi <= 0x39 && 0x30 <= lo <= 0x39 ==> id_octets(seq![0x25u8, hi, lo] + s) == (
            seq![(16 * (hi - 0x30) + (lo - 0x30)) as u8] + id_octets(s).0,
            id_octets(s).1,
        ),
        0x41 <= hi <= 0x46 && 0x61 <= lo <= 0x66 ==> id_octets(seq![0x25u8, hi, lo] + s) == (
            seq![(16 * (hi - 0x37) + (lo - 0x57)) as u8] + id_octets(s).0,
            id_octets(s).1,
        ),
        0x61 <= hi <= 0x66 && 0x41 <= lo <= 0x46 ==> id_octets(seq![0x25u8, hi, lo] + s) == (
            seq![(16 * (hi - 0x57) + (lo - 0x37)) as u8] + id_octets(s).0,
            id_octets(s).1,
        ),
        !tchar(c) ==> id_octets(seq![c] + s) == (Seq::<u8>::empty(), seq![c] + s),
        id_octets(Seq::empty()) == (Seq::<u8>::empty(), Seq::<u8>::empty()),
{
    assert((seq![c] + s).skip(1) =~= s);
    assert((seq![0x25u8, hi, lo] + s).skip(3) =~= s);
    law_delimiters_end_a_token(0x25);
}

/// Octets with a backslash before each quote and each backslash.
pub open spec fn escaped(t: Seq<u8>) -> Seq<u8>
    decreases t.len(),
{
    if t.len() == 0 {
        Seq::empty()
    } else if t[0] == 0x22 || t[0] == 0x5c {
        seq![0x5cu8, t[0]] + escaped(t.skip(1))
    } else {
        seq![t[0]] + escaped(t.skip(1))
    }
}

/// What stands in quotes is read back whole, whatever it holds: every quote
/// and backslash of it behind a backslash, and what follows untouched.
pub proof fn law_a_quoted_string_is_read_back(t: Seq<u8>, rest: Seq<u8>)
    ensures
        quoted(seq![0x22u8] + escaped(t).push(0x22) + rest) == Some((t, rest)),
        rest.len() > 0 && rest[0] != 0x22 ==> quoted(rest) is None,
        quoted(Seq::empty()) is None,
{
    let s = seq![0x22u8] + escaped(t).push(0x22) + rest;
    assert(s.skip(1) =~= escaped(t).push(0x22) + rest);
    lemma_quoted_tail(t, rest);
}

proof fn lemma_quoted_tail(t: Seq<u8>, rest: Seq<u8>)
    ensures
        quoted_tail(escaped(t).push(0x22) + rest) == Some((t, rest)),
    decreases t.len(),
{
    let s = escaped(t).push(0x22) + rest;
    if t.len() == 0 {
        assert(s.skip(1) =~= rest);
        assert(t =~= Seq::<u8>::empty());
    } else {
        let more = t.skip(1);
        lemma_quoted_tail(more, rest);
        assert(seq![t[0]] + more =~= t);
        if t[0] == 0x22 || t[0] == 0x5c {
            assert(s[0] == 0x5c && s[1] == t[0]);
            assert(s.skip(2) =~= escaped(more).push(0x22) + rest);
        } else {
            assert(s[0] == t[0]);
            assert(s.skip(1) =~= escaped(more).push(0x22) + rest);
        }
    }
}

/// A number is read digit by digit and held at its largest value; nothing but
/// digits, and at least one of them, is a number.
pub proof fn law_a_number_is_read_digit_by_digit(s: Seq<u8>, d: u8, v: u64)
    ensures
        number(Seq::empty()) is None,
        0x30 <= d <= 0x39 ==> number(seq![d]) == Some((d - 0x30) as u64),
        number(s) == Some(v) && 0x30 <= d <= 0x39 ==> number(s.push(d)) == Some(
            (if 10 * v + (d - 0x30) <= u64::MAX {
                10 * v + (d - 0x30)
            } else {
                u64::MAX as int
            }) as u64,
        ),
        !(0x30 <= d <= 0x39) ==> number(s.push(d)) is None,
        s.len() > 0 && number(s) is None ==> number(s.push(d)) is None,
{
    let t = s.push(d);
    assert(t.drop_last() =~= s);
    assert(t[s.len() as int] == d);
    assert(seq![d].drop_last() =~= Seq::<u8>::empty());
    if digit(d) {
        assert(numeral(seq![d]) == d - 0x30) by {
            reveal_with_fuel(numeral, 2);
        }
        assert(forall|i: int| 0 <= i < seq![d].len() ==> digit(#[trigger] seq![d][i]));
    }
    if number(s) is Some && digit(d) {
        assert forall|i: int| 0 <= i < t.len() implies digit(#[trigger] t[i]) by {
            if i < s.len() {
                assert(t[i] == s[i]);
            }
        }
    }
    if s.len() > 0 && number(s) is None {
        let i = choose|i: int| 0 <= i < s.len() && !digit(#[trigger] s[i]);
        assert(t[i] == s[i]);
    }
    if !digit(d) {
        assert(!digit(t[s.len() as int]));
    }
}

/// An authority is a host, a colon and a port that can be reached. Without a
/// host the alternative is at the origin's own. Without a colon, or with a
/// port that is no number from 1 to 65535, it is none.
pub proof fn law_an_authority_is_host_and_port(host: Seq<u8>, digits: Seq<u8>)
    requires
        host.len() > 0 ==> host[0] != 0x5b,
        !digits.contains(0x3a),
    ensures
        host.len() > 0 && valid_utf8(host) && (number(digits) matches Some(n) && 1 <= n <= 65535)
            ==> authority(host.push(0x3a) + digits) == Some(
            (Some(decode_utf8(host)), (number(digits)->0) as u16),
        ),
        host.len() == 0 && (number(digits) matches Some(n) && 1 <= n <= 65535) ==> authority(
            host.push(0x3a) + digits,
        ) == Some((None::<Seq<char>>, (number(digits)->0) as u16)),
        number(digits) is None || number(digits) == Some(0u64) || number(digits)->0 > 65535
            ==> authority(host.push(0x3a) + digits) is None,
        host.len() > 0 && !valid_utf8(host) ==> authority(host.push(0x3a) + digits) is None,
        digits.len() == 0 || digits[0] != 0x5b ==> authority(digits) is None,
{
    let s = host.push(0x3a) + digits;
    let n = host.len() as int;
    assert(s[n] == 0x3a);
    s.index_of_last_ensures(0x3au8);
    digits.index_of_last_ensures(0x3au8);
    let colon = s.index_of_last(0x3au8);
    assert(s.contains(0x3a));
    assert(colon == Some(n)) by {
        let c = colon->0;
        if c > n {
            assert(digits[c - n - 1] == 0x3a);
        }
    }
    assert(s.skip(n + 1) =~= digits);
    assert(s.take(n) =~= host);
}

/// An IPv6 literal keeps its brackets, and the colon behind them is the one
/// before the port.
pub proof fn law_an_ipv6_authority_is_read(inner: Seq<u8>, digits: Seq<u8>)
    requires
        !inner.contains(0x5d),
        valid_utf8(seq![0x5bu8] + inner.push(0x5d)),
        number(digits) matches Some(n) && 1 <= n <= 65535,
    ensures
        authority(seq![0x5bu8] + inner.push(0x5d).push(0x3a) + digits) == Some(
            (
                Some(decode_utf8(seq![0x5bu8] + inner.push(0x5d))),
                (number(digits)->0) as u16,
            ),
        ),
{
    let host = seq![0x5bu8] + inner.push(0x5d);
    let s = seq![0x5bu8] + inner.push(0x5d).push(0x3a) + digits;
    let n = inner.len() as int + 1;
    assert(s[n] == 0x5d);
    assert(s[n + 1] == 0x3a);
    assert(s.contains(0x5d));
    s.index_of_first_ensures(0x5du8);
    assert(s.index_of_first(0x5du8) == Some(n)) by {
        let c = s.index_of_first(0x5du8)->0;
        if c < n {
            if c > 0 {
                assert(inner[c - 1] == s[c]);
            }
        }
    }
    assert(s.skip(n + 2) =~= digits);
    assert(s.take(n + 1) =~= host);
}

/// A token in front of something else is as long as it is.
proof fn lemma_token_then(t: Seq<u8>, rest: Seq<u8>)
    requires
        forall|i: int| 0 <= i < t.len() ==> tchar(#[trigger] t[i]),
        rest.len() == 0 || !tchar(rest[0]),
    ensures
        token_len(t + rest) == t.len(),
    decreases t.len(),
{
    let s = t + rest;
    if t.len() == 0 {
        assert(s =~= rest);
    } else {
        assert(s[0] == t[0]);
        assert forall|i: int| 0 <= i < t.skip(1).len() implies tchar(#[trigger] t.skip(1)[i]) by {
            assert(t.skip(1)[i] == t[i + 1]);
        }
        lemma_token_then(t.skip(1), rest);
        assert(s.skip(1) =~= t.skip(1) + rest);
    }
}

/// A parameter is a semicolon, a name, `=` and a token or a quoted string; and
/// what follows it is read on.
pub proof fn law_a_parameter_is_read(
    name: Seq<u8>,
    token: Seq<u8>,
    text: Seq<u8>,
    rest: Seq<u8>,
)
    requires
        name.len() > 0,
        forall|i: int| 0 <= i < name.len() ==> tchar(#[trigger] name[i]),
        token.len() > 0,
        forall|i: int| 0 <= i < token.len() ==> tchar(#[trigger] token[i]),
    ensures
        rest.len() == 0 || !tchar(rest[0]) ==> params(
            seq![0x3bu8] + name.push(0x3d) + token + rest,
        ) == (seq![(name, token)] + params(rest).0, params(rest).1),
        params(
            seq![0x3bu8] + name.push(0x3d) + (seq![0x22u8] + escaped(text).push(0x22)) + rest,
        ) == (seq![(name, text)] + params(rest).0, params(rest).1),
{
    law_delimiters_end_a_token(0x3d);
    law_delimiters_end_a_token(0x22);
    law_delimiters_end_a_token(0x20);
    law_delimiters_end_a_token(0x09);
    let n = name.len() as int;
    assert(tchar(name[0]));
    assert(tchar(token[0]));
    if rest.len() == 0 || !tchar(rest[0]) {
        let v = token + rest;
        let t = name + (seq![0x3du8] + v);
        let s = seq![0x3bu8] + name.push(0x3d) + token + rest;
        assert(s.skip(1) =~= t);
        assert(t[0] == name[0]);
        assert(skip_blanks(t) == t);
        lemma_token_then(name, seq![0x3du8] + v);
        assert(t.take(n) =~= name);
        assert(t.skip(n) =~= seq![0x3du8] + v);
        assert((seq![0x3du8] + v).skip(1) =~= v);
        lemma_token_then(token, rest);
        assert(v[0] == token[0]);
        assert(v.take(token.len() as int) =~= token);
        assert(v.skip(token.len() as int) =~= rest);
        assert(next_param(s) == Some(((name, token), rest)));
    }
    let q = seq![0x22u8] + escaped(text).push(0x22);
    let v = q + rest;
    let t = name + (seq![0x3du8] + v);
    let s = seq![0x3bu8] + name.push(0x3d) + q + rest;
    assert(s.skip(1) =~= t);
    assert(t[0] == name[0]);
    assert(skip_blanks(t) == t);
    lemma_token_then(name, seq![0x3du8] + v);
    assert(t.take(n) =~= name);
    assert(t.skip(n) =~= seq![0x3du8] + v);
    assert((seq![0x3du8] + v).skip(1) =~= v);
    law_a_quoted_string_is_read_back(text, rest);
    assert(v =~= seq![0x22u8] + escaped(text).push(0x22) + rest);
    assert(next_param(s) == Some(((name, text), rest)));
}

/// Blanks before and behind the semicolon of a parameter do not matter.
pub proof fn law_blanks_round_a_semicolon_do_not_matter(b: u8, s: Seq<u8>)
    requires
        b == 0x20 || b == 0x09,
    ensures
        after_semicolon(seq![b] + s) == after_semicolon(s),
        after_semicolon(seq![0x3bu8, b] + s) == after_semicolon(seq![0x3bu8] + s),
{
    law_blanks_at_the_ends_do_not_matter(s, b);
    let t = seq![0x3bu8, b] + s;
    assert(t.skip(1) =~= seq![b] + s);
    assert((seq![0x3bu8] + s).skip(1) =~= s);
}

/// The last `ma`, in whatever case, says for how many seconds an alternative
/// is believed, and the last `persist` whether it outlives a change of
/// network, which is only where it is `1`. Without them it is one day, and no.
pub proof fn law_the_last_parameter_counts(
    ps: Seq<(Seq<u8>, Seq<u8>)>,
    name: Seq<u8>,
    value: Seq<u8>,
)
    ensures
        max_age_of(Seq::empty()) == Some(86400u64),
        !persist_of(Seq::empty()),
        lower_octets(name) == seq![0x6du8, 0x61] && max_age_of(ps) is Some ==> max_age_of(
            ps.push((name, value)),
        ) == number(value),
        max_age_of(ps) is None ==> max_age_of(ps.push((name, value))) is None,
        lower_octets(name) != seq![0x6du8, 0x61] ==> max_age_of(ps.push((name, value)))
            == max_age_of(ps),
        lower_octets(name) == seq![0x70u8, 0x65, 0x72, 0x73, 0x69, 0x73, 0x74] ==> persist_of(
            ps.push((name, value)),
        ) == (value == seq![0x31u8]),
        lower_octets(name) != seq![0x70u8, 0x65, 0x72, 0x73, 0x69, 0x73, 0x74] ==> persist_of(
            ps.push((name, value)),
        ) == persist_of(ps),
{
    assert(ps.push((name, value)).drop_last() =~= ps);
}

/// Token characters other than `%` are their own identifier.
proof fn lemma_plain_id(id: Seq<u8>, rest: Seq<u8>)
    requires
        forall|i: int| 0 <= i < id.len() ==> tchar(#[trigger] id[i]) && id[i] != 0x25,
        rest.len() > 0,
        !tchar(rest[0]),
    ensures
        id_octets(id + rest) == (id, rest),
    decreases id.len(),
{
    let s = id + rest;
    law_delimiters_end_a_token(0x25);
    if id.len() == 0 {
        assert(s =~= rest);
        assert(id =~= Seq::<u8>::empty());
    } else {
        let more = id.skip(1);
        assert forall|i: int| 0 <= i < more.len() implies tchar(#[trigger] more[i]) && more[i]
            != 0x25 by {
            assert(more[i] == id[i + 1]);
        }
        lemma_plain_id(more, rest);
        assert(tchar(id[0]) && id[0] != 0x25);
        assert(s[0] == id[0]);
        assert(s.skip(1) =~= more + rest);
        assert(seq![id[0]] + more =~= id);
    }
}

/// An alternative that is written is read: its identifier, its authority and
/// its parameters are those that were written, and where one of them cannot be
/// read, or something else follows, none is.
pub proof fn law_what_is_written_is_read(id: Seq<u8>, auth: Seq<u8>, ps: Seq<u8>)
    requires
        id.len() > 0,
        forall|i: int| 0 <= i < id.len() ==> tchar(#[trigger] id[i]) && id[i] != 0x25,
    ensures
        ({
            let s = id + (seq![0x3du8, 0x22] + escaped(auth).push(0x22) + ps);
            let readable = authority(auth) is Some && max_age_of(params(ps).0) is Some
                && skip_blanks(params(ps).1).len() == 0;
            &&& readable ==> (alternative_of(s) matches Some(a) && a.protocol_id == id && a.host == (
            authority(auth)->0).0 && a.port == (authority(auth)->0).1 && a.max_age == max_age_of(
                params(ps).0,
            )->0 && a.persist == persist_of(params(ps).0))
            &&& !readable ==> alternative_of(s) is None
            &&& alternative_of(ps) is Some ==> id_octets(ps).0.len() > 0
        }),
{
    let rest = seq![0x3du8, 0x22] + escaped(auth).push(0x22) + ps;
    law_delimiters_end_a_token(0x3d);
    assert(rest[0] == 0x3d);
    lemma_plain_id(id, rest);
    law_a_quoted_string_is_read_back(auth, ps);
    assert(rest.skip(1) =~= seq![0x22u8] + escaped(auth).push(0x22) + ps);
}

/// `clear` in either of two joined values clears; where it is in neither, the
/// alternatives of both are there, in order.
pub proof fn law_joined_values_say_what_both_say(a: Seq<u8>, b: Seq<u8>)
    requires
        !ends_quoted(a, false),
    ensures
        field_of(a.push(0x2c) + b) == FieldView::Clear <==> field_of(a) == FieldView::Clear
            || field_of(b) == FieldView::Clear,
        field_of(a) matches FieldView::Alternatives(x) ==> (field_of(b) matches
            FieldView::Alternatives(y) ==> field_of(a.push(0x2c) + b) == FieldView::Alternatives(
            x + y,
        )),
{
    law_joined_values_have_the_members_of_both(a, b);
    let ma = members_of(a);
    let mb = members_of(b);
    let all = ma + mb;
    law_alternatives_add_up(ma, mb);
    if field_of(a) == FieldView::Clear {
        let i = choose|i: int| 0 <= i < ma.len() && trimmed(#[trigger] ma[i]) == clear_word();
        assert(all[i] == ma[i]);
    }
    if field_of(b) == FieldView::Clear {
        let i = choose|i: int| 0 <= i < mb.len() && trimmed(#[trigger] mb[i]) == clear_word();
        assert(all[ma.len() + i] == mb[i]);
    }
    if field_of(a.push(0x2c) + b) == FieldView::Clear {
        let i = choose|i: int| 0 <= i < all.len() && trimmed(#[trigger] all[i]) == clear_word();
        if i < ma.len() {
            assert(ma[i] == all[i]);
        } else {
            assert(mb[i - ma.len()] == all[i]);
        }
    }
}

/// A value without a comma and without a quote is one member: `clear`, alone
/// but for blanks, in lower case, clears; anything else is the alternative
/// that it is read as, or nothing.
pub proof fn law_one_member_says_what_it_says(s: Seq<u8>)
    requires
        forall|i: int| 0 <= i < s.len() ==> #[trigger] s[i] != 0x22 && s[i] != 0x2c,
    ensures
        field_of(s) == FieldView::Clear <==> trimmed(s) == seq![0x63u8, 0x6c, 0x65, 0x61, 0x72],
        trimmed(s) != seq![0x63u8, 0x6c, 0x65, 0x61, 0x72] ==> field_of(s)
            == FieldView::Alternatives(
            match alternative_of(trimmed(s)) {
                Some(a) => seq![a],
                None => Seq::empty(),
            },
        ),
{
    lemma_member_len(s, false);
    lemma_member_ends_at_a_comma(s, false);
    let ms = members_of(s);
    assert(ms == seq![s]);
    assert(ms[0] == s);
    assert(ms.drop_last() =~= Seq::<Seq<u8>>::empty());
    assert(alternatives_in(ms.drop_last()) =~= Seq::<AltView>::empty());
    assert(alternatives_in(ms) =~= match alternative_of(trimmed(s)) {
        Some(a) => seq![a],
        None => Seq::empty(),
    });
}

} // verus!
