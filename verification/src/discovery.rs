//! The HTTPS record of an origin (RFC 9460): which one is used, what it
//! changes about a connection, and when it is left alone.

use vstd::prelude::*;

use crate::altsvc::{origin_of, OriginView};
use crate::table::Table;
use crate::text::same_octets;
use crate::time::{secs_of, sum_of, Duration};

pub use crate::altsvc::Origin;

verus! {

/// For how many seconds an origin's record is left alone after a connection
/// made under it failed.
pub const SVCB_FAILURE_SECS: u64 = 300;

// ---------------------------------------------------------------------------
// Records that failed
// ---------------------------------------------------------------------------

/// Until when each origin's record is left alone.
pub struct NegativeCache {
    until: Table<Origin, Duration>,
}

impl View for NegativeCache {
    type V = Map<OriginView, Duration>;

    closed spec fn view(&self) -> Map<OriginView, Duration> {
        self.until@
    }
}

/// Whether the origin's record is left alone at `now`.
pub open spec fn left_alone(
    cache: Map<OriginView, Duration>,
    origin: OriginView,
    now: Duration,
) -> bool {
    cache.contains_key(origin) && now.nanos < cache[origin].nanos
}

/// What is remembered once a connection under the origin's record failed.
pub open spec fn failed(
    cache: Map<OriginView, Duration>,
    origin: OriginView,
    now: Duration,
) -> Map<OriginView, Duration> {
    cache.insert(origin, sum_of(now, secs_of(SVCB_FAILURE_SECS)))
}

impl Default for NegativeCache {
    fn default() -> (r: Self)
        ensures
            r.wf(),
            r@ == Map::<OriginView, Duration>::empty(),
    {
        NegativeCache { until: Table::new() }
    }
}

impl NegativeCache {
    /// No origin is remembered twice.
    pub closed spec fn wf(self) -> bool {
        self.until.wf()
    }

    /// Whether the origin's record is to be left alone. What is over is
    /// forgotten on the way.
    pub fn suppressed(&mut self, origin: &Origin, now: Duration) -> (r: bool)
        requires
            old(self).wf(),
        ensures
            final(self).wf(),
            r == left_alone(old(self)@, origin@, now),
            final(self)@ == if r {
                old(self)@
            } else {
                old(self)@.remove(origin@)
            },
    {
        let open = match self.until.get(origin) {
            Some(until) => now.nanos < until.nanos,
            None => false,
        };
        if !open {
            let _ = self.until.remove(origin);
        }
        open
    }

    /// A connection made under the origin's record failed.
    pub fn record(&mut self, origin: Origin, now: Duration)
        requires
            old(self).wf(),
        ensures
            final(self).wf(),
            final(self)@ == failed(old(self)@, origin@, now),
    {
        self.until.insert(origin, now.saturating_add(Duration::from_secs(SVCB_FAILURE_SECS)));
    }
}

// ---------------------------------------------------------------------------
// One record
// ---------------------------------------------------------------------------

/// What one HTTPS record changes about a connection.
#[derive(Debug)]
pub struct Endpoint {
    /// The port, where the record names one.
    pub port: Option<u16>,
    /// IPv4 addresses to try before the lookup has answered.
    pub ipv4hint: Vec<u32>,
    /// IPv6 addresses to try before the lookup has answered.
    pub ipv6hint: Vec<u128>,
    /// The protocols the record speaks of.
    pub alpn: Vec<Vec<u8>>,
    /// The configuration for an encrypted client hello.
    pub ech: Option<Vec<u8>>,
}

/// An [`Endpoint`] as a mathematical value.
#[verifier::ext_equal]
pub struct EndpointView {
    pub port: Option<u16>,
    pub ipv4hint: Seq<u32>,
    pub ipv6hint: Seq<u128>,
    pub alpn: Seq<Seq<u8>>,
    pub ech: Option<Seq<u8>>,
}

/// Names of protocols as mathematical values.
pub open spec fn names(list: Seq<Vec<u8>>) -> Seq<Seq<u8>> {
    list.map_values(|n: Vec<u8>| n@)
}

/// Optional octets as a mathematical value.
pub open spec fn opt_octets(o: Option<Vec<u8>>) -> Option<Seq<u8>> {
    match o {
        Some(v) => Some(v@),
        None => None,
    }
}

impl View for Endpoint {
    type V = EndpointView;

    open spec fn view(&self) -> EndpointView {
        EndpointView {
            port: self.port,
            ipv4hint: self.ipv4hint@,
            ipv6hint: self.ipv6hint@,
            alpn: names(self.alpn@),
            ech: opt_octets(self.ech),
        }
    }
}

/// A record that changes nothing.
pub open spec fn inert(e: EndpointView) -> bool {
    &&& e.port is None
    &&& e.ipv4hint.len() == 0
    &&& e.ipv6hint.len() == 0
    &&& e.alpn.len() == 0
    &&& e.ech is None
}

impl Endpoint {
    /// Whether the record changes nothing about a connection.
    pub fn is_inert(&self) -> (r: bool)
        ensures
            r == inert(self@),
    {
        self.port.is_none() && self.ipv4hint.len() == 0 && self.ipv6hint.len() == 0
            && self.alpn.len() == 0 && self.ech.is_none()
    }
}

/// One record as the resolver gives it.
#[derive(Debug)]
pub struct SvcbEndpoint {
    /// Its rank, zero for an alias.
    pub priority: u16,
    /// The name it points at, which is not looked up.
    pub target: String,
    pub port: Option<u16>,
    pub ipv4hint: Vec<u32>,
    pub ipv6hint: Vec<u128>,
    pub alpn: Vec<Vec<u8>>,
    pub ech_config_list: Option<Vec<u8>>,
}

/// One answer to the question for a record.
#[derive(Debug)]
pub enum Answer {
    /// An HTTPS record.
    Https(SvcbEndpoint),
    /// A record of another type.
    Other,
    /// The lookup failed.
    Failed,
}

/// What a record changes about a connection.
pub open spec fn endpoint_of(e: SvcbEndpoint) -> EndpointView {
    EndpointView {
        port: e.port,
        ipv4hint: e.ipv4hint@,
        ipv6hint: e.ipv6hint@,
        alpn: names(e.alpn@),
        ech: opt_octets(e.ech_config_list),
    }
}

impl Endpoint {
    /// What a record changes about a connection.
    pub fn from_record(e: SvcbEndpoint) -> (r: Self)
        ensures
            r@ == endpoint_of(e),
    {
        Endpoint {
            port: e.port,
            ipv4hint: e.ipv4hint,
            ipv6hint: e.ipv6hint,
            alpn: e.alpn,
            ech: e.ech_config_list,
        }
    }
}

/// Whether an answer is a record that can be used: one that is no alias.
pub open spec fn usable(a: Answer) -> bool {
    a matches Answer::Https(r) && r.priority != 0
}

/// The rank of a record.
pub open spec fn rank(a: Answer) -> u16 {
    match a {
        Answer::Https(r) => r.priority,
        _ => 0,
    }
}

/// `i` is where the usable record with the lowest priority stands, the first
/// of those where there are several.
pub open spec fn is_best(answers: Seq<Answer>, i: int) -> bool {
    &&& 0 <= i < answers.len()
    &&& usable(answers[i])
    &&& forall|j: int|
        0 <= j < answers.len() && usable(#[trigger] answers[j]) ==> rank(answers[i]) <= rank(
            answers[j],
        ) && (rank(answers[i]) == rank(answers[j]) ==> i <= j)
}

/// What the best record changes about a connection, where there is one.
pub open spec fn best_record(answers: Seq<Answer>) -> Option<EndpointView> {
    if exists|i: int| is_best(answers, i) {
        Some(endpoint_of(answers[choose|i: int| is_best(answers, i)]->Https_0))
    } else {
        None
    }
}

/// The record to use, from all the answers to one question. A failed answer
/// takes nothing from the others.
pub fn lookup(answers: Vec<Answer>) -> (r: Option<Endpoint>)
    ensures
        opt_endpoint(r) == best_record(answers@),
{
    let mut best: Option<usize> = None;
    let mut lowest: u16 = 0;
    let mut i: usize = 0;
    while i < answers.len()
        invariant
            i <= answers@.len(),
            match best {
                Some(b) => b < i && usable(answers@[b as int]) && lowest == rank(answers@[b as int])
                    && forall|j: int|
                    0 <= j < i && usable(#[trigger] answers@[j]) ==> lowest <= rank(answers@[j])
                        && (lowest == rank(answers@[j]) ==> b <= j),
                None => forall|j: int| 0 <= j < i ==> !usable(#[trigger] answers@[j]),
            },
        decreases answers@.len() - i,
    {
        match &answers[i] {
            Answer::Https(record) => {
                if record.priority != 0 {
                    let better = match best {
                        None => true,
                        Some(_) => record.priority < lowest,
                    };
                    if better {
                        best = Some(i);
                        lowest = record.priority;
                    }
                }
            },
            Answer::Other => {},
            Answer::Failed => {},
        }
        i = i + 1;
    }
    match best {
        None => None,
        Some(b) => {
            let ghost all = answers@;
            proof {
                assert(is_best(all, b as int));
                law_best_record_is_one(all, b as int, choose|i: int| is_best(all, i));
            }
            let mut answers = answers;
            match answers.swap_remove(b) {
                Answer::Https(record) => Some(Endpoint::from_record(record)),
                Answer::Other => None,
                Answer::Failed => None,
            }
        },
    }
}

// ---------------------------------------------------------------------------
// Which protocols are offered
// ---------------------------------------------------------------------------

/// `http/1.1`, which every HTTPS record stands for without saying so.
pub open spec fn alpn_http11() -> Seq<u8> {
    seq![0x68u8, 0x74, 0x74, 0x70, 0x2f, 0x31, 0x2e, 0x31]
}

/// Whether a record lets a protocol be spoken.
pub open spec fn allowed(p: Seq<u8>, record: Seq<Seq<u8>>) -> bool {
    p == alpn_http11() || record.contains(p)
}

/// Names of protocols as mathematical values.
pub open spec fn slices(list: Seq<&[u8]>) -> Seq<Seq<u8>> {
    list.map_values(|n: &[u8]| n@)
}

/// Those of our protocols that the record lets be spoken, in our order.
pub open spec fn common(ours: Seq<Seq<u8>>, record: Seq<Seq<u8>>) -> Seq<Seq<u8>>
    decreases ours.len(),
{
    if ours.len() == 0 {
        Seq::empty()
    } else if allowed(ours.last(), record) {
        common(ours.drop_last(), record).push(ours.last())
    } else {
        common(ours.drop_last(), record)
    }
}

/// What is offered under a record: what is common, or all of ours where
/// nothing is.
pub open spec fn offer_of(ours: Seq<Seq<u8>>, record: Seq<Seq<u8>>) -> Seq<Seq<u8>> {
    if common(ours, record).len() == 0 {
        ours
    } else {
        common(ours, record)
    }
}

/// Whether the record names the protocol.
fn names_protocol(record: &[Vec<u8>], p: &[u8]) -> (r: bool)
    ensures
        r == names(record@).contains(p@),
{
    let ghost all = names(record@);
    let mut i: usize = 0;
    while i < record.len()
        invariant
            i <= record@.len(),
            all == names(record@),
            forall|j: int| 0 <= j < i ==> #[trigger] all[j] != p@,
        decreases record@.len() - i,
    {
        assert(all[i as int] == record@[i as int]@);
        if same_octets(record[i].as_slice(), p) {
            return true;
        }
        i = i + 1;
    }
    false
}

/// The protocols to offer under a record that speaks of `record`.
pub fn alpn_offer<'a>(ours: &[&'a [u8]], record: &[Vec<u8>]) -> (r: Vec<&'a [u8]>)
    ensures
        slices(r@) == offer_of(slices(ours@), names(record@)),
{
    let ghost all = slices(ours@);
    let ghost wanted = names(record@);
    let mut offer: Vec<&'a [u8]> = Vec::new();
    let mut every: Vec<&'a [u8]> = Vec::new();
    let mut i: usize = 0;
    assert(slices(offer@) =~= common(all.take(0), wanted));
    assert(slices(every@) =~= all.take(0));
    while i < ours.len()
        invariant
            i <= ours@.len(),
            all == slices(ours@),
            wanted == names(record@),
            slices(offer@) == common(all.take(i as int), wanted),
            slices(every@) == all.take(i as int),
        decreases ours@.len() - i,
    {
        let p: &'a [u8] = ours[i];
        proof {
            assert(all.take(i + 1).drop_last() =~= all.take(i as int));
            assert(all[i as int] == p@);
            assert([0x68u8, 0x74, 0x74, 0x70, 0x2f, 0x31, 0x2e, 0x31]@ =~= alpn_http11());
            assert(slices(offer@.push(p)) =~= slices(offer@).push(p@));
            assert(slices(every@.push(p)) =~= slices(every@).push(p@));
            assert(all.take(i + 1) =~= all.take(i as int).push(p@));
        }
        if same_octets(p, &[0x68, 0x74, 0x74, 0x70, 0x2f, 0x31, 0x2e, 0x31]) || names_protocol(
            record,
            p,
        ) {
            offer.push(p);
        }
        every.push(p);
        i = i + 1;
    }
    assert(all.take(i as int) =~= all);
    assert(slices(offer@).len() == offer@.len());
    if offer.len() == 0 {
        every
    } else {
        offer
    }
}

// ---------------------------------------------------------------------------
// What was found
// ---------------------------------------------------------------------------

/// What is known of an origin's record before a connection is made.
#[derive(Debug)]
pub enum Prefetched {
    /// Nobody asked.
    NotConsulted,
    /// It was asked for, and this is what there is.
    Looked(Option<Endpoint>),
}

/// What is known of an origin's record, as a caller sees it.
#[derive(Debug)]
pub enum Discovered<'a> {
    /// Nobody asked.
    NotConsulted,
    /// It was asked for, and there is none.
    NoRecord,
    /// There is one, and it speaks of these protocols.
    Record { alpn: &'a [Vec<u8>] },
}

/// An optional endpoint as a mathematical value.
pub open spec fn opt_endpoint(e: Option<Endpoint>) -> Option<EndpointView> {
    match e {
        Some(e) => Some(e@),
        None => None,
    }
}

/// A record that changes something, where one was found.
pub open spec fn effective(found: Option<EndpointView>) -> Option<EndpointView> {
    match found {
        Some(e) => if inert(e) {
            None
        } else {
            Some(e)
        },
        None => None,
    }
}

/// The record to act on: one that was found and changes something.
pub open spec fn to_act_on(found: Prefetched) -> Option<EndpointView> {
    match found {
        Prefetched::Looked(e) => effective(opt_endpoint(e)),
        Prefetched::NotConsulted => None,
    }
}

impl Prefetched {
    /// The record to act on.
    pub fn actionable(self) -> (r: Option<Endpoint>)
        ensures
            opt_endpoint(r) == to_act_on(self),
    {
        match self {
            Prefetched::NotConsulted => None,
            Prefetched::Looked(None) => None,
            Prefetched::Looked(Some(e)) => if e.is_inert() {
                None
            } else {
                Some(e)
            },
        }
    }

    /// What a caller sees of it.
    pub fn discovered(&self) -> (r: Discovered<'_>)
        ensures
            match *self {
                Prefetched::NotConsulted => r is NotConsulted,
                Prefetched::Looked(None) => r is NoRecord,
                Prefetched::Looked(Some(e)) => r is Record && r->alpn@ == e.alpn@,
            },
    {
        match self {
            Prefetched::NotConsulted => Discovered::NotConsulted,
            Prefetched::Looked(None) => Discovered::NoRecord,
            Prefetched::Looked(Some(e)) => Discovered::Record { alpn: e.alpn.as_slice() },
        }
    }
}

/// A request together with what is known of its own origin's record. The two
/// are put together once, and nothing takes them apart and puts either beside
/// something else.
#[derive(Debug)]
pub struct Prepared<Q> {
    req: Q,
    found: Prefetched,
}

impl<Q> Prepared<Q> {
    /// The request.
    pub closed spec fn asked(self) -> Q {
        self.req
    }

    /// What is known of its record.
    pub closed spec fn known(self) -> Prefetched {
        self.found
    }

    /// A request whose record nobody asked for.
    pub fn new(req: Q) -> (r: Self)
        ensures
            r.asked() == req,
            r.known() == Prefetched::NotConsulted,
    {
        Prepared { req, found: Prefetched::NotConsulted }
    }

    /// A request with what was found of its record.
    pub(crate) fn with(req: Q, found: Option<Endpoint>) -> (r: Self)
        ensures
            r.asked() == req,
            r.known() == Prefetched::Looked(found),
    {
        Prepared { req, found: Prefetched::Looked(found) }
    }

    /// The request.
    pub fn request(&self) -> (r: &Q)
        ensures
            *r == self.asked(),
    {
        &self.req
    }

    /// What is known of the record.
    pub fn discovered(&self) -> (r: Discovered<'_>)
        ensures
            match self.known() {
                Prefetched::NotConsulted => r is NotConsulted,
                Prefetched::Looked(None) => r is NoRecord,
                Prefetched::Looked(Some(e)) => r is Record && r->alpn@ == e.alpn@,
            },
    {
        self.found.discovered()
    }

    /// The request back.
    pub fn into_request(self) -> (r: Q)
        ensures
            r == self.asked(),
    {
        self.req
    }

    /// The request and what is known of its record, to be sent.
    pub fn into_parts(self) -> (r: (Q, Prefetched))
        ensures
            r == (self.asked(), self.known()),
    {
        (self.req, self.found)
    }
}

// ---------------------------------------------------------------------------
// What holds of it all
// ---------------------------------------------------------------------------

/// A failed record is left alone for its time and no longer, and only that
/// origin's.
pub proof fn law_failed_record_is_left_alone(
    cache: Map<OriginView, Duration>,
    origin: OriginView,
    other: OriginView,
    now: Duration,
    later: Duration,
)
    ensures
        left_alone(failed(cache, origin, now), origin, later) <==> later.nanos < sum_of(
            now,
            secs_of(SVCB_FAILURE_SECS),
        ).nanos,
        other != origin ==> left_alone(failed(cache, origin, now), other, later) == left_alone(
            cache,
            other,
            later,
        ),
{
}

/// Two spellings of a host that differ in case alone are left alone together.
pub proof fn law_suppression_ignores_case(
    cache: Map<OriginView, Duration>,
    a: Seq<char>,
    b: Seq<char>,
    port: u16,
    now: Duration,
)
    requires
        crate::text::lower(a) == crate::text::lower(b),
    ensures
        left_alone(cache, origin_of(a, port), now) == left_alone(cache, origin_of(b, port), now),
{
}

/// There is at most one best record: the order of preference leaves no choice.
pub proof fn law_best_record_is_one(answers: Seq<Answer>, i: int, j: int)
    requires
        is_best(answers, i),
        is_best(answers, j),
    ensures
        i == j,
{
    assert(usable(answers[i]) && usable(answers[j]));
}

/// Where a usable record was answered, one is used.
pub proof fn law_a_usable_record_is_used(answers: Seq<Answer>, k: int)
    requires
        0 <= k < answers.len(),
        usable(answers[k]),
    ensures
        best_record(answers) is Some,
{
    lemma_best_exists(answers, answers.len() as int, k);
    assert(answers.take(answers.len() as int) =~= answers);
}

/// Without a usable record none is used, whatever else was answered.
pub proof fn law_nothing_usable_is_nothing(answers: Seq<Answer>)
    requires
        forall|i: int| 0 <= i < answers.len() ==> !usable(#[trigger] answers[i]),
    ensures
        best_record(answers) is None,
{
}

/// The best of the first `n` answers exists where one of them is usable.
proof fn lemma_best_exists(answers: Seq<Answer>, n: int, k: int)
    requires
        0 <= k < n <= answers.len(),
        usable(answers[k]),
    ensures
        exists|i: int| is_best(answers.take(n), i),
    decreases n,
{
    let all = answers.take(n);
    let before = answers.take(n - 1);
    if exists|j: int| 0 <= j < n - 1 && usable(#[trigger] answers[j]) {
        let j = choose|j: int| 0 <= j < n - 1 && usable(#[trigger] answers[j]);
        lemma_best_exists(answers, n - 1, j);
        let b = choose|i: int| is_best(before, i);
        assert(before[b] == all[b]);
        assert(forall|m: int| 0 <= m < n - 1 ==> before[m] == #[trigger] all[m]);
        if usable(all[n - 1]) && rank(all[n - 1]) < rank(all[b]) {
            assert(is_best(all, n - 1));
        } else {
            assert(is_best(all, b));
        }
    } else {
        assert(k == n - 1) by {
            if k < n - 1 {
                assert(usable(answers[k]));
            }
        }
        assert forall|j: int| 0 <= j < all.len() && usable(#[trigger] all[j]) implies j == n - 1 by {
            assert(all[j] == answers[j]);
        }
        assert(is_best(all, n - 1));
    }
}

/// What is common is ours, is allowed by the record, and leaves out nothing
/// of ours that is.
pub proof fn law_common_is_ours_and_allowed(ours: Seq<Seq<u8>>, record: Seq<Seq<u8>>, p: Seq<u8>)
    ensures
        common(ours, record).contains(p) <==> ours.contains(p) && allowed(p, record),
    decreases ours.len(),
{
    if ours.len() > 0 {
        let shorter = ours.drop_last();
        law_common_is_ours_and_allowed(shorter, record, p);
        let c = common(ours, record);
        let before = common(shorter, record);
        if ours.contains(p) {
            let k = choose|k: int| 0 <= k < ours.len() && ours[k] == p;
            if k < shorter.len() {
                assert(shorter[k] == p);
            }
        }
        if shorter.contains(p) {
            let k = choose|k: int| 0 <= k < shorter.len() && shorter[k] == p;
            assert(ours[k] == p);
        }
        if before.contains(p) {
            let k = choose|k: int| 0 <= k < before.len() && before[k] == p;
            assert(c[k] == p);
        }
        if c.contains(p) && !before.contains(p) {
            let k = choose|k: int| 0 <= k < c.len() && c[k] == p;
            if k < before.len() {
                assert(before[k] == p);
            }
        }
        if p == ours.last() {
            assert(ours[ours.len() - 1] == p);
            if allowed(p, record) {
                assert(c[c.len() - 1] == p);
            }
        }
    }
}

/// An offer names only protocols of ours, and names one wherever we have one.
pub proof fn law_offer_is_ours(ours: Seq<Seq<u8>>, record: Seq<Seq<u8>>, p: Seq<u8>)
    ensures
        offer_of(ours, record).contains(p) ==> ours.contains(p),
        ours.len() > 0 ==> offer_of(ours, record).len() > 0,
{
    law_common_is_ours_and_allowed(ours, record, p);
}

/// An offer that the record allows nothing of is the one made without it;
/// else every protocol in it is allowed.
pub proof fn law_offer_follows_the_record(ours: Seq<Seq<u8>>, record: Seq<Seq<u8>>, p: Seq<u8>)
    requires
        ours.contains(p),
        allowed(p, record),
    ensures
        offer_of(ours, record).contains(p),
        forall|q: Seq<u8>| #[trigger]
            offer_of(ours, record).contains(q) ==> allowed(q, record),
{
    law_common_is_ours_and_allowed(ours, record, p);
    assert forall|q: Seq<u8>| #[trigger] offer_of(ours, record).contains(q) implies allowed(
        q,
        record,
    ) by {
        law_common_is_ours_and_allowed(ours, record, q);
    }
}

/// Of all records that can be used, the one with the lowest priority that is
/// not zero is used, the first of those with one priority; and what it changes
/// is what it says: its port, its hints, its protocols and its configuration.
pub proof fn law_the_best_record_is_used_as_it_is(answers: Seq<Answer>, i: int, best: SvcbEndpoint)
    requires
        0 <= i < answers.len(),
        answers[i] == Answer::Https(best),
        best.priority != 0,
        forall|j: int|
            0 <= j < answers.len() ==> (#[trigger] answers[j] matches Answer::Https(other) ==> (
            other.priority == 0 || best.priority < other.priority || (best.priority
                == other.priority && i <= j))),
    ensures
        best_record(answers) matches Some(e) && e.port == best.port && e.ipv4hint == best.ipv4hint@
            && e.ipv6hint == best.ipv6hint@ && e.alpn.len() == best.alpn@.len() && (forall|k: int|
            0 <= k < e.alpn.len() ==> #[trigger] e.alpn[k] == best.alpn@[k]@) && (
        best.ech_config_list matches Some(c) ==> e.ech == Some(c@)) && (best.ech_config_list is None
            ==> e.ech is None),
{
    assert(is_best(answers, i)) by {
        assert forall|j: int| 0 <= j < answers.len() && usable(#[trigger] answers[j]) implies rank(
            answers[i],
        ) <= rank(answers[j]) && (rank(answers[i]) == rank(answers[j]) ==> i <= j) by {
            assert(answers[j] matches Answer::Https(other));
        }
    }
    let k = choose|k: int| is_best(answers, k);
    law_best_record_is_one(answers, i, k);
}

/// What a record says is kept whole, and a record changes something exactly
/// where it says something.
pub proof fn law_a_record_is_kept_whole(e: Endpoint)
    ensures
        e@.port == e.port,
        e@.ipv4hint == e.ipv4hint@,
        e@.ipv6hint == e.ipv6hint@,
        e@.alpn.len() == e.alpn@.len(),
        forall|k: int| 0 <= k < e.alpn@.len() ==> #[trigger] e@.alpn[k] == e.alpn@[k]@,
        e.ech matches Some(c) ==> e@.ech == Some(c@),
        e.ech is None ==> e@.ech is None,
        inert(e@) <==> e.port is None && e.ipv4hint@.len() == 0 && e.ipv6hint@.len() == 0
            && e.alpn@.len() == 0 && e.ech is None,
{
}

/// A record is acted on exactly where one was looked for and found, and it
/// changes something.
pub proof fn law_what_is_acted_on(e: Endpoint)
    ensures
        to_act_on(Prefetched::NotConsulted) is None,
        to_act_on(Prefetched::Looked(None)) is None,
        inert(e@) ==> to_act_on(Prefetched::Looked(Some(e))) is None,
        !inert(e@) ==> to_act_on(Prefetched::Looked(Some(e))) == Some(e@),
        effective(None) is None,
        inert(e@) ==> effective(Some(e@)) is None,
        !inert(e@) ==> effective(Some(e@)) == Some(e@),
{
}

/// A record allows what it names, and always HTTP/1.1.
pub proof fn law_what_a_record_allows(p: Seq<u8>, record: Seq<Seq<u8>>)
    ensures
        allowed(p, record) <==> record.contains(p) || p == seq![
            0x68u8, 0x74, 0x74, 0x70, 0x2f, 0x31, 0x2e, 0x31,
        ],
{
}

/// An offer under a record keeps our order and looks at each of our protocols
/// by itself; where the record allows none of them, it is all of ours.
pub proof fn law_an_offer_keeps_our_order(
    before: Seq<Seq<u8>>,
    p: Seq<u8>,
    behind: Seq<Seq<u8>>,
    record: Seq<Seq<u8>>,
)
    ensures
        common(before + behind, record) == common(before, record) + common(behind, record),
        allowed(p, record) ==> common(seq![p], record) == seq![p],
        !allowed(p, record) ==> common(seq![p], record).len() == 0,
        common(before, record).len() > 0 ==> offer_of(before, record) == common(before, record),
        common(before, record).len() == 0 ==> offer_of(before, record) == before,
    decreases behind.len(),
{
    let one = seq![p];
    assert(one.drop_last() =~= Seq::<Seq<u8>>::empty());
    assert(common(one.drop_last(), record) =~= Seq::<Seq<u8>>::empty());
    assert(Seq::<Seq<u8>>::empty().push(p) =~= one);
    let all = before + behind;
    if behind.len() == 0 {
        assert(all =~= before);
        assert(common(before, record) + common(behind, record) =~= common(before, record));
    } else {
        law_an_offer_keeps_our_order(before, p, behind.drop_last(), record);
        assert(all.drop_last() =~= before + behind.drop_last());
        assert(all.last() == behind.last());
        assert(common(all, record) =~= common(before, record) + common(behind, record));
    }
}

/// A failure is remembered for five minutes.
pub proof fn law_a_failure_is_remembered_for_five_minutes(
    cache: Map<OriginView, Duration>,
    origin: OriginView,
    now: Duration,
    later: Duration,
)
    requires
        now.nanos + 300 * 1_000_000_000 <= crate::time::MAX_NANOS,
    ensures
        left_alone(failed(cache, origin, now), origin, later) <==> later.nanos < now.nanos + 300
            * 1_000_000_000,
        !cache.contains_key(origin) ==> !left_alone(cache, origin, later),
{
}

} // verus!
