//! Keeping advertisements in a store of octets under names.
//!
//! Two namespaces, because what outlives a change of network and what does not
//! must be told apart without reading either: [`PERSISTENT`] and
//! [`VOLATILE`]. An origin is in at most one of them. The value is the expiry
//! alone; which namespace it came out of says the rest.

use vstd::prelude::*;

use crate::altsvc::{Origin, OriginView};
use crate::text::{decimal, lemma_decimal_digits, lemma_decimal_injective, to_decimal};
use crate::time::{secs_of, Duration};

verus! {

/// The namespace of what a change of network takes away.
pub const VOLATILE: &'static str = "altsvc";

/// The namespace of what outlives a change of network.
pub const PERSISTENT: &'static str = "altsvc-persist";

/// A moment on the wall clock: how far from the epoch, and on which side.
#[derive(Debug, Clone, Copy, PartialEq, Eq, Structural)]
pub struct WallTime {
    /// Whether the moment comes before the epoch.
    pub before: bool,
    /// How far away the epoch is.
    pub offset: Duration,
}

/// One advertisement as it is stored.
#[derive(Debug, Clone, Copy, PartialEq, Eq, Structural)]
pub struct Entry {
    expires_at: WallTime,
    persist: bool,
}

/// The names of the labels of a host: what stands between its dots.
pub open spec fn labels(host: Seq<char>) -> Seq<Seq<char>>
    decreases host.len(),
{
    match host.index_of_first('.') {
        Some(i) => if 0 <= i < host.len() {
            seq![host.take(i)] + labels(host.skip(i + 1))
        } else {
            seq![host]
        },
        None => seq![host],
    }
}

/// The labels in reverse order with dots between them. Labels that are empty
/// at the end of the host leave no dot behind.
pub open spec fn joined_back(ls: Seq<Seq<char>>) -> Seq<char>
    decreases ls.len(),
{
    if ls.len() == 0 {
        Seq::empty()
    } else {
        let rest = joined_back(ls.skip(1));
        if rest.len() == 0 {
            ls[0]
        } else {
            rest.push('.') + ls[0]
        }
    }
}

/// A label of decimal digits and nothing else.
pub open spec fn numeric(label: Seq<char>) -> bool {
    label.len() > 0 && forall|i: int| 0 <= i < label.len() ==> '0' <= #[trigger] label[i] <= '9'
}

/// Whether a host is written as an address: with a colon, or as numbers with
/// dots between them.
pub open spec fn ip_literal(host: Seq<char>) -> bool {
    ||| host.contains(':')
    ||| host.len() > 0 && forall|i: int|
        0 <= i < labels(host).len() ==> numeric(#[trigger] labels(host)[i])
}

/// How a host is written in a key: an address as it is, a name with its
/// labels in reverse, so that the names under one domain stand together.
pub open spec fn key_host(host: Seq<char>) -> Seq<char> {
    if ip_literal(host) {
        host
    } else {
        joined_back(labels(host))
    }
}

/// The key of an origin: its host, the character U+0001, and its port.
pub open spec fn key_of(origin: OriginView) -> Seq<char> {
    key_host(origin.host).push('\u{1}') + decimal(origin.port as nat)
}

/// The characters of some text.
fn chars_of(s: &str) -> (r: Vec<char>)
    ensures
        r@ == s@,
{
    let mut out: Vec<char> = Vec::new();
    for c in it: s.chars()
        invariant
            out@ =~= it.seq().take(it.index() as int),
            it.seq() == s@,
    {
        out.push(c);
    }
    assert(s@.take(s@.len() as int) =~= s@);
    out
}

/// The text of labels that lie in a vector.
spec fn label_views(ls: Seq<Vec<char>>) -> Seq<Seq<char>> {
    ls.map_values(|l: Vec<char>| l@)
}

/// The labels of a host.
fn labels_of(host: &Vec<char>) -> (r: Vec<Vec<char>>)
    ensures
        label_views(r@) == labels(host@),
{
    let mut done: Vec<Vec<char>> = Vec::new();
    let mut label: Vec<char> = Vec::new();
    let mut i: usize = 0;
    let ghost mut start: int = 0;
    assert(host@.skip(0) =~= host@);
    assert(label_views(done@) + labels(host@) =~= labels(host@));
    while i < host.len()
        invariant
            0 <= start <= i <= host@.len(),
            label@ == host@.subrange(start, i as int),
            forall|j: int| start <= j < i ==> host@[j] != '.',
            label_views(done@) + labels(host@.skip(start)) == labels(host@),
        decreases host@.len() - i,
    {
        let c: char = host[i];
        if c == '.' {
            proof {
                let from = host@.skip(start);
                from.index_of_first_ensures('.');
                assert(from[i - start] == '.');
                assert(from.contains('.'));
                let at = from.index_of_first('.')->0;
                assert(at == i - start) by {
                    if at < i - start {
                        assert(host@[start + at] != '.');
                    }
                }
                assert(from.take(at) =~= label@);
                assert(from.skip(at + 1) =~= host@.skip(i + 1));
                assert(label_views(done@.push(label)) =~= label_views(done@).push(label@));
                assert(label_views(done@).push(label@) + labels(host@.skip(i + 1)) =~= label_views(
                    done@,
                ) + (seq![label@] + labels(host@.skip(i + 1))));
                start = i + 1;
            }
            done.push(label);
            label = Vec::new();
            assert(label@ =~= host@.subrange(start, start));
        } else {
            assert(host@.subrange(start, i + 1) =~= host@.subrange(start, i as int).push(c));
            label.push(c);
        }
        i = i + 1;
    }
    proof {
        let from = host@.skip(start);
        from.index_of_first_ensures('.');
        assert(from =~= label@);
        assert(!from.contains('.')) by {
            if from.contains('.') {
                let j = choose|j: int| 0 <= j < from.len() && from[j] == '.';
                assert(host@[start + j] != '.');
            }
        }
        assert(label_views(done@.push(label)) =~= label_views(done@) + seq![label@]);
    }
    done.push(label);
    done
}

/// Whether a label is made of digits and nothing else.
fn is_numeric(label: &Vec<char>) -> (r: bool)
    ensures
        r == numeric(label@),
{
    if label.len() == 0 {
        return false;
    }
    let mut i: usize = 0;
    while i < label.len()
        invariant
            i <= label@.len(),
            forall|j: int| 0 <= j < i ==> '0' <= #[trigger] label@[j] <= '9',
        decreases label@.len() - i,
    {
        if label[i] < '0' || label[i] > '9' {
            assert(!('0' <= label@[i as int] <= '9'));
            return false;
        }
        i = i + 1;
    }
    true
}

/// Whether a host is written as an address.
pub fn is_ip_literal(host: &str) -> (r: bool)
    ensures
        r == ip_literal(host@),
{
    let cs = chars_of(host);
    let mut i: usize = 0;
    while i < cs.len()
        invariant
            i <= cs@.len(),
            cs@ == host@,
            forall|j: int| 0 <= j < i ==> cs@[j] != ':',
        decreases cs@.len() - i,
    {
        if cs[i] == ':' {
            assert(host@[i as int] == ':');
            return true;
        }
        i = i + 1;
    }
    assert(!host@.contains(':'));
    if cs.len() == 0 {
        return false;
    }
    let ls = labels_of(&cs);
    let mut k: usize = 0;
    while k < ls.len()
        invariant
            k <= ls@.len(),
            label_views(ls@) == labels(host@),
            !host@.contains(':'),
            forall|j: int| 0 <= j < k ==> numeric(#[trigger] labels(host@)[j]),
        decreases ls@.len() - k,
    {
        assert(labels(host@)[k as int] == ls@[k as int]@);
        if !is_numeric(&ls[k]) {
            return false;
        }
        k = k + 1;
    }
    true
}

/// The key of an origin.
pub fn key_for(origin: &Origin) -> (r: String)
    ensures
        r@ == key_of(origin@),
{
    let host = origin.host();
    let mut out: Vec<char>;
    let cs = chars_of(host);
    if is_ip_literal(host) {
        out = cs;
    } else {
        let ls = labels_of(&cs);
        let ghost all = labels(host@);
        out = Vec::new();
        let mut i: usize = ls.len();
        assert(all.skip(all.len() as int) =~= Seq::empty());
        assert(out@ =~= joined_back(all.skip(i as int)));
        while i > 0
            invariant
                i <= ls@.len(),
                all == labels(host@),
                label_views(ls@) == all,
                out@ == joined_back(all.skip(i as int)),
            decreases i,
        {
            i = i - 1;
            proof {
                assert(all.skip(i as int).skip(1) =~= all.skip(i + 1));
                assert(all[i as int] == ls@[i as int]@);
            }
            let ghost rest = out@;
            if out.len() > 0 {
                out.push('.');
            }
            let ghost start = out@;
            let mut j: usize = 0;
            while j < ls[i].len()
                invariant
                    i < ls@.len(),
                    j <= ls@[i as int]@.len(),
                    out@ =~= start + ls@[i as int]@.take(j as int),
                decreases ls@[i as int]@.len() - j,
            {
                out.push(ls[i][j]);
                j = j + 1;
            }
            assert(ls@[i as int]@.take(j as int) =~= ls@[i as int]@);
            assert(rest.len() == 0 ==> start + ls@[i as int]@ =~= ls@[i as int]@);
        }
        assert(all.skip(0) =~= all);
    }
    assert(out@ == key_host(origin@.host));
    let mut key = String::new();
    let mut n: usize = 0;
    while n < out.len()
        invariant
            n <= out@.len(),
            key@ =~= out@.take(n as int),
        decreases out@.len() - n,
    {
        key.push(out[n]);
        n = n + 1;
    }
    assert(out@.take(n as int) =~= out@);
    key.push('\u{1}');
    key.append(to_decimal(origin.port() as u64).as_str());
    key
}

// ---------------------------------------------------------------------------
// The stored value
// ---------------------------------------------------------------------------

/// The number that octets write, the least significant first.
pub open spec fn le_value(s: Seq<u8>) -> nat
    decreases s.len(),
{
    if s.len() == 0 {
        0
    } else {
        s[0] as nat + 256 * le_value(s.skip(1))
    }
}

/// A number in `count` octets, the least significant first.
pub open spec fn le_octets(n: nat, count: nat) -> Seq<u8>
    decreases count,
{
    if count == 0 {
        Seq::empty()
    } else {
        seq![(n % 256) as u8] + le_octets(n / 256, (count - 1) as nat)
    }
}

/// How many numbers `count` octets write.
spec fn le_range(count: nat) -> nat
    decreases count,
{
    if count == 0 {
        1
    } else {
        256 * le_range((count - 1) as nat)
    }
}

/// Eight octets write the numbers that a `u64` holds.
proof fn lemma_le_range_8()
    ensures
        le_range(8) == u64::MAX + 1,
{
    reveal_with_fuel(le_range, 9);
}

/// Octets write a number in their range.
proof fn lemma_le_value_bound(s: Seq<u8>)
    ensures
        le_value(s) < le_range(s.len()),
    decreases s.len(),
{
    if s.len() > 0 {
        lemma_le_value_bound(s.skip(1));
    }
}

/// Writing a number and reading it gives it back.
proof fn lemma_le_round_trip(n: nat, count: nat)
    requires
        n < le_range(count),
    ensures
        le_octets(n, count).len() == count,
        le_value(le_octets(n, count)) == n,
    decreases count,
{
    if count > 0 {
        lemma_le_round_trip(n / 256, (count - 1) as nat);
        assert(le_octets(n, count).skip(1) =~= le_octets(n / 256, (count - 1) as nat));
    }
}

/// The whole seconds from the epoch to a moment, and none where it comes
/// before the epoch. Held at `u64::MAX`.
pub open spec fn secs_since_epoch(t: WallTime) -> u64 {
    if t.before {
        0
    } else if t.offset.nanos / 1_000_000_000 <= u64::MAX {
        (t.offset.nanos / 1_000_000_000) as u64
    } else {
        u64::MAX
    }
}

/// The moment that comes `secs` seconds after the epoch.
pub open spec fn epoch_plus(secs: u64) -> WallTime {
    WallTime { before: false, offset: secs_of(secs) }
}

/// The entry with an expiry so many seconds after the epoch.
pub open spec fn entry_at(secs: u64, persist: bool) -> EntryView {
    EntryView { expires_at: epoch_plus(secs), persist }
}

/// An [`Entry`] as a mathematical value.
pub struct EntryView {
    pub expires_at: WallTime,
    pub persist: bool,
}

impl View for Entry {
    type V = EntryView;

    closed spec fn view(&self) -> EntryView {
        EntryView { expires_at: self.expires_at, persist: self.persist }
    }
}

/// An optional entry as a mathematical value.
pub open spec fn opt_entry(e: Option<Entry>) -> Option<EntryView> {
    match e {
        Some(e) => Some(e@),
        None => None,
    }
}

impl Entry {
    /// An advertisement that is believed until `expires_at`.
    pub fn new(expires_at: WallTime, persist: bool) -> (r: Self)
        ensures
            r@ == (EntryView { expires_at, persist }),
    {
        Entry { expires_at, persist }
    }

    /// From when on it is no longer believed.
    pub fn expires_at(&self) -> (r: WallTime)
        ensures
            r == self@.expires_at,
    {
        self.expires_at
    }

    /// Whether it outlives a change of network.
    pub fn persist(&self) -> (r: bool)
        ensures
            r == self@.persist,
    {
        self.persist
    }
}

/// `web_time::SystemTime::checked_add`, on the epoch: whether the machine's
/// clock can represent the moment so many seconds after it. It can represent
/// the epoch itself, which is one of its moments. Nothing is claimed of any
/// later moment, because how far a clock reaches differs between machines.
#[verifier::external_body]
fn clock_reaches(secs: u64) -> (r: bool)
    ensures
        secs == 0 ==> r,
{
    web_time::SystemTime::UNIX_EPOCH.checked_add(std::time::Duration::from_secs(secs)).is_some()
}

/// What is stored for an entry: its expiry in whole seconds after the epoch.
pub fn encode(entry: Entry) -> (r: Vec<u8>)
    ensures
        r@ == le_octets(secs_since_epoch(entry@.expires_at) as nat, 8),
{
    let secs: u64 = if entry.expires_at.before {
        0
    } else {
        entry.expires_at.offset.as_secs()
    };
    let mut out: Vec<u8> = Vec::new();
    let mut n: u64 = secs;
    let mut i: usize = 0;
    assert(out@ + le_octets(n as nat, 8) =~= le_octets(n as nat, 8));
    while i < 8
        invariant
            i <= 8,
            out@ + le_octets(n as nat, (8 - i) as nat) == le_octets(secs as nat, 8),
        decreases 8 - i,
    {
        let low: u8 = (n % 256) as u8;
        proof {
            let more = le_octets((n / 256) as nat, (7 - i) as nat);
            assert(out@ + (seq![low] + more) =~= out@.push(low) + more);
        }
        out.push(low);
        n = n / 256;
        i = i + 1;
    }
    assert(out@ + Seq::<u8>::empty() =~= out@);
    out
}

/// The seconds that stored octets write, where there are eight of them.
pub fn stored_secs(octets: &[u8]) -> (r: Option<u64>)
    ensures
        octets@.len() == 8 ==> r == Some(le_value(octets@) as u64) && le_value(octets@) <= u64::MAX,
        octets@.len() != 8 ==> r is None,
{
    if octets.len() != 8 {
        return None;
    }
    let mut n: u64 = 0;
    let mut i: usize = 8;
    proof {
        lemma_le_range_8();
        lemma_le_value_bound(octets@);
        assert(octets@.skip(8).len() == 0);
    }
    while i > 0
        invariant
            i <= 8,
            octets@.len() == 8,
            n == le_value(octets@.skip(i as int)),
        decreases i,
    {
        i = i - 1;
        proof {
            let from = octets@.skip(i as int);
            assert(from.skip(1) =~= octets@.skip(i + 1));
            lemma_le_value_bound(from);
            reveal_with_fuel(le_range, 9);
            assert(le_value(from) == octets@[i as int] + 256 * n);
        }
        n = 256 * n + octets[i] as u64;
    }
    assert(octets@.skip(0) =~= octets@);
    Some(n)
}

/// The entry that expires so many seconds after the epoch, where the clock
/// can represent that moment.
pub fn entry_if(secs: u64, reached: bool, persist: bool) -> (r: Option<Entry>)
    ensures
        opt_entry(r) == if reached {
            Some(entry_at(secs, persist))
        } else {
            None
        },
{
    if reached {
        Some(
            Entry {
                expires_at: WallTime { before: false, offset: Duration::from_secs(secs) },
                persist,
            },
        )
    } else {
        None
    }
}

/// Whether reading stored octets may give this entry: one expiry where there
/// are eight octets and the clock can represent what they say, and nothing
/// otherwise. Every clock can represent the epoch, so an expiry at the epoch
/// is always read; so is one before it, which is stored as the epoch.
pub open spec fn may_decode(octets: Seq<u8>, persist: bool, r: Option<EntryView>) -> bool {
    if octets.len() == 8 {
        ||| r == Some(entry_at(le_value(octets) as u64, persist))
        ||| r is None && le_value(octets) != 0
    } else {
        r is None
    }
}

/// The entry that stored octets hold. `persist` is what the namespace they
/// came out of says.
pub fn decode(octets: &[u8], persist: bool) -> (r: Option<Entry>)
    ensures
        may_decode(octets@, persist, opt_entry(r)),
{
    match stored_secs(octets) {
        Some(secs) => entry_if(secs, clock_reaches(secs), persist),
        None => None,
    }
}

// ---------------------------------------------------------------------------
// Asking and writing
// ---------------------------------------------------------------------------

/// Advertisements kept in a store of octets under names.
#[derive(Debug, Clone, Default)]
pub struct KvStore<K> {
    kv: K,
}

/// One write that is still to come.
#[derive(Debug)]
pub enum Step {
    /// Forget what stands under the key.
    Remove { ns: &'static str, key: String },
    /// Put one value under the key.
    Put { ns: &'static str, key: String, value: Vec<u8>, expires: WallTime },
}

/// The write that is under way.
#[derive(Debug)]
pub enum Running {
    /// One of the steps.
    Step(Step),
    /// Forget a whole namespace.
    Clear { ns: &'static str },
}

/// A write as a mathematical value.
pub enum Write {
    Remove { ns: Seq<char>, key: Seq<char> },
    Put { ns: Seq<char>, key: Seq<char>, value: Seq<u8>, expires: WallTime },
    Clear { ns: Seq<char> },
}

impl View for Step {
    type V = Write;

    open spec fn view(&self) -> Write {
        match *self {
            Step::Remove { ns, key } => Write::Remove { ns: ns@, key: key@ },
            Step::Put { ns, key, value, expires } => Write::Put {
                ns: ns@,
                key: key@,
                value: value@,
                expires,
            },
        }
    }
}

impl View for Running {
    type V = Write;

    open spec fn view(&self) -> Write {
        match *self {
            Running::Step(s) => s@,
            Running::Clear { ns } => Write::Clear { ns: ns@ },
        }
    }
}

/// A write in several steps. The first is under way, the rest follow in order,
/// each once the one before it is done.
#[derive(Debug)]
pub struct Done {
    pub running: Running,
    pub rest: Vec<Step>,
}

impl View for Done {
    type V = Seq<Write>;

    /// All the writes from the one under way on.
    open spec fn view(&self) -> Seq<Write> {
        seq![self.running@] + self.rest@.map_values(|s: Step| s@)
    }
}

impl Done {
    /// The write under way is done: start the next one, or say that there is
    /// none.
    pub fn advance(&mut self) -> (more: bool)
        ensures
            more == (old(self)@.len() > 1),
            more ==> final(self)@ == old(self)@.skip(1),
            !more ==> *final(self) == *old(self),
    {
        if self.rest.len() == 0 {
            return false;
        }
        let ghost before = self@;
        let ghost rest = self.rest@;
        let next = self.rest.remove(0);
        self.running = Running::Step(next);
        assert(self@ =~= before.skip(1)) by {
            assert(self.rest@ =~= rest.skip(1));
            assert(before[1] == rest[0]@);
        }
        true
    }
}

/// What is asked of the store.
#[derive(Debug)]
pub struct Query {
    pub ns: &'static str,
    pub key: String,
}

/// A lookup: first what persists, then what does not.
#[derive(Debug)]
pub enum Get {
    /// Waiting for the values in [`PERSISTENT`]; the key is kept for the
    /// question after it.
    Persistent { key: String },
    /// Waiting for the values in [`VOLATILE`].
    Volatile,
}

/// What follows an answer.
#[derive(Debug)]
pub enum GetStep {
    /// The lookup is over.
    Ready(Option<Entry>),
    /// Ask this next, and hand the answer to the lookup.
    Ask(Query, Get),
}

/// The first value that could be read.
pub open spec fn first_some(vs: Seq<Option<EntryView>>) -> Option<EntryView>
    decreases vs.len(),
{
    if vs.len() == 0 {
        None
    } else if vs[0] is Some {
        vs[0]
    } else {
        first_some(vs.skip(1))
    }
}

/// Optional entries as mathematical values.
pub open spec fn opt_entries(vs: Seq<Option<Entry>>) -> Seq<Option<EntryView>> {
    vs.map_values(|e: Option<Entry>| opt_entry(e))
}

/// What follows, given what could be read of the answer's values.
pub open spec fn follows(get: Get, read: Seq<Option<EntryView>>, r: GetStep) -> bool {
    match get {
        Get::Persistent { key } => if first_some(read) is Some {
            r matches GetStep::Ready(e) && opt_entry(e) == first_some(read)
        } else {
            r matches GetStep::Ask(q, next) && q.ns@ == VOLATILE@ && q.key@ == key@
                && next == Get::Volatile
        },
        Get::Volatile => r matches GetStep::Ready(e) && opt_entry(e) == first_some(read),
    }
}

impl Get {
    /// What follows, given what could be read of the answer's values.
    pub fn settle(self, read: &Vec<Option<Entry>>) -> (r: GetStep)
        ensures
            follows(self, opt_entries(read@), r),
    {
        let ghost all = opt_entries(read@);
        let mut i: usize = 0;
        assert(all.skip(0) =~= all);
        while i < read.len()
            invariant
                i <= read@.len(),
                all == opt_entries(read@),
                first_some(all.skip(i as int)) == first_some(all),
            decreases read@.len() - i,
        {
            assert(all.skip(i as int)[0] == opt_entry(read@[i as int]));
            assert(all.skip(i as int).skip(1) =~= all.skip(i + 1));
            if let Some(e) = read[i] {
                return GetStep::Ready(Some(e));
            }
            i = i + 1;
        }
        match self {
            Get::Persistent { key } => GetStep::Ask(Query { ns: VOLATILE, key }, Get::Volatile),
            Get::Volatile => GetStep::Ready(None),
        }
    }

    /// The store answered with these values. Which of them can be read is the
    /// clock's to say; what follows from that is [`Get::settle`]'s.
    pub fn poll(self, found: &Vec<Vec<u8>>) -> (r: GetStep)
        ensures
            exists|read: Seq<Option<EntryView>>|
                #![trigger follows(self, read, r)]
                read.len() == found@.len() && (forall|i: int|
                    0 <= i < read.len() ==> may_decode(
                        found@[i]@,
                        self is Persistent,
                        #[trigger] read[i],
                    )) && follows(self, read, r),
    {
        let persist = match &self {
            Get::Persistent { .. } => true,
            Get::Volatile => false,
        };
        let mut read: Vec<Option<Entry>> = Vec::new();
        let mut i: usize = 0;
        while i < found.len()
            invariant
                i <= found@.len(),
                read@.len() == i,
                persist == (self is Persistent),
                forall|j: int|
                    0 <= j < i ==> may_decode(
                        found@[j]@,
                        self is Persistent,
                        opt_entry(#[trigger] read@[j]),
                    ),
            decreases found@.len() - i,
        {
            read.push(decode(found[i].as_slice(), persist));
            i = i + 1;
        }
        let ghost views = opt_entries(read@);
        let r = self.settle(&read);
        assert(follows(self, views, r));
        r
    }
}

/// The writes that store an entry: the origin leaves the other namespace, then
/// this one, and then the one value goes in.
pub open spec fn put_writes(origin: OriginView, entry: EntryView) -> Seq<Write> {
    let key = key_of(origin);
    let (write_to, clear_from) = if entry.persist {
        (PERSISTENT@, VOLATILE@)
    } else {
        (VOLATILE@, PERSISTENT@)
    };
    seq![
        Write::Remove { ns: clear_from, key },
        Write::Remove { ns: write_to, key },
        Write::Put {
            ns: write_to,
            key,
            value: le_octets(secs_since_epoch(entry.expires_at) as nat, 8),
            expires: entry.expires_at,
        },
    ]
}

/// The writes that forget an origin: it leaves both namespaces.
pub open spec fn remove_writes(origin: OriginView) -> Seq<Write> {
    seq![
        Write::Remove { ns: VOLATILE@, key: key_of(origin) },
        Write::Remove { ns: PERSISTENT@, key: key_of(origin) },
    ]
}

/// The write that a change of network asks for.
pub open spec fn retain_writes() -> Seq<Write> {
    seq![Write::Clear { ns: VOLATILE@ }]
}

impl<K> KvStore<K> {
    /// The store that is written to.
    pub closed spec fn store(self) -> K {
        self.kv
    }

    /// Keep advertisements in `kv`.
    pub fn new(kv: K) -> (r: Self)
        ensures
            r.store() == kv,
    {
        KvStore { kv }
    }

    /// The store that is written to.
    pub fn inner(&self) -> (r: &K)
        ensures
            *r == self.store(),
    {
        &self.kv
    }

    /// Look an origin up: the first question, and the lookup that takes its
    /// answer.
    pub fn get(&self, origin: &Origin) -> (r: (Query, Get))
        ensures
            r.0.ns@ == PERSISTENT@,
            r.0.key@ == key_of(origin@),
            r.1 matches Get::Persistent { key } && key@ == key_of(origin@),
    {
        let key = key_for(origin);
        (Query { ns: PERSISTENT, key: key.clone() }, Get::Persistent { key })
    }

    /// Store an entry for an origin, in place of what stood there.
    pub fn put(&self, origin: &Origin, entry: Entry) -> (r: Done)
        ensures
            r@ == put_writes(origin@, entry@),
    {
        let key = key_for(origin);
        let persist = entry.persist();
        let write_to: &'static str = if persist {
            PERSISTENT
        } else {
            VOLATILE
        };
        let clear_from: &'static str = if persist {
            VOLATILE
        } else {
            PERSISTENT
        };
        let mut rest: Vec<Step> = Vec::new();
        rest.push(Step::Remove { ns: write_to, key: key.clone() });
        rest.push(
            Step::Put {
                ns: write_to,
                key: key.clone(),
                value: encode(entry),
                expires: entry.expires_at(),
            },
        );
        let r = Done { running: Running::Step(Step::Remove { ns: clear_from, key }), rest };
        assert(r@ =~= put_writes(origin@, entry@));
        r
    }

    /// Forget an origin.
    pub fn remove(&self, origin: &Origin) -> (r: Done)
        ensures
            r@ == remove_writes(origin@),
    {
        let key = key_for(origin);
        let mut rest: Vec<Step> = Vec::new();
        rest.push(Step::Remove { ns: PERSISTENT, key: key.clone() });
        let r = Done { running: Running::Step(Step::Remove { ns: VOLATILE, key }), rest };
        assert(r@ =~= remove_writes(origin@));
        r
    }

    /// The network changed: forget what does not outlive that.
    pub fn retain_persistent(&self) -> (r: Done)
        ensures
            r@ == retain_writes(),
    {
        let r = Done { running: Running::Clear { ns: VOLATILE }, rest: Vec::new() };
        assert(r@ =~= retain_writes());
        r
    }
}

// ---------------------------------------------------------------------------
// What holds of it all
// ---------------------------------------------------------------------------

/// What a store holds: the values under each namespace and key.
pub type Shelves = Map<(Seq<char>, Seq<char>), Seq<Seq<u8>>>;

/// The values under a namespace and key.
pub open spec fn values_at(store: Shelves, ns: Seq<char>, key: Seq<char>) -> Seq<Seq<u8>> {
    if store.contains_key((ns, key)) {
        store[(ns, key)]
    } else {
        Seq::empty()
    }
}

/// A store after one write, where putting adds a value to those that stand
/// there. A store may drop a value that has expired; every question is put as
/// of the epoch, so this is a store of values that expire after that.
pub open spec fn written(store: Shelves, w: Write) -> Shelves {
    match w {
        Write::Remove { ns, key } => store.remove((ns, key)),
        Write::Put { ns, key, value, expires } => store.insert(
            (ns, key),
            values_at(store, ns, key).push(value),
        ),
        Write::Clear { ns } => Map::new(
            |at: (Seq<char>, Seq<char>)| store.contains_key(at) && at.0 != ns,
            |at: (Seq<char>, Seq<char>)| store[at],
        ),
    }
}

/// A store after several writes.
pub open spec fn all_written(store: Shelves, ws: Seq<Write>) -> Shelves
    decreases ws.len(),
{
    if ws.len() == 0 {
        store
    } else {
        written(all_written(store, ws.drop_last()), ws.last())
    }
}

/// What can be read of stored values on a clock that represents `reached`.
pub open spec fn readable(
    values: Seq<Seq<u8>>,
    persist: bool,
    reached: spec_fn(u64) -> bool,
) -> Seq<Option<EntryView>> {
    values.map_values(
        |v: Seq<u8>|
            if v.len() == 8 && reached(le_value(v) as u64) {
                Some(entry_at(le_value(v) as u64, persist))
            } else {
                None
            },
    )
}

/// What a lookup of an origin finds: the first readable value that persists,
/// else the first readable one that does not.
pub open spec fn found(
    store: Shelves,
    origin: OriginView,
    reached: spec_fn(u64) -> bool,
) -> Option<EntryView> {
    let key = key_of(origin);
    let persistent = first_some(readable(values_at(store, PERSISTENT@, key), true, reached));
    if persistent is Some {
        persistent
    } else {
        first_some(readable(values_at(store, VOLATILE@, key), false, reached))
    }
}

/// The two namespaces are two.
proof fn lemma_namespaces_differ()
    ensures
        VOLATILE@ != PERSISTENT@,
{
    reveal_strlit("altsvc");
    reveal_strlit("altsvc-persist");
    assert(VOLATILE@.len() != PERSISTENT@.len());
}

/// Three writes, one after the other.
proof fn lemma_three_writes(store: Shelves, a: Write, b: Write, c: Write)
    ensures
        all_written(store, seq![a, b, c]) == written(written(written(store, a), b), c),
{
    reveal_with_fuel(all_written, 4);
    assert(seq![a, b, c].drop_last() =~= seq![a, b]);
    assert(seq![a, b].drop_last() =~= seq![a]);
    assert(seq![a].drop_last() =~= Seq::<Write>::empty());
}

/// Two writes, one after the other.
proof fn lemma_two_writes(store: Shelves, a: Write, b: Write)
    ensures
        all_written(store, seq![a, b]) == written(written(store, a), b),
{
    reveal_with_fuel(all_written, 3);
    assert(seq![a, b].drop_last() =~= seq![a]);
    assert(seq![a].drop_last() =~= Seq::<Write>::empty());
}

/// One write.
proof fn lemma_one_write(store: Shelves, a: Write)
    ensures
        all_written(store, seq![a]) == written(store, a),
{
    reveal_with_fuel(all_written, 2);
    assert(seq![a].drop_last() =~= Seq::<Write>::empty());
}

/// What one value alone says.
proof fn lemma_first_of_one(v: Seq<u8>, persist: bool, reached: spec_fn(u64) -> bool)
    ensures
        first_some(readable(seq![v], persist, reached)) == readable(seq![v], persist, reached)[0],
        first_some(readable(Seq::empty(), persist, reached)) is None,
{
    reveal_with_fuel(first_some, 2);
    let vs = readable(seq![v], persist, reached);
    if vs[0] is None {
        assert(vs.skip(1).len() == 0);
    }
}

/// A lookup after a store gives back what was stored, to the second, whatever
/// the store held before and whichever namespace held it.
pub proof fn law_get_gives_back_what_put_stored(
    store: Shelves,
    origin: OriginView,
    entry: EntryView,
    reached: spec_fn(u64) -> bool,
)
    requires
        reached(secs_since_epoch(entry.expires_at)),
    ensures
        found(all_written(store, put_writes(origin, entry)), origin, reached) == Some(
            entry_at(secs_since_epoch(entry.expires_at), entry.persist),
        ),
{
    lemma_namespaces_differ();
    let secs = secs_since_epoch(entry.expires_at);
    let value = le_octets(secs as nat, 8);
    lemma_le_range_8();
    lemma_le_round_trip(secs as nat, 8);
    let ws = put_writes(origin, entry);
    let key = key_of(origin);
    lemma_three_writes(store, ws[0], ws[1], ws[2]);
    assert(ws =~= seq![ws[0], ws[1], ws[2]]);
    let after = all_written(store, ws);
    let (write_to, clear_from) = if entry.persist {
        (PERSISTENT@, VOLATILE@)
    } else {
        (VOLATILE@, PERSISTENT@)
    };
    assert(values_at(after, write_to, key) =~= seq![value]);
    assert(values_at(after, clear_from, key) =~= Seq::<Seq<u8>>::empty());
    lemma_first_of_one(value, entry.persist, reached);
    lemma_first_of_one(value, true, reached);
}

/// An expiry of whole seconds at or after the epoch is given back exactly.
pub proof fn law_whole_seconds_survive(secs: u64, persist: bool)
    ensures
        entry_at(secs_since_epoch(epoch_plus(secs)), persist) == entry_at(secs, persist),
        le_octets(secs as nat, 8).len() == 8,
        le_value(le_octets(secs as nat, 8)) == secs,
{
    lemma_le_range_8();
    lemma_le_round_trip(secs as nat, 8);
    assert(secs * 1_000_000_000 / 1_000_000_000 == secs);
}

/// Storing for one key leaves what another key's lookup finds as it was.
pub proof fn law_put_leaves_other_keys(
    store: Shelves,
    origin: OriginView,
    other: OriginView,
    entry: EntryView,
    reached: spec_fn(u64) -> bool,
)
    requires
        key_of(origin) != key_of(other),
    ensures
        found(all_written(store, put_writes(origin, entry)), other, reached) == found(
            store,
            other,
            reached,
        ),
{
    let ws = put_writes(origin, entry);
    lemma_three_writes(store, ws[0], ws[1], ws[2]);
    assert(ws =~= seq![ws[0], ws[1], ws[2]]);
}

/// A stored origin is in the one namespace that its entry names: changing
/// `persist` moves it.
pub proof fn law_put_leaves_one_namespace(store: Shelves, origin: OriginView, entry: EntryView)
    ensures
        ({
            let after = all_written(store, put_writes(origin, entry));
            let key = key_of(origin);
            &&& entry.persist ==> values_at(after, VOLATILE@, key).len() == 0 && values_at(
                after,
                PERSISTENT@,
                key,
            ).len() == 1
            &&& !entry.persist ==> values_at(after, PERSISTENT@, key).len() == 0 && values_at(
                after,
                VOLATILE@,
                key,
            ).len() == 1
        }),
{
    lemma_namespaces_differ();
    let ws = put_writes(origin, entry);
    lemma_three_writes(store, ws[0], ws[1], ws[2]);
    assert(ws =~= seq![ws[0], ws[1], ws[2]]);
}

/// A removed origin is not found, whichever namespace held it.
pub proof fn law_remove_forgets(
    store: Shelves,
    origin: OriginView,
    reached: spec_fn(u64) -> bool,
)
    ensures
        found(all_written(store, remove_writes(origin)), origin, reached) is None,
{
    let ws = remove_writes(origin);
    lemma_two_writes(store, ws[0], ws[1]);
    assert(ws =~= seq![ws[0], ws[1]]);
    let after = all_written(store, ws);
    let key = key_of(origin);
    assert(values_at(after, VOLATILE@, key) =~= Seq::<Seq<u8>>::empty());
    assert(values_at(after, PERSISTENT@, key) =~= Seq::<Seq<u8>>::empty());
    lemma_first_of_one(Seq::empty(), true, reached);
    lemma_first_of_one(Seq::empty(), false, reached);
}

/// Removing one key leaves what another key's lookup finds as it was.
pub proof fn law_remove_leaves_other_keys(
    store: Shelves,
    origin: OriginView,
    other: OriginView,
    reached: spec_fn(u64) -> bool,
)
    requires
        key_of(origin) != key_of(other),
    ensures
        found(all_written(store, remove_writes(origin)), other, reached) == found(
            store,
            other,
            reached,
        ),
{
    lemma_after_remove(store, origin, PERSISTENT@, key_of(other));
    lemma_after_remove(store, origin, VOLATILE@, key_of(other));
}

/// A change of network leaves what persists, takes the rest of the
/// advertisements, and touches no other namespace.
pub proof fn law_retain_persistent(
    store: Shelves,
    origin: OriginView,
    ns: Seq<char>,
    key: Seq<char>,
    reached: spec_fn(u64) -> bool,
)
    ensures
        ({
            let after = all_written(store, retain_writes());
            &&& found(after, origin, reached) == first_some(
                readable(values_at(store, PERSISTENT@, key_of(origin)), true, reached),
            )
            &&& ns != VOLATILE@ ==> values_at(after, ns, key) == values_at(store, ns, key)
        }),
{
    lemma_namespaces_differ();
    let ws = retain_writes();
    lemma_one_write(store, ws[0]);
    assert(ws =~= seq![ws[0]]);
    let after = all_written(store, ws);
    assert(values_at(after, VOLATILE@, key_of(origin)) =~= Seq::<Seq<u8>>::empty());
    lemma_first_of_one(Seq::empty(), false, reached);
}

/// Where a key's port starts is where its last U+0001 stands.
proof fn lemma_key_parts(h1: Seq<char>, p1: nat, h2: Seq<char>, p2: nat)
    requires
        h1.push('\u{1}') + decimal(p1) == h2.push('\u{1}') + decimal(p2),
    ensures
        h1 == h2,
        p1 == p2,
{
    let k1 = h1.push('\u{1}') + decimal(p1);
    let k2 = h2.push('\u{1}') + decimal(p2);
    lemma_decimal_digits(p1);
    lemma_decimal_digits(p2);
    assert(k1[h1.len() as int] == '\u{1}');
    assert(k2[h2.len() as int] == '\u{1}');
    assert(k1.len() == h1.len() + 1 + decimal(p1).len());
    assert(k2.len() == h2.len() + 1 + decimal(p2).len());
    assert(k1 == k2);
    if h1.len() < h2.len() {
        assert(k1[h2.len() as int] == decimal(p1)[h2.len() - h1.len() - 1]);
    }
    if h2.len() < h1.len() {
        assert(k2[h1.len() as int] == decimal(p2)[h1.len() - h2.len() - 1]);
    }
    assert(h1 =~= k1.take(h1.len() as int));
    assert(h2 =~= k2.take(h2.len() as int));
    assert(decimal(p1) =~= k1.skip(h1.len() as int + 1));
    assert(decimal(p2) =~= k2.skip(h2.len() as int + 1));
    lemma_decimal_injective(p1, p2);
}

/// One host on two ports is two keys, and two addresses are two keys.
pub proof fn law_addresses_and_ports_do_not_collide(a: OriginView, b: OriginView)
    requires
        key_of(a) == key_of(b),
    ensures
        a.port == b.port,
        ip_literal(a.host) && ip_literal(b.host) ==> a == b,
{
    lemma_key_parts(key_host(a.host), a.port as nat, key_host(b.host), b.port as nat);
}

/// A host that does not end in a dot, or is an address with a colon.
pub open spec fn ends_in_a_label(host: Seq<char>) -> bool {
    host.contains(':') || host.len() == 0 || host.last() != '.'
}

/// The labels with dots between them.
spec fn joined(ls: Seq<Seq<char>>) -> Seq<char>
    decreases ls.len(),
{
    if ls.len() == 0 {
        Seq::empty()
    } else if ls.len() == 1 {
        ls[0]
    } else {
        ls[0].push('.') + joined(ls.skip(1))
    }
}

/// A host has a label, and its labels with dots between them are the host.
proof fn lemma_joined_labels(host: Seq<char>)
    ensures
        labels(host).len() > 0,
        joined(labels(host)) == host,
    decreases host.len(),
{
    host.index_of_first_ensures('.');
    if host.contains('.') {
        let i = host.index_of_first('.')->0;
        let rest = host.skip(i + 1);
        lemma_joined_labels(rest);
        assert(labels(host).skip(1) =~= labels(rest));
        assert(host =~= host.take(i).push('.') + rest);
    }
}

/// No label holds a dot, and what a label holds, the host holds.
proof fn lemma_label_chars(host: Seq<char>, i: int, j: int)
    requires
        0 <= i < labels(host).len(),
        0 <= j < labels(host)[i].len(),
    ensures
        labels(host)[i][j] != '.',
        host.contains(labels(host)[i][j]),
    decreases host.len(),
{
    host.index_of_first_ensures('.');
    if host.contains('.') {
        let at = host.index_of_first('.')->0;
        let rest = host.skip(at + 1);
        if i > 0 {
            lemma_label_chars(rest, i - 1, j);
            assert(labels(host)[i] == labels(rest)[i - 1]);
            let c = labels(host)[i][j];
            let k = choose|k: int| 0 <= k < rest.len() && rest[k] == c;
            assert(host[at + 1 + k] == c);
        } else {
            assert(labels(host)[0] == host.take(at));
            assert(host[j] == labels(host)[0][j]);
        }
    } else {
        assert(labels(host)[0] == host);
        assert(host[j] == labels(host)[0][j]);
    }
}

/// Text without a dot is one label.
proof fn lemma_one_label(l: Seq<char>)
    requires
        !l.contains('.'),
    ensures
        labels(l) == seq![l],
{
    l.index_of_first_ensures('.');
}

/// A dot and a label behind a host add that label.
proof fn lemma_labels_push(s: Seq<char>, l: Seq<char>)
    requires
        !l.contains('.'),
    ensures
        labels(s.push('.') + l) == labels(s).push(l),
    decreases s.len(),
{
    let t = s.push('.') + l;
    assert(t[s.len() as int] == '.');
    t.index_of_first_ensures('.');
    s.index_of_first_ensures('.');
    let at = t.index_of_first('.')->0;
    if s.contains('.') {
        let i = s.index_of_first('.')->0;
        assert(t[i] == '.');
        assert(at == i) by {
            if at < i {
                assert(s[at] == '.');
            }
        }
        let rest = s.skip(i + 1);
        lemma_labels_push(rest, l);
        assert(t.skip(at + 1) =~= rest.push('.') + l);
        assert(t.take(at) =~= s.take(i));
        assert(labels(t) =~= labels(s).push(l));
    } else {
        assert(at == s.len()) by {
            if at < s.len() {
                assert(s[at] == '.');
            }
        }
        assert(t.take(at) =~= s);
        assert(t.skip(at + 1) =~= l);
        lemma_one_label(l);
        assert(labels(t) =~= labels(s).push(l));
    }
}

/// The last label of a host that does not end in a dot holds something.
proof fn lemma_last_label(host: Seq<char>)
    requires
        host.len() > 0,
        host.last() != '.',
    ensures
        labels(host).len() > 0,
        labels(host).last().len() > 0,
    decreases host.len(),
{
    host.index_of_first_ensures('.');
    if host.contains('.') {
        let i = host.index_of_first('.')->0;
        let rest = host.skip(i + 1);
        assert(rest.last() == host.last());
        lemma_last_label(rest);
        assert(labels(host).last() == labels(rest).last());
    }
}

/// The labels of labels joined in reverse are those labels in reverse.
proof fn lemma_joined_back(ls: Seq<Seq<char>>)
    requires
        ls.len() == 1 || ls.len() > 1 && ls.last().len() > 0,
        forall|i: int| 0 <= i < ls.len() ==> !(#[trigger] ls[i]).contains('.'),
    ensures
        ls.last().len() > 0 ==> joined_back(ls).len() > 0,
        labels(joined_back(ls)) == ls.reverse(),
    decreases ls.len(),
{
    let rest = ls.skip(1);
    if rest.len() == 0 {
        assert(joined_back(rest).len() == 0);
        lemma_one_label(ls[0]);
        assert(ls.reverse() =~= seq![ls[0]]);
    } else {
        assert forall|i: int| 0 <= i < rest.len() implies !(#[trigger] rest[i]).contains('.') by {
            assert(rest[i] == ls[i + 1]);
        }
        assert(rest.last() == ls.last());
        lemma_joined_back(rest);
        lemma_labels_push(joined_back(rest), ls[0]);
        assert(ls.reverse() =~= rest.reverse().push(ls[0]));
    }
}

/// What the reverse of some labels holds besides dots, one of them holds.
proof fn lemma_joined_back_chars(ls: Seq<Seq<char>>, c: char) -> (i: int)
    requires
        joined_back(ls).contains(c),
        c != '.',
    ensures
        0 <= i < ls.len(),
        ls[i].contains(c),
    decreases ls.len(),
{
    let rest = ls.skip(1);
    let whole = joined_back(ls);
    let k = choose|k: int| 0 <= k < whole.len() && whole[k] == c;
    let back = joined_back(rest);
    if back.len() == 0 {
        assert(ls[0][k] == c);
        0
    } else if k < back.len() {
        assert(back[k] == c);
        1 + lemma_joined_back_chars(rest, c)
    } else {
        assert(k > back.len());
        assert(ls[0][k - back.len() - 1] == c);
        0
    }
}

/// The key of a name is no address, and its labels are the name's in reverse.
proof fn lemma_name_key(host: Seq<char>)
    requires
        ends_in_a_label(host),
        !ip_literal(host),
    ensures
        labels(key_host(host)) == labels(host).reverse(),
        !ip_literal(key_host(host)),
{
    let ls = labels(host);
    lemma_joined_labels(host);
    host.index_of_first_ensures('.');
    if host.len() > 0 {
        lemma_last_label(host);
    }
    assert forall|i: int| 0 <= i < ls.len() implies !(#[trigger] ls[i]).contains('.') by {
        if ls[i].contains('.') {
            let j = choose|j: int| 0 <= j < ls[i].len() && ls[i][j] == '.';
            lemma_label_chars(host, i, j);
        }
    }
    lemma_joined_back(ls);
    let key = key_host(host);
    if key.contains(':') {
        let i = lemma_joined_back_chars(ls, ':');
        let j = choose|j: int| 0 <= j < ls[i].len() && ls[i][j] == ':';
        lemma_label_chars(host, i, j);
    }
    if ip_literal(key) {
        assert forall|i: int| 0 <= i < ls.len() implies numeric(#[trigger] ls[i]) by {
            assert(labels(key)[ls.len() - 1 - i] == ls[i]);
        }
        assert(numeric(ls[0]));
        lemma_label_chars(host, 0, 0);
    }
}

/// Two origins have two keys, unless the host of one is a name that ends in a
/// dot: that dot leaves no trace in its key.
pub proof fn law_keys_do_not_collide(a: OriginView, b: OriginView)
    requires
        ends_in_a_label(a.host),
        ends_in_a_label(b.host),
        key_of(a) == key_of(b),
    ensures
        a == b,
{
    lemma_key_parts(key_host(a.host), a.port as nat, key_host(b.host), b.port as nat);
    if !ip_literal(a.host) {
        lemma_name_key(a.host);
    }
    if !ip_literal(b.host) {
        lemma_name_key(b.host);
    }
    if !ip_literal(a.host) && !ip_literal(b.host) {
        let la = labels(a.host);
        let lb = labels(b.host);
        assert(la =~= la.reverse().reverse());
        assert(lb =~= lb.reverse().reverse());
        lemma_joined_labels(a.host);
        lemma_joined_labels(b.host);
    }
}

// ---------------------------------------------------------------------------
// One write after another
// ---------------------------------------------------------------------------

/// A call that changes what is stored.
pub enum Call {
    Put { origin: OriginView, entry: EntryView },
    Remove { origin: OriginView },
    RetainPersistent,
}

/// The writes of a call.
pub open spec fn writes_of(c: Call) -> Seq<Write> {
    match c {
        Call::Put { origin, entry } => put_writes(origin, entry),
        Call::Remove { origin } => remove_writes(origin),
        Call::RetainPersistent => retain_writes(),
    }
}

/// A store behind calls that have all run to their end.
pub open spec fn stored_by(store: Shelves, calls: Seq<Call>) -> Shelves
    decreases calls.len(),
{
    if calls.len() == 0 {
        store
    } else {
        all_written(stored_by(store, calls.drop_last()), writes_of(calls.last()))
    }
}

/// Whether a call is about an origin.
pub open spec fn is_about(c: Call, origin: OriginView) -> bool {
    match c {
        Call::Put { origin: o, .. } => o == origin,
        Call::Remove { origin: o } => o == origin,
        Call::RetainPersistent => false,
    }
}

/// Whether a call names no other origin that has an origin's key.
pub open spec fn keeps_apart(c: Call, origin: OriginView) -> bool {
    match c {
        Call::Put { origin: o, .. } => key_of(o) == key_of(origin) ==> o == origin,
        Call::Remove { origin: o } => key_of(o) == key_of(origin) ==> o == origin,
        Call::RetainPersistent => true,
    }
}

/// Whether what the `i`-th call put for an origin still stands: no later call
/// is about the origin, and the entry persists or no change of network came
/// after it.
pub open spec fn stands(calls: Seq<Call>, origin: OriginView, i: int) -> bool {
    &&& 0 <= i < calls.len()
    &&& calls[i] is Put
    &&& is_about(calls[i], origin)
    &&& forall|j: int| i < j < calls.len() ==> !is_about(#[trigger] calls[j], origin)
    &&& calls[i]->entry.persist || forall|j: int|
        i < j < calls.len() ==> !(#[trigger] calls[j] is RetainPersistent)
}

/// The namespace of an entry.
spec fn namespace(persist: bool) -> Seq<char> {
    if persist {
        PERSISTENT@
    } else {
        VOLATILE@
    }
}

/// The value of an entry.
spec fn value_of(entry: EntryView) -> Seq<u8> {
    le_octets(secs_since_epoch(entry.expires_at) as nat, 8)
}

/// Whether a store holds this and nothing else for an origin.
spec fn holds(store: Shelves, origin: OriginView, entry: Option<EntryView>) -> bool {
    let key = key_of(origin);
    match entry {
        Some(e) => values_at(store, namespace(e.persist), key) == seq![value_of(e)] && values_at(
            store,
            namespace(!e.persist),
            key,
        ).len() == 0,
        None => values_at(store, PERSISTENT@, key).len() == 0 && values_at(
            store,
            VOLATILE@,
            key,
        ).len() == 0,
    }
}

/// What stands for an origin behind the calls.
spec fn standing_for(calls: Seq<Call>, origin: OriginView) -> Option<EntryView>
    decreases calls.len(),
{
    if calls.len() == 0 {
        None
    } else {
        let before = standing_for(calls.drop_last(), origin);
        match calls.last() {
            Call::Put { origin: o, entry } => if o == origin {
                Some(entry)
            } else {
                before
            },
            Call::Remove { origin: o } => if o == origin {
                None
            } else {
                before
            },
            Call::RetainPersistent => match before {
                Some(e) => if e.persist {
                    before
                } else {
                    None
                },
                None => None,
            },
        }
    }
}

/// What stands under a namespace and key once an entry was stored.
proof fn lemma_after_put(
    store: Shelves,
    origin: OriginView,
    entry: EntryView,
    ns: Seq<char>,
    key: Seq<char>,
)
    ensures
        values_at(all_written(store, put_writes(origin, entry)), ns, key) == if key != key_of(
            origin,
        ) {
            values_at(store, ns, key)
        } else if ns == namespace(entry.persist) {
            seq![value_of(entry)]
        } else if ns == namespace(!entry.persist) {
            Seq::<Seq<u8>>::empty()
        } else {
            values_at(store, ns, key)
        },
{
    lemma_namespaces_differ();
    let ws = put_writes(origin, entry);
    lemma_three_writes(store, ws[0], ws[1], ws[2]);
    assert(ws =~= seq![ws[0], ws[1], ws[2]]);
    if key == key_of(origin) && ns == namespace(entry.persist) {
        assert(Seq::<Seq<u8>>::empty().push(value_of(entry)) =~= seq![value_of(entry)]);
    }
}

/// What stands under a namespace and key once an origin was removed.
proof fn lemma_after_remove(store: Shelves, origin: OriginView, ns: Seq<char>, key: Seq<char>)
    ensures
        values_at(all_written(store, remove_writes(origin)), ns, key) == if key == key_of(origin)
            && (ns == PERSISTENT@ || ns == VOLATILE@) {
            Seq::<Seq<u8>>::empty()
        } else {
            values_at(store, ns, key)
        },
{
    let ws = remove_writes(origin);
    lemma_two_writes(store, ws[0], ws[1]);
    assert(ws =~= seq![ws[0], ws[1]]);
}

/// What stands under a namespace and key once the network changed.
proof fn lemma_after_retain(store: Shelves, ns: Seq<char>, key: Seq<char>)
    ensures
        values_at(all_written(store, retain_writes()), ns, key) == if ns == VOLATILE@ {
            Seq::<Seq<u8>>::empty()
        } else {
            values_at(store, ns, key)
        },
{
    let ws = retain_writes();
    lemma_one_write(store, ws[0]);
    assert(ws =~= seq![ws[0]]);
}

/// The store holds for an origin what stands for it.
proof fn lemma_holds_what_stands(store: Shelves, calls: Seq<Call>, origin: OriginView)
    requires
        forall|i: int| 0 <= i < calls.len() ==> keeps_apart(#[trigger] calls[i], origin),
        holds(store, origin, None),
    ensures
        holds(stored_by(store, calls), origin, standing_for(calls, origin)),
    decreases calls.len(),
{
    if calls.len() > 0 {
        let before = calls.drop_last();
        assert forall|i: int| 0 <= i < before.len() implies keeps_apart(
            #[trigger] before[i],
            origin,
        ) by {
            assert(before[i] == calls[i]);
        }
        lemma_holds_what_stands(store, before, origin);
        lemma_namespaces_differ();
        let mid = stored_by(store, before);
        let key = key_of(origin);
        assert(keeps_apart(calls[calls.len() - 1], origin));
        match calls.last() {
            Call::Put { origin: o, entry } => {
                lemma_after_put(mid, o, entry, PERSISTENT@, key);
                lemma_after_put(mid, o, entry, VOLATILE@, key);
            },
            Call::Remove { origin: o } => {
                lemma_after_remove(mid, o, PERSISTENT@, key);
                lemma_after_remove(mid, o, VOLATILE@, key);
            },
            Call::RetainPersistent => {
                lemma_after_retain(mid, PERSISTENT@, key);
                lemma_after_retain(mid, VOLATILE@, key);
            },
        }
    }
}

/// What stands for an origin is what the one call put that still stands.
proof fn lemma_one_call_stands(calls: Seq<Call>, origin: OriginView)
    ensures
        forall|i: int| #[trigger]
            stands(calls, origin, i) ==> standing_for(calls, origin) == Some(calls[i]->entry),
        standing_for(calls, origin) is Some ==> exists|i: int| #[trigger] stands(calls, origin, i),
    decreases calls.len(),
{
    if calls.len() > 0 {
        let before = calls.drop_last();
        let n = calls.len() - 1;
        lemma_one_call_stands(before, origin);
        assert forall|i: int| #[trigger] stands(calls, origin, i) implies standing_for(
            calls,
            origin,
        ) == Some(calls[i]->entry) by {
            if i < n {
                assert(!is_about(calls[n], origin));
                assert forall|j: int| i < j < before.len() implies !is_about(
                    #[trigger] before[j],
                    origin,
                ) by {
                    assert(before[j] == calls[j]);
                }
                if !calls[i]->entry.persist {
                    assert(!(calls[n] is RetainPersistent));
                    assert forall|j: int| i < j < before.len() implies !(
                    #[trigger] before[j] is RetainPersistent) by {
                        assert(before[j] == calls[j]);
                    }
                }
                assert(before[i] == calls[i]);
                assert(stands(before, origin, i));
            }
        }
        if standing_for(calls, origin) is Some {
            if calls.last() is Put && is_about(calls.last(), origin) {
                assert(stands(calls, origin, n));
            } else {
                let i = choose|i: int| #[trigger] stands(before, origin, i);
                assert(standing_for(before, origin) == Some(before[i]->entry));
                assert(before[i] == calls[i]);
                assert forall|j: int| i < j < calls.len() implies !is_about(
                    #[trigger] calls[j],
                    origin,
                ) by {
                    if j < n {
                        assert(before[j] == calls[j]);
                    }
                }
                if !calls[i]->entry.persist {
                    assert forall|j: int| i < j < calls.len() implies !(
                    #[trigger] calls[j] is RetainPersistent) by {
                        if j < n {
                            assert(before[j] == calls[j]);
                        }
                    }
                }
                assert(stands(calls, origin, i));
            }
        }
    }
}

/// Whatever was put, removed and retained, and in whatever order, a lookup
/// finds what the last call about the origin put, to the second, unless that
/// call removed it, a change of network took it, or the clock does not reach
/// it; and nothing older ever comes back. So it is where no call names another
/// origin with the same key, which [`law_keys_do_not_collide`] says of all but
/// names that end in a dot.
pub proof fn law_a_lookup_finds_what_stands(
    store: Shelves,
    calls: Seq<Call>,
    origin: OriginView,
    reached: spec_fn(u64) -> bool,
)
    requires
        values_at(store, PERSISTENT@, key_of(origin)).len() == 0,
        values_at(store, VOLATILE@, key_of(origin)).len() == 0,
        forall|i: int| 0 <= i < calls.len() ==> keeps_apart(#[trigger] calls[i], origin),
    ensures
        ({
            let after = found(stored_by(store, calls), origin, reached);
            &&& forall|i: int| #[trigger]
                stands(calls, origin, i) ==> after == if reached(
                    secs_since_epoch(calls[i]->entry.expires_at),
                ) {
                    Some(
                        entry_at(
                            secs_since_epoch(calls[i]->entry.expires_at),
                            calls[i]->entry.persist,
                        ),
                    )
                } else {
                    None
                }
            &&& forall|i: int, secs: u64|
                #![trigger stands(calls, origin, i), epoch_plus(secs)]
                stands(calls, origin, i) && calls[i]->entry.expires_at == epoch_plus(secs)
                    && reached(secs) ==> after == Some(calls[i]->entry)
            &&& after is Some ==> exists|i: int| #[trigger] stands(calls, origin, i)
        }),
{
    lemma_namespaces_differ();
    lemma_holds_what_stands(store, calls, origin);
    lemma_one_call_stands(calls, origin);
    let last = stored_by(store, calls);
    let after = found(last, origin, reached);
    let key = key_of(origin);
    lemma_first_of_one(Seq::empty(), true, reached);
    lemma_first_of_one(Seq::empty(), false, reached);
    match standing_for(calls, origin) {
        Some(e) => {
            let i = choose|i: int| #[trigger] stands(calls, origin, i);
            assert(calls[i] is Put);
            let secs = secs_since_epoch(e.expires_at);
            lemma_le_range_8();
            lemma_le_round_trip(secs as nat, 8);
            lemma_first_of_one(value_of(e), true, reached);
            lemma_first_of_one(value_of(e), false, reached);
            if !e.persist {
                assert(values_at(last, PERSISTENT@, key) =~= Seq::<Seq<u8>>::empty());
            }
            if e.persist {
                assert(values_at(last, VOLATILE@, key) =~= Seq::<Seq<u8>>::empty());
            }
            assert(after == if reached(secs) {
                Some(entry_at(secs, e.persist))
            } else {
                None
            });
            assert forall|s: u64| e.expires_at == #[trigger] epoch_plus(s) && reached(
                s,
            ) implies after == Some(e) by {
                law_whole_seconds_survive(s, e.persist);
            }
        },
        None => {
            assert(values_at(last, PERSISTENT@, key) =~= Seq::<Seq<u8>>::empty());
            assert(values_at(last, VOLATILE@, key) =~= Seq::<Seq<u8>>::empty());
        },
    }
}

// ---------------------------------------------------------------------------
// Keys and values, piece by piece
// ---------------------------------------------------------------------------

/// A host is cut at its dots, and nowhere else.
pub proof fn law_a_host_is_cut_at_its_dots(a: Seq<char>, b: Seq<char>)
    ensures
        labels(a.push('.') + b) == labels(a) + labels(b),
        !a.contains('.') ==> labels(a) == seq![a],
    decreases a.len(),
{
    let t = a.push('.') + b;
    assert(t[a.len() as int] == '.');
    assert(t.contains('.'));
    t.index_of_first_ensures('.');
    a.index_of_first_ensures('.');
    let at = t.index_of_first('.')->0;
    if a.contains('.') {
        let i = a.index_of_first('.')->0;
        assert(t[i] == '.');
        assert(at == i) by {
            if at < i {
                assert(a[at] == '.');
            }
        }
        let rest = a.skip(i + 1);
        law_a_host_is_cut_at_its_dots(rest, b);
        assert(t.skip(at + 1) =~= rest.push('.') + b);
        assert(t.take(at) =~= a.take(i));
        assert(labels(t) =~= labels(a) + labels(b));
    } else {
        assert(at == a.len()) by {
            if at < a.len() {
                assert(a[at] == '.');
            }
        }
        assert(t.take(at) =~= a);
        assert(t.skip(at + 1) =~= b);
        assert(labels(t) =~= labels(a) + labels(b));
    }
}

/// A name's key has the name's labels in reverse; an address is its own key.
pub proof fn law_a_name_is_reversed(host: Seq<char>)
    ensures
        !ip_literal(host) && ends_in_a_label(host) ==> labels(key_host(host)) == labels(
            host,
        ).reverse(),
        ip_literal(host) ==> key_host(host) == host,
{
    if !ip_literal(host) && ends_in_a_label(host) {
        lemma_name_key(host);
    }
}

/// The names under a domain stand together: the key of each begins with the
/// domain's own.
pub proof fn law_names_under_a_domain_stand_together(label: Seq<char>, domain: Seq<char>)
    requires
        !label.contains('.'),
        !ip_literal(domain),
        !ip_literal(label.push('.') + domain),
        key_host(domain).len() > 0,
    ensures
        key_host(label.push('.') + domain) == key_host(domain).push('.') + label,
{
    law_a_host_is_cut_at_its_dots(label, domain);
    let ls = labels(label.push('.') + domain);
    assert(ls =~= seq![label] + labels(domain));
    assert(ls.skip(1) =~= labels(domain));
    assert(ls[0] == label);
}

/// Whatever has a colon is an address; nothing else is that has a character
/// other than digits and dots, and no empty host is.
pub proof fn law_what_an_address_is(host: Seq<char>, i: int)
    requires
        0 <= i < host.len(),
    ensures
        host[i] == ':' ==> ip_literal(host),
        !host.contains(':') && host[i] != '.' && !('0' <= host[i] <= '9') ==> !ip_literal(host),
        !ip_literal(Seq::empty()),
{
    if !host.contains(':') && host[i] != '.' && !('0' <= host[i] <= '9') {
        lemma_some_label_holds(host, i);
        let k = choose|k: int| 0 <= k < labels(host).len() && (#[trigger] labels(host)[k]).contains(
            host[i],
        );
        let j = choose|j: int| 0 <= j < labels(host)[k].len() && labels(host)[k][j] == host[i];
        assert(!numeric(labels(host)[k])) by {
            assert(labels(host)[k][j] == host[i]);
        }
    }
}

/// What a host holds besides dots, one of its labels holds.
proof fn lemma_some_label_holds(host: Seq<char>, i: int)
    requires
        0 <= i < host.len(),
        host[i] != '.',
    ensures
        exists|k: int|
            0 <= k < labels(host).len() && (#[trigger] labels(host)[k]).contains(host[i]),
    decreases host.len(),
{
    host.index_of_first_ensures('.');
    if host.contains('.') {
        let at = host.index_of_first('.')->0;
        let rest = host.skip(at + 1);
        if i < at {
            assert(labels(host)[0] == host.take(at));
            assert(host.take(at)[i] == host[i]);
        } else {
            assert(rest[i - at - 1] == host[i]);
            lemma_some_label_holds(rest, i - at - 1);
            let k = choose|k: int|
                0 <= k < labels(rest).len() && (#[trigger] labels(rest)[k]).contains(host[i]);
            assert(labels(host)[k + 1] == labels(rest)[k]);
        }
    } else {
        assert(labels(host)[0] == host);
    }
}

/// Seconds are stored in eight octets, the lowest first, and read back.
pub proof fn law_the_lowest_octet_is_first(b: u8, s: Seq<u8>, secs: u64)
    ensures
        le_value(seq![b] + s) == b + 256 * le_value(s),
        le_value(Seq::empty()) == 0,
        le_octets(secs as nat, 8).len() == 8,
        le_octets(secs as nat, 8)[0] == secs % 256,
        le_octets(secs as nat, 8).skip(1) == le_octets((secs / 256) as nat, 7),
        le_value(le_octets(secs as nat, 8)) == secs,
{
    assert((seq![b] + s).skip(1) =~= s);
    lemma_le_range_8();
    lemma_le_round_trip(secs as nat, 8);
    assert(le_octets(secs as nat, 8).skip(1) =~= le_octets((secs / 256) as nat, 7));
}

/// A moment is stored as the whole seconds since the epoch; one before the
/// epoch as the epoch; and reading gives the moment of so many seconds.
pub proof fn law_whole_seconds_are_stored(t: WallTime, secs: u64, persist: bool)
    ensures
        t.before ==> secs_since_epoch(t) == 0,
        !t.before && t.offset.nanos <= crate::time::MAX_NANOS ==> secs_since_epoch(t)
            * 1_000_000_000 <= t.offset.nanos < (secs_since_epoch(t) + 1) * 1_000_000_000,
        !entry_at(secs, persist).expires_at.before,
        entry_at(secs, persist).expires_at.offset.nanos == secs * 1_000_000_000,
        entry_at(secs, persist).persist == persist,
{
}

/// The first value that could be read is the answer, whatever could not be
/// before it; where none could, there is no answer.
pub proof fn law_the_first_readable_value_counts(vs: Seq<Option<EntryView>>)
    ensures
        forall|i: int|
            0 <= i < vs.len() && #[trigger] vs[i] is Some && (forall|j: int|
                0 <= j < i ==> #[trigger] vs[j] is None) ==> first_some(vs) == vs[i],
        (forall|i: int| 0 <= i < vs.len() ==> #[trigger] vs[i] is None) ==> first_some(vs) is None,
    decreases vs.len(),
{
    if vs.len() > 0 {
        let rest = vs.skip(1);
        law_the_first_readable_value_counts(rest);
        assert(forall|k: int| 0 <= k < rest.len() ==> rest[k] == vs[k + 1]);
        assert forall|i: int|
            0 <= i < vs.len() && #[trigger] vs[i] is Some && (forall|j: int|
                0 <= j < i ==> #[trigger] vs[j] is None) implies first_some(vs) == vs[i] by {
            if i > 0 {
                assert(vs[0] is None);
                assert(rest[i - 1] == vs[i]);
                assert forall|j: int| 0 <= j < i - 1 implies #[trigger] rest[j] is None by {
                    assert(rest[j] == vs[j + 1]);
                }
            }
        }
        if forall|i: int| 0 <= i < vs.len() ==> #[trigger] vs[i] is None {
            assert(vs[0] is None);
            assert forall|i: int| 0 <= i < rest.len() implies #[trigger] rest[i] is None by {
                assert(rest[i] == vs[i + 1]);
            }
        }
    }
}

/// A lookup that is answered with what the store holds, first of what persists
/// and then, where nothing of that can be read, of the rest under the same
/// key, gives what is found for the origin.
pub proof fn law_a_lookup_gives_what_is_found(
    store: Shelves,
    origin: OriginView,
    reached: spec_fn(u64) -> bool,
    key: String,
    first: GetStep,
    second: GetStep,
)
    requires
        key@ == key_of(origin),
        follows(
            Get::Persistent { key },
            readable(values_at(store, PERSISTENT@, key_of(origin)), true, reached),
            first,
        ),
        follows(
            Get::Volatile,
            readable(values_at(store, VOLATILE@, key_of(origin)), false, reached),
            second,
        ),
    ensures
        first matches GetStep::Ready(e) ==> opt_entry(e) == found(store, origin, reached),
        first matches GetStep::Ask(q, next) ==> q.ns@ == VOLATILE@ && q.key@ == key_of(origin)
            && next == Get::Volatile && (second matches GetStep::Ready(e) && opt_entry(e) == found(
            store,
            origin,
            reached,
        )),
{
}

/// Eight octets are an expiry, and the namespace says whether it persists;
/// more or fewer are nothing; and what is read is never another expiry.
pub proof fn law_eight_octets_are_an_expiry(octets: Seq<u8>, persist: bool, r: Option<EntryView>)
    requires
        may_decode(octets, persist, r),
    ensures
        octets.len() != 8 ==> r is None,
        r matches Some(e) ==> e.persist == persist && !e.expires_at.before && (le_value(octets)
            <= u64::MAX ==> e.expires_at.offset.nanos == le_value(octets) * 1_000_000_000),
        octets.len() == 8 && le_value(octets) == 0 ==> r is Some,
{
}

/// Storing an entry empties both namespaces under its key, the other one
/// first, before it writes; and it writes once, where the entry persists or
/// does not, with the entry's own expiry.
pub proof fn law_storing_writes_once_and_last(origin: OriginView, entry: EntryView)
    ensures
        ({
            let ws = put_writes(origin, entry);
            let own = if entry.persist {
                PERSISTENT@
            } else {
                VOLATILE@
            };
            let other = if entry.persist {
                VOLATILE@
            } else {
                PERSISTENT@
            };
            &&& ws.len() == 3
            &&& ws[0] == Write::Remove { ns: other, key: key_of(origin) }
            &&& ws[1] == Write::Remove { ns: own, key: key_of(origin) }
            &&& ws[2] matches Write::Put { ns, key, value, expires } && ns == own && key == key_of(
                origin,
            ) && expires == entry.expires_at && le_value(value) == secs_since_epoch(
                entry.expires_at,
            ) && value.len() == 8
        }),
{
    lemma_le_range_8();
    lemma_le_round_trip(secs_since_epoch(entry.expires_at) as nat, 8);
}

/// Removing and the change of network write nothing: the one empties both
/// namespaces under the key, the other the one that does not persist.
pub proof fn law_removing_writes_nothing(origin: OriginView)
    ensures
        remove_writes(origin).len() == 2,
        remove_writes(origin).contains(Write::Remove { ns: VOLATILE@, key: key_of(origin) }),
        remove_writes(origin).contains(Write::Remove { ns: PERSISTENT@, key: key_of(origin) }),
        retain_writes() == seq![Write::Clear { ns: VOLATILE@ }],
{
    assert(remove_writes(origin)[0] == Write::Remove { ns: VOLATILE@, key: key_of(origin) });
    assert(remove_writes(origin)[1] == Write::Remove { ns: PERSISTENT@, key: key_of(origin) });
}

} // verus!
