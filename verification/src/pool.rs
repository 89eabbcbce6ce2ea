//! Connections that are kept for the next request.
//!
//! A connection is kept under everything that must be the same for another
//! request to use it. Within a key the one that came back last goes out first.
//! Each is kept until its own deadline and no key keeps more than the
//! configured number. A connection that several requests share stays in the
//! pool while they use it.

use vstd::prelude::*;

use crate::table::{Key, Table};
use crate::text::{lemma_lower_idempotent, lower, to_lower};
use crate::time::{
    longer_of, millis_of, rest_of, secs_of, shorter_of, sum_of, Duration,
};

verus! {

/// How long a connection is kept, and how many.
#[derive(Debug, Clone, Copy, PartialEq, Eq, Structural)]
pub struct PoolConfig {
    /// For how long an unused connection is kept.
    pub idle_timeout: Duration,
    /// How many are kept under one key.
    pub max_idle_per_key: usize,
}

impl Default for PoolConfig {
    fn default() -> (r: Self)
        ensures
            r.idle_timeout == secs_of(90),
            r.max_idle_per_key == 8,
    {
        PoolConfig { idle_timeout: Duration::from_secs(90), max_idle_per_key: 8 }
    }
}

/// Whether a connection is encrypted, and under which configuration.
#[derive(Debug, Clone, Copy, PartialEq, Eq, Structural)]
pub enum Security {
    Plaintext,
    /// The number of the TLS configuration that made it.
    Tls(u64),
}

/// What is spoken on a connection.
#[derive(Debug, Clone, Copy, PartialEq, Eq, Structural)]
pub enum Protocol {
    Http11,
    H2,
}

/// Everything that must be the same for a connection to be used again.
#[derive(Debug, PartialEq, Eq)]
pub struct PoolKey {
    security: Security,
    host: String,
    port: u16,
    protocol: Protocol,
    proxy: Option<String>,
}

/// A [`PoolKey`] as a mathematical value.
#[verifier::ext_equal]
pub struct KeyView {
    pub security: Security,
    pub host: Seq<char>,
    pub port: u16,
    pub protocol: Protocol,
    pub proxy: Option<Seq<char>>,
}

impl View for PoolKey {
    type V = KeyView;

    closed spec fn view(&self) -> KeyView {
        KeyView {
            security: self.security,
            host: self.host@,
            port: self.port,
            protocol: self.protocol,
            proxy: match self.proxy {
                Some(p) => Some(p@),
                None => None,
            },
        }
    }
}

/// The key that these name. The case of the host and of the proxy does not
/// matter.
pub open spec fn key_of(
    security: Security,
    host: Seq<char>,
    port: u16,
    protocol: Protocol,
    proxy: Option<Seq<char>>,
) -> KeyView {
    KeyView {
        security,
        host: lower(host),
        port,
        protocol,
        proxy: match proxy {
            Some(p) => Some(lower(p)),
            None => None,
        },
    }
}

/// The text of an optional borrowed string.
pub open spec fn opt_str(s: Option<&str>) -> Option<Seq<char>> {
    match s {
        Some(t) => Some(t@),
        None => None,
    }
}

impl PoolKey {
    /// The key that these name.
    pub fn new(
        security: Security,
        host: &str,
        port: u16,
        protocol: Protocol,
        proxy: Option<&str>,
    ) -> (r: Self)
        ensures
            r@ == key_of(security, host@, port, protocol, opt_str(proxy)),
    {
        PoolKey {
            security,
            host: to_lower(host),
            port,
            protocol,
            proxy: match proxy {
                Some(p) => Some(to_lower(p)),
                None => None,
            },
        }
    }

    /// Another one of the same.
    pub fn copy(&self) -> (r: Self)
        ensures
            r@ == self@,
    {
        PoolKey {
            security: self.security,
            host: self.host.clone(),
            port: self.port,
            protocol: self.protocol,
            proxy: match &self.proxy {
                Some(p) => Some(p.clone()),
                None => None,
            },
        }
    }

    /// What is spoken on the connection.
    pub fn protocol(&self) -> (r: Protocol)
        ensures
            r == self@.protocol,
    {
        self.protocol
    }
}

impl Key for PoolKey {
    fn same(&self, other: &Self) -> (r: bool) {
        self.security == other.security && self.port == other.port && self.protocol
            == other.protocol && self.host == other.host && match (&self.proxy, &other.proxy) {
            (Some(a), Some(b)) => *a == *b,
            (None, None) => true,
            _ => false,
        }
    }
}

/// A connection that can carry a request.
#[derive(Debug)]
pub enum Established<I> {
    /// One that carries one request at a time.
    Sole(I),
    /// One that several requests share, by the number of its slot.
    Shared(u64),
}

/// A connection that waits for the next request.
#[derive(Debug)]
pub struct Idle<I> {
    pub est: Established<I>,
    /// From when on it is not used any more.
    pub expires_at: Duration,
}

/// The connections without the expired ones at the end.
pub open spec fn fresh_end<I>(bucket: Seq<Idle<I>>, now: Duration) -> Seq<Idle<I>>
    decreases bucket.len(),
{
    if bucket.len() > 0 && bucket.last().expires_at.nanos <= now.nanos {
        fresh_end(bucket.drop_last(), now)
    } else {
        bucket
    }
}

/// The connections that have not expired, in their order.
pub open spec fn unexpired<I>(bucket: Seq<Idle<I>>, now: Duration) -> Seq<Idle<I>>
    decreases bucket.len(),
{
    if bucket.len() == 0 {
        Seq::empty()
    } else if bucket.last().expires_at.nanos <= now.nanos {
        unexpired(bucket.drop_last(), now)
    } else {
        unexpired(bucket.drop_last(), now).push(bucket.last())
    }
}

/// What a request is handed: the last connection that has not expired.
pub open spec fn handed_out<I>(bucket: Seq<Idle<I>>, now: Duration) -> Option<Established<I>> {
    let fresh = fresh_end(bucket, now);
    if fresh.len() == 0 {
        None
    } else {
        Some(fresh.last().est)
    }
}

/// What is left under the key: a connection for one request at a time leaves,
/// one that is shared stays, for another idle timeout.
pub open spec fn left_behind<I>(
    bucket: Seq<Idle<I>>,
    now: Duration,
    config: Option<PoolConfig>,
) -> Seq<Idle<I>> {
    let fresh = fresh_end(bucket, now);
    if fresh.len() == 0 {
        fresh
    } else {
        match fresh.last().est {
            Established::Sole(_) => fresh.drop_last(),
            Established::Shared(slot) => match config {
                Some(cfg) => fresh.drop_last().push(
                    Idle {
                        est: Established::Shared(slot),
                        expires_at: sum_of(now, cfg.idle_timeout),
                    },
                ),
                None => fresh,
            },
        }
    }
}

/// The connections after one more came back: where that makes too many, the
/// oldest leaves. Nothing is kept by a pool that is off or keeps none.
pub open spec fn put_back<I>(
    bucket: Seq<Idle<I>>,
    idle: Idle<I>,
    config: Option<PoolConfig>,
) -> Seq<Idle<I>> {
    match config {
        None => bucket,
        Some(cfg) => if cfg.max_idle_per_key == 0 {
            bucket
        } else if bucket.len() + 1 > cfg.max_idle_per_key {
            bucket.push(idle).skip(1)
        } else {
            bucket.push(idle)
        },
    }
}

/// The connections other than the shared one in the slot.
pub open spec fn without_slot<I>(bucket: Seq<Idle<I>>, slot: u64) -> Seq<Idle<I>>
    decreases bucket.len(),
{
    if bucket.len() == 0 {
        Seq::empty()
    } else if bucket.last().est == Established::<I>::Shared(slot) {
        without_slot(bucket.drop_last(), slot)
    } else {
        without_slot(bucket.drop_last(), slot).push(bucket.last())
    }
}

/// The connections kept for later requests, and which connections are being
/// made.
pub struct Pool<I> {
    config: Option<PoolConfig>,
    idle: Table<PoolKey, Vec<Idle<I>>>,
    connecting: Table<PoolKey, Vec<u64>>,
}

/// The connections under a key of a table.
pub open spec fn bucket_in<I>(m: Map<KeyView, Vec<Idle<I>>>, k: KeyView) -> Seq<Idle<I>> {
    if m.contains_key(k) {
        m[k]@
    } else {
        Seq::empty()
    }
}

impl<I> Pool<I> {
    /// What the pool was made with.
    pub closed spec fn cfg(self) -> Option<PoolConfig> {
        self.config
    }

    /// The connections that wait under a key, the one that came back last at
    /// the end.
    pub closed spec fn bucket(self, k: KeyView) -> Seq<Idle<I>> {
        bucket_in(self.idle@, k)
    }

    /// Who waits for the connection being made under a key, or nothing where
    /// none is being made.
    pub closed spec fn waiting(self, k: KeyView) -> Option<Seq<u64>> {
        if self.connecting@.contains_key(k) {
            Some(self.connecting@[k]@)
        } else {
            None
        }
    }

    /// Each key is there once, and keeps no more than it may.
    pub closed spec fn wf(self) -> bool {
        &&& self.idle.wf()
        &&& self.connecting.wf()
        &&& forall|k: KeyView|
            (#[trigger] bucket_in(self.idle@, k)).len() <= match self.config {
                Some(cfg) => cfg.max_idle_per_key as nat,
                None => 0,
            }
    }

    /// No key keeps more than the pool was told to, and a pool that is off
    /// keeps nothing.
    pub proof fn law_a_key_keeps_no_more_than_allowed(self, k: KeyView)
        requires
            self.wf(),
        ensures
            self.bucket(k).len() <= match self.cfg() {
                Some(cfg) => cfg.max_idle_per_key as nat,
                None => 0,
            },
    {
        assert(bucket_in(self.idle@, k).len() >= 0);
    }

    /// A pool that keeps nothing yet; one without a configuration never does.
    pub fn new(config: Option<PoolConfig>) -> (r: Self)
        ensures
            r.wf(),
            r.cfg() == config,
            forall|k: KeyView| #[trigger] r.bucket(k) == Seq::<Idle<I>>::empty(),
            forall|k: KeyView| #[trigger] r.waiting(k) is None,
    {
        Pool { config, idle: Table::new(), connecting: Table::new() }
    }

    /// What the pool was made with.
    pub fn config(&self) -> (r: Option<PoolConfig>)
        ensures
            r == self.cfg(),
    {
        self.config
    }

    /// Hand out a connection under the key that has not expired at `now`.
    pub fn take(&mut self, key: &PoolKey, now: Duration) -> (r: Option<Established<I>>)
        requires
            old(self).wf(),
        ensures
            final(self).wf(),
            final(self).cfg() == old(self).cfg(),
            r == handed_out(old(self).bucket(key@), now),
            final(self).bucket(key@) == left_behind(old(self).bucket(key@), now, old(self).cfg()),
            forall|k: KeyView| k != key@ ==> #[trigger] final(self).bucket(k) == old(self).bucket(k),
            forall|k: KeyView| #[trigger] final(self).waiting(k) == old(self).waiting(k),
    {
        let ghost before = self.idle@;
        let ghost config = self.config;
        let mut bucket: Vec<Idle<I>> = match self.idle.remove(key) {
            Some(b) => b,
            None => {
                assert(self.idle@ =~= before);
                return None;
            },
        };
        let ghost all = bucket@;
        assert(all == bucket_in(before, key@));
        assert(forall|k: KeyView|
            k != key@ ==> #[trigger] bucket_in(self.idle@, k) == bucket_in(before, k));
        while bucket.len() > 0 && bucket[bucket.len() - 1].expires_at.nanos <= now.nanos
            invariant
                fresh_end(bucket@, now) == fresh_end(all, now),
                bucket@.len() <= all.len(),
            decreases bucket@.len(),
        {
            let _ = bucket.pop();
        }
        let taken: Option<Established<I>>;
        match bucket.pop() {
            None => {
                taken = None;
            },
            Some(last) => {
                match last.est {
                    Established::Sole(io) => {
                        taken = Some(Established::Sole(io));
                    },
                    Established::Shared(slot) => {
                        let expires_at = match self.config {
                            Some(cfg) => now.saturating_add(cfg.idle_timeout),
                            None => last.expires_at,
                        };
                        bucket.push(Idle { est: Established::Shared(slot), expires_at });
                        taken = Some(Established::Shared(slot));
                    },
                }
            },
        }
        proof {
            let fresh = fresh_end(all, now);
            assert(fresh.len() > 0 ==> fresh =~= fresh.drop_last().push(fresh.last()));
            assert(bucket@ =~= left_behind(all, now, config));
        }
        if bucket.len() > 0 {
            self.idle.insert(key.copy(), bucket);
        }
        proof {
            assert(bucket_in(self.idle@, key@) =~= left_behind(all, now, config));
            assert forall|k: KeyView| #[trigger] bucket_in(self.idle@, k).len() <= match config {
                Some(cfg) => cfg.max_idle_per_key as nat,
                None => 0,
            } by {
                assert(bucket_in(before, k).len() <= match config {
                    Some(cfg) => cfg.max_idle_per_key as nat,
                    None => 0,
                });
            }
        }
        taken
    }

    /// Keep a connection under the key until its deadline.
    pub fn put(&mut self, key: PoolKey, est: Established<I>, expires_at: Duration)
        requires
            old(self).wf(),
        ensures
            final(self).wf(),
            final(self).cfg() == old(self).cfg(),
            final(self).bucket(key@) == put_back(
                old(self).bucket(key@),
                (Idle { est, expires_at }),
                old(self).cfg(),
            ),
            forall|k: KeyView| k != key@ ==> #[trigger] final(self).bucket(k) == old(self).bucket(k),
            forall|k: KeyView| #[trigger] final(self).waiting(k) == old(self).waiting(k),
    {
        let cfg = match self.config {
            Some(cfg) => cfg,
            None => return ,
        };
        if cfg.max_idle_per_key == 0 {
            return ;
        }
        let ghost before = self.idle@;
        let mut bucket: Vec<Idle<I>> = match self.idle.remove(&key) {
            Some(b) => b,
            None => Vec::new(),
        };
        let ghost k0 = key@;
        let ghost all = bucket@;
        assert(all =~= bucket_in(before, key@));
        bucket.push(Idle { est, expires_at });
        if bucket.len() > cfg.max_idle_per_key {
            let ghost pushed = bucket@;
            let _ = bucket.remove(0);
            assert(bucket@ =~= pushed.skip(1));
        }
        assert(bucket_in(before, key@).len() <= cfg.max_idle_per_key);
        self.idle.insert(key, bucket);
        proof {
            assert forall|k: KeyView| #[trigger] bucket_in(self.idle@, k).len()
                <= cfg.max_idle_per_key as nat by {
                assert(bucket_in(before, k).len() <= cfg.max_idle_per_key);
            }
            assert forall|k: KeyView| k != k0 implies #[trigger] self.bucket(k) == old(
                self,
            ).bucket(k) by {
                assert(bucket_in(self.idle@, k) == bucket_in(before, k));
            }
        }
    }

    /// Forget the shared connection in the slot.
    pub fn forget_shared(&mut self, key: &PoolKey, slot: u64)
        requires
            old(self).wf(),
        ensures
            final(self).wf(),
            final(self).cfg() == old(self).cfg(),
            final(self).bucket(key@) == without_slot(old(self).bucket(key@), slot),
            forall|k: KeyView| k != key@ ==> #[trigger] final(self).bucket(k) == old(self).bucket(k),
            forall|k: KeyView| #[trigger] final(self).waiting(k) == old(self).waiting(k),
    {
        let ghost before = self.idle@;
        let ghost config = self.config;
        let mut bucket: Vec<Idle<I>> = match self.idle.remove(key) {
            Some(b) => b,
            None => {
                assert(self.idle@ =~= before);
                return ;
            },
        };
        let ghost all = bucket@;
        assert(all == bucket_in(before, key@));
        bucket = forget_in(bucket, slot);
        if bucket.len() > 0 {
            self.idle.insert(key.copy(), bucket);
        }
        proof {
            assert(bucket_in(self.idle@, key@) =~= without_slot(all, slot));
            assert forall|k: KeyView| #[trigger] bucket_in(self.idle@, k).len() <= match config {
                Some(cfg) => cfg.max_idle_per_key as nat,
                None => 0,
            } by {
                assert(bucket_in(before, k).len() <= match config {
                    Some(cfg) => cfg.max_idle_per_key as nat,
                    None => 0,
                });
            }
        }
    }

    /// Drop every connection that has expired at `now`, and say when the next
    /// one will.
    pub fn reap(&mut self, now: Duration) -> (r: Option<Duration>)
        requires
            old(self).wf(),
        ensures
            final(self).wf(),
            final(self).cfg() == old(self).cfg(),
            forall|k: KeyView| #[trigger]
                final(self).bucket(k) == unexpired(old(self).bucket(k), now),
            forall|k: KeyView| #[trigger] final(self).waiting(k) == old(self).waiting(k),
            final(self).next_deadline(r),
    {
        let ghost before = self.idle@;
        let ghost config = self.config;
        let mut done: Table<PoolKey, Vec<Idle<I>>> = Table::new();
        let mut next: Option<Duration> = None;
        loop
            invariant
                self.idle.wf(),
                self.connecting == old(self).connecting,
                self.config == config,
                done.wf(),
                forall|k: KeyView| #[trigger]
                    self.idle@.contains_key(k) ==> !done@.contains_key(k) && before.contains_key(k)
                        && self.idle@[k] == before[k],
                forall|k: KeyView| #![trigger bucket_in(done@, k)]
                    !self.idle@.contains_key(k) ==> bucket_in(done@, k) == unexpired(
                        bucket_in(before, k),
                        now,
                    ),
                earliest(done@, next),
            ensures
                self.connecting == old(self).connecting,
                self.config == config,
                done.wf(),
                forall|k: KeyView| #[trigger]
                    bucket_in(done@, k) == unexpired(bucket_in(before, k), now),
                earliest(done@, next),
            decreases self.idle.rows@.len(),
        {
            let ghost rest = self.idle@;
            match self.idle.pop() {
                None => {
                    break ;
                },
                Some((key, bucket)) => {
                    let ghost k0 = key@;
                    let ghost all = bucket@;
                    let ghost held = done@;
                    let (bucket, next_here) = drop_expired(bucket, now);
                    next = match (next, next_here) {
                        (Some(a), Some(b)) => if a.nanos <= b.nanos {
                            Some(a)
                        } else {
                            Some(b)
                        },
                        (Some(a), None) => Some(a),
                        (None, b) => b,
                    };
                    if bucket.len() > 0 {
                        done.insert(key, bucket);
                    }
                    proof {
                        assert(bucket_in(before, k0) == all);
                        assert(!held.contains_key(k0));
                        assert(bucket_in(held, k0).len() == 0);
                        assert forall|k: KeyView|
                            #![trigger bucket_in(done@, k)]
                            !self.idle@.contains_key(k) implies bucket_in(done@, k) == unexpired(
                            bucket_in(before, k),
                            now,
                        ) by {
                            if k == k0 {
                                assert(bucket_in(done@, k) =~= bucket@);
                            } else {
                                assert(bucket_in(done@, k) == bucket_in(held, k));
                                assert(!rest.contains_key(k));
                            }
                        }
                        lemma_earliest(held, done@, k0, bucket@, next_here, next);
                    }
                },
            }
        }
        self.idle = done;
        proof {
            assert forall|k: KeyView| #[trigger] bucket_in(self.idle@, k).len() <= match config {
                Some(cfg) => cfg.max_idle_per_key as nat,
                None => 0,
            } by {
                assert(bucket_in(before, k).len() <= match config {
                    Some(cfg) => cfg.max_idle_per_key as nat,
                    None => 0,
                });
                lemma_unexpired_len(bucket_in(before, k), now);
            }
            assert forall|k: KeyView| #[trigger]
                self.bucket(k) == unexpired(old(self).bucket(k), now) by {
                assert(bucket_in(self.idle@, k) == unexpired(bucket_in(before, k), now));
            }
        }
        next
    }

    /// `d` is the earliest deadline of all that waits, and nothing where
    /// nothing waits.
    pub closed spec fn next_deadline(self, d: Option<Duration>) -> bool {
        earliest(self.idle@, d)
    }

    /// What the earliest deadline says of each connection that waits.
    pub proof fn law_next_deadline_is_the_earliest(self, d: Option<Duration>)
        requires
            self.next_deadline(d),
        ensures
            match d {
                Some(d) => {
                    &&& forall|k: KeyView, i: int|
                        0 <= i < self.bucket(k).len() ==> d.nanos <= (#[trigger] self.bucket(
                            k,
                        )[i]).expires_at.nanos
                    &&& exists|k: KeyView, i: int|
                        0 <= i < self.bucket(k).len() && (#[trigger] self.bucket(k)[i]).expires_at
                            == d
                },
                None => forall|k: KeyView| (#[trigger] self.bucket(k)).len() == 0,
            },
    {
        match d {
            Some(d) => {
                let (k, i) = choose|k: KeyView, i: int|
                    0 <= i < bucket_in(self.idle@, k).len() && (#[trigger] bucket_in(
                        self.idle@,
                        k,
                    )[i]).expires_at == d;
                assert(self.bucket(k)[i].expires_at == d);
                assert forall|k: KeyView, i: int| 0 <= i < self.bucket(k).len() implies d.nanos <= (
                #[trigger] self.bucket(k)[i]).expires_at.nanos by {
                    assert(bucket_in(self.idle@, k)[i].expires_at.nanos >= d.nanos);
                }
            },
            None => {
                assert forall|k: KeyView| (#[trigger] self.bucket(k)).len() == 0 by {
                    assert(bucket_in(self.idle@, k).len() == 0);
                }
            },
        }
    }

    /// Start making a connection under the key, unless one is being made.
    pub fn begin_connect(&mut self, key: &PoolKey) -> (r: bool)
        requires
            old(self).wf(),
        ensures
            final(self).wf(),
            final(self).cfg() == old(self).cfg(),
            r == (old(self).waiting(key@) is None),
            r ==> final(self).waiting(key@) == Some(Seq::<u64>::empty()),
            !r ==> final(self).waiting(key@) == old(self).waiting(key@),
            forall|k: KeyView|
                k != key@ ==> #[trigger] final(self).waiting(k) == old(self).waiting(k),
            forall|k: KeyView| #[trigger] final(self).bucket(k) == old(self).bucket(k),
    {
        match self.connecting.find(key) {
            Some(_) => false,
            None => {
                self.connecting.insert(key.copy(), Vec::new());
                assert(self.waiting(key@)->0 =~= Seq::<u64>::empty());
                true
            },
        }
    }

    /// The connection under the key was made, or was given up: everyone who
    /// waits for it is to be woken.
    pub fn finish_connect(&mut self, key: &PoolKey) -> (woken: Vec<u64>)
        requires
            old(self).wf(),
        ensures
            final(self).wf(),
            final(self).cfg() == old(self).cfg(),
            final(self).waiting(key@) is None,
            woken@ == woken_of(old(self).waiting(key@)),
            forall|k: KeyView|
                k != key@ ==> #[trigger] final(self).waiting(k) == old(self).waiting(k),
            forall|k: KeyView| #[trigger] final(self).bucket(k) == old(self).bucket(k),
    {
        match self.connecting.remove(key) {
            Some(w) => w,
            None => Vec::new(),
        }
    }

    /// Wait for the connection under the key: `true` once none is being made,
    /// else `waker` is woken when it is over. One waker waits once.
    pub fn wait_for_connect(&mut self, key: &PoolKey, waker: u64) -> (ready: bool)
        requires
            old(self).wf(),
        ensures
            final(self).wf(),
            final(self).cfg() == old(self).cfg(),
            ready == (old(self).waiting(key@) is None),
            final(self).waiting(key@) == joined_by(old(self).waiting(key@), waker),
            forall|k: KeyView|
                k != key@ ==> #[trigger] final(self).waiting(k) == old(self).waiting(k),
            forall|k: KeyView| #[trigger] final(self).bucket(k) == old(self).bucket(k),
    {
        let mut wakers: Vec<u64> = match self.connecting.remove(key) {
            Some(w) => w,
            None => {
                assert(self.waiting(key@) is None);
                return true;
            },
        };
        let ghost before = wakers@;
        let mut there: bool = false;
        let mut i: usize = 0;
        while i < wakers.len()
            invariant
                i <= wakers@.len(),
                wakers@ == before,
                there == exists|j: int| 0 <= j < i && before[j] == waker,
            decreases wakers@.len() - i,
        {
            if wakers[i] == waker {
                there = true;
            }
            i = i + 1;
        }
        if !there {
            wakers.push(waker);
        }
        self.connecting.insert(key.copy(), wakers);
        false
    }
}

/// Who waits for a connection once one more does. One waker waits once.
pub open spec fn joined_by(w: Option<Seq<u64>>, waker: u64) -> Option<Seq<u64>> {
    match w {
        Some(w) => Some(
            if w.contains(waker) {
                w
            } else {
                w.push(waker)
            },
        ),
        None => None,
    }
}

/// Who waits for a connection once all of these do.
pub open spec fn joined_by_all(w: Option<Seq<u64>>, wakers: Seq<u64>) -> Option<Seq<u64>>
    decreases wakers.len(),
{
    if wakers.len() == 0 {
        w
    } else {
        joined_by(joined_by_all(w, wakers.drop_last()), wakers.last())
    }
}

/// Who is woken by the end of a connection's making.
pub open spec fn woken_of(w: Option<Seq<u64>>) -> Seq<u64> {
    match w {
        Some(w) => w,
        None => Seq::empty(),
    }
}

/// Nothing waits in the table, or `d` is its earliest deadline.
spec fn earliest<I>(m: Map<KeyView, Vec<Idle<I>>>, d: Option<Duration>) -> bool {
    match d {
        Some(d) => {
            &&& forall|k: KeyView, i: int|
                0 <= i < bucket_in(m, k).len() ==> d.nanos <= (#[trigger] bucket_in(
                    m,
                    k,
                )[i]).expires_at.nanos
            &&& exists|k: KeyView, i: int|
                0 <= i < bucket_in(m, k).len() && (#[trigger] bucket_in(m, k)[i]).expires_at == d
        },
        None => forall|k: KeyView| (#[trigger] bucket_in(m, k)).len() == 0,
    }
}

/// `d` is the earliest deadline of a row of connections.
spec fn earliest_of<I>(bucket: Seq<Idle<I>>, d: Option<Duration>) -> bool {
    match d {
        Some(d) => {
            &&& forall|i: int|
                0 <= i < bucket.len() ==> d.nanos <= (#[trigger] bucket[i]).expires_at.nanos
            &&& exists|i: int| 0 <= i < bucket.len() && (#[trigger] bucket[i]).expires_at == d
        },
        None => bucket.len() == 0,
    }
}

/// The earliest deadline once the connections of one more key are there.
proof fn lemma_earliest<I>(
    held: Map<KeyView, Vec<Idle<I>>>,
    after: Map<KeyView, Vec<Idle<I>>>,
    key: KeyView,
    bucket: Seq<Idle<I>>,
    here: Option<Duration>,
    d: Option<Duration>,
)
    requires
        !held.contains_key(key),
        forall|k: KeyView| k != key ==> #[trigger] bucket_in(after, k) == bucket_in(held, k),
        bucket_in(after, key) == bucket,
        earliest_of(bucket, here),
        exists|before: Option<Duration>| #[trigger]
            earliest(held, before) && d == match (before, here) {
                (Some(a), Some(b)) => Some(shorter_of(a, b)),
                (Some(a), None) => Some(a),
                (None, b) => b,
            },
    ensures
        earliest(after, d),
{
    let before = choose|before: Option<Duration>| #[trigger]
        earliest(held, before) && d == match (before, here) {
            (Some(a), Some(b)) => Some(shorter_of(a, b)),
            (Some(a), None) => Some(a),
            (None, b) => b,
        };
    match d {
        None => {
            assert forall|k: KeyView| (#[trigger] bucket_in(after, k)).len() == 0 by {
                if k != key {
                    assert(bucket_in(after, k) == bucket_in(held, k));
                }
            }
        },
        Some(e) => {
            assert forall|k: KeyView, i: int| 0 <= i < bucket_in(after, k).len() implies e.nanos
                <= (#[trigger] bucket_in(after, k)[i]).expires_at.nanos by {
                if k == key {
                    assert(bucket[i].expires_at.nanos >= (here->0).nanos);
                } else {
                    assert(bucket_in(after, k) == bucket_in(held, k));
                    assert(before is Some) by {
                        if before is None {
                            assert(bucket_in(held, k).len() == 0);
                        }
                    }
                    assert((before->0).nanos <= bucket_in(held, k)[i].expires_at.nanos);
                }
            }
            if before is Some && e == before->0 {
                let (k, i) = choose|k: KeyView, i: int|
                    0 <= i < bucket_in(held, k).len() && (#[trigger] bucket_in(
                        held,
                        k,
                    )[i]).expires_at == e;
                assert(k != key);
                assert(bucket_in(after, k) == bucket_in(held, k));
                assert(bucket_in(after, k)[i].expires_at == e);
            } else {
                let i = choose|i: int|
                    0 <= i < bucket.len() && (#[trigger] bucket[i]).expires_at == e;
                assert(bucket_in(after, key)[i].expires_at == e);
            }
        },
    }
}

/// Dropping what has expired makes nothing more.
proof fn lemma_unexpired_len<I>(bucket: Seq<Idle<I>>, now: Duration)
    ensures
        unexpired(bucket, now).len() <= bucket.len(),
    decreases bucket.len(),
{
    if bucket.len() > 0 {
        lemma_unexpired_len(bucket.drop_last(), now);
    }
}

/// Forgetting a slot makes nothing more.
proof fn lemma_without_slot_len<I>(bucket: Seq<Idle<I>>, slot: u64)
    ensures
        without_slot(bucket, slot).len() <= bucket.len(),
    decreases bucket.len(),
{
    if bucket.len() > 0 {
        lemma_without_slot_len(bucket.drop_last(), slot);
    }
}

/// The connections that have not expired, and the earliest of their deadlines.
fn drop_expired<I>(bucket: Vec<Idle<I>>, now: Duration) -> (r: (Vec<Idle<I>>, Option<Duration>))
    ensures
        r.0@ == unexpired(bucket@, now),
        earliest_of(r.0@, r.1),
{
    let ghost all = bucket@;
    let mut bucket = bucket;
    let mut next: Option<Duration> = None;
    let mut i: usize = bucket.len();
    let ghost mut left: Seq<Idle<I>> = Seq::empty();
    assert(all.take(i as int) =~= all);
    assert(bucket@ =~= all.take(i as int) + left);
    while i > 0
        invariant
            i <= all.len(),
            bucket@ == all.take(i as int) + left,
            unexpired(all, now) == unexpired(all.take(i as int), now) + left,
            earliest_of(left, next),
        decreases i,
    {
        i = i - 1;
        let ghost old_left = left;
        let ghost old_next = next;
        proof {
            assert(all.take(i + 1).drop_last() =~= all.take(i as int));
            assert(bucket@[i as int] == all[i as int]);
        }
        let deadline = bucket[i].expires_at;
        if deadline.nanos <= now.nanos {
            let ghost whole = bucket@;
            let _ = bucket.remove(i);
            assert(bucket@ =~= all.take(i as int) + left);
        } else {
            next = match next {
                Some(n) => if n.nanos <= deadline.nanos {
                    Some(n)
                } else {
                    Some(deadline)
                },
                None => Some(deadline),
            };
            proof {
                let e = all[i as int];
                left = seq![e] + left;
                assert(bucket@ =~= all.take(i as int) + left);
                assert(unexpired(all.take(i as int), now).push(e) + old_left =~= unexpired(
                    all.take(i as int),
                    now,
                ) + left);
                assert(left[0].expires_at == deadline);
                assert forall|j: int| 0 <= j < left.len() implies (next->0).nanos <= (
                #[trigger] left[j]).expires_at.nanos by {
                    if j > 0 {
                        assert(left[j] == old_left[j - 1]);
                    }
                }
                if old_next is Some && next == old_next {
                    let j = choose|j: int|
                        0 <= j < old_left.len() && (#[trigger] old_left[j]).expires_at
                            == old_next->0;
                    assert(left[j + 1].expires_at == old_next->0);
                }
            }
        }
    }
    assert(all.take(0) =~= Seq::<Idle<I>>::empty());
    assert(unexpired(all.take(0), now) + left =~= left);
    assert(bucket@ =~= left);
    (bucket, next)
}

/// The connections other than the shared one in the slot.
fn forget_in<I>(bucket: Vec<Idle<I>>, slot: u64) -> (r: Vec<Idle<I>>)
    ensures
        r@ == without_slot(bucket@, slot),
        r@.len() <= bucket@.len(),
{
    let ghost all = bucket@;
    let mut bucket = bucket;
    let mut i: usize = bucket.len();
    let ghost mut left: Seq<Idle<I>> = Seq::empty();
    assert(all.take(i as int) =~= all);
    assert(bucket@ =~= all.take(i as int) + left);
    while i > 0
        invariant
            i <= all.len(),
            bucket@ == all.take(i as int) + left,
            without_slot(all, slot) == without_slot(all.take(i as int), slot) + left,
        decreases i,
    {
        i = i - 1;
        proof {
            assert(all.take(i + 1).drop_last() =~= all.take(i as int));
            assert(bucket@[i as int] == all[i as int]);
        }
        let gone = match &bucket[i].est {
            Established::Shared(s) => *s == slot,
            Established::Sole(_) => false,
        };
        if gone {
            let _ = bucket.remove(i);
            assert(bucket@ =~= all.take(i as int) + left);
        } else {
            proof {
                let e = all[i as int];
                let old_left = left;
                left = seq![e] + left;
                assert(bucket@ =~= all.take(i as int) + left);
                assert(without_slot(all.take(i as int), slot).push(e) + old_left
                    =~= without_slot(all.take(i as int), slot) + left);
            }
        }
    }
    assert(all.take(0) =~= Seq::<Idle<I>>::empty());
    assert(without_slot(all.take(0), slot) + left =~= left);
    assert(bucket@ =~= left);
    proof {
        lemma_without_slot_len(all, slot);
    }
    bucket
}

/// A connection that is on loan and comes back to the pool.
#[derive(Debug)]
pub struct CheckIn {
    key: PoolKey,
    expires_at: Duration,
}

impl CheckIn {
    /// Where the connection goes back to.
    pub closed spec fn to(self) -> KeyView {
        self.key@
    }

    /// Until when it is kept there.
    pub closed spec fn until(self) -> Duration {
        self.expires_at
    }

    /// A loan from under the key.
    pub fn new(key: PoolKey, expires_at: Duration) -> (r: Self)
        ensures
            r.to() == key@,
            r.until() == expires_at,
    {
        CheckIn { key, expires_at }
    }

    /// Give the connection back.
    pub fn put<I>(self, pool: &mut Pool<I>, est: Established<I>)
        requires
            old(pool).wf(),
        ensures
            final(pool).wf(),
            final(pool).cfg() == old(pool).cfg(),
            final(pool).bucket(self.to()) == put_back(
                old(pool).bucket(self.to()),
                (Idle { est, expires_at: self.until() }),
                old(pool).cfg(),
            ),
            forall|k: KeyView|
                k != self.to() ==> #[trigger] final(pool).bucket(k) == old(pool).bucket(k),
            forall|k: KeyView| #[trigger] final(pool).waiting(k) == old(pool).waiting(k),
    {
        pool.put(self.key, est, self.expires_at);
    }
}

/// The shortest time between two looks at the pool, in milliseconds.
pub const MIN_REAP_MILLIS: u64 = 1;

/// What drops the expired connections of a pool that nobody asks: it sleeps,
/// looks, and sleeps until the next one expires.
#[derive(Debug, Clone, Copy, PartialEq, Eq, Structural)]
pub struct Reaper {
    pub idle_timeout: Duration,
}

/// What the reaper finds when it wakes.
#[derive(Debug, Clone, Copy, PartialEq, Eq, Structural)]
pub enum Woken {
    /// Nobody has the pool any more.
    PoolGone,
    /// The pool was reaped at `now`, and this is its next deadline.
    Reaped { next: Option<Duration>, now: Duration },
}

/// What the reaper does next.
#[derive(Debug, Clone, Copy, PartialEq, Eq, Structural)]
pub enum ReaperStep {
    Sleep(Duration),
    Over,
}

/// For how long the reaper sleeps after a look.
pub open spec fn next_sleep(
    idle_timeout: Duration,
    next: Option<Duration>,
    now: Duration,
) -> Duration {
    longer_of(
        match next {
            Some(n) => rest_of(n, now),
            None => idle_timeout,
        },
        millis_of(MIN_REAP_MILLIS),
    )
}

/// What the reaper does after a sleep.
pub open spec fn reaper_goes_on(idle_timeout: Duration, found: Woken) -> ReaperStep {
    match found {
        Woken::PoolGone => ReaperStep::Over,
        Woken::Reaped { next, now } => ReaperStep::Sleep(next_sleep(idle_timeout, next, now)),
    }
}

impl Reaper {
    /// A reaper for a pool that keeps connections for so long.
    pub fn new(idle_timeout: Duration) -> (r: Self)
        ensures
            r.idle_timeout == idle_timeout,
    {
        Reaper { idle_timeout }
    }

    /// The first sleep: nothing can expire sooner.
    pub fn start(&self) -> (r: ReaperStep)
        ensures
            r == ReaperStep::Sleep(self.idle_timeout),
    {
        ReaperStep::Sleep(self.idle_timeout)
    }

    /// A sleep is over.
    pub fn woke(&self, found: Woken) -> (r: ReaperStep)
        ensures
            r == reaper_goes_on(self.idle_timeout, found),
    {
        match found {
            Woken::PoolGone => ReaperStep::Over,
            Woken::Reaped { next, now } => {
                let wake = match next {
                    Some(n) => n.saturating_sub(now),
                    None => self.idle_timeout,
                };
                ReaperStep::Sleep(wake.longer(Duration::from_millis(MIN_REAP_MILLIS)))
            },
        }
    }
}

// ---------------------------------------------------------------------------
// What holds of it all
// ---------------------------------------------------------------------------

/// What is handed out has not expired: its deadline itself counts as over.
pub proof fn law_nothing_expired_is_handed_out<I>(bucket: Seq<Idle<I>>, now: Duration)
    ensures
        fresh_end(bucket, now).len() > 0 ==> now.nanos < fresh_end(
            bucket,
            now,
        ).last().expires_at.nanos,
        (forall|i: int| 0 <= i < bucket.len() ==> (#[trigger] bucket[i]).expires_at.nanos
            <= now.nanos) ==> handed_out(bucket, now) is None && unexpired(bucket, now).len() == 0,
    decreases bucket.len(),
{
    if bucket.len() > 0 {
        law_nothing_expired_is_handed_out(bucket.drop_last(), now);
        if forall|i: int| 0 <= i < bucket.len() ==> (#[trigger] bucket[i]).expires_at.nanos
            <= now.nanos {
            assert(bucket.last() == bucket[bucket.len() - 1]);
            assert forall|i: int| 0 <= i < bucket.drop_last().len() implies (
            #[trigger] bucket.drop_last()[i]).expires_at.nanos <= now.nanos by {
                assert(bucket.drop_last()[i] == bucket[i]);
            }
        }
    }
}

/// What is left after a reap has not expired, and nothing that has not
/// expired is dropped by one.
pub proof fn law_reap_drops_exactly_the_expired<I>(bucket: Seq<Idle<I>>, now: Duration)
    ensures
        forall|i: int|
            0 <= i < unexpired(bucket, now).len() ==> now.nanos < (#[trigger] unexpired(
                bucket,
                now,
            )[i]).expires_at.nanos,
        forall|i: int|
            0 <= i < bucket.len() && now.nanos < (#[trigger] bucket[i]).expires_at.nanos
                ==> unexpired(bucket, now).contains(bucket[i]),
        unexpired(unexpired(bucket, now), now) == unexpired(bucket, now),
    decreases bucket.len(),
{
    if bucket.len() > 0 {
        let shorter = bucket.drop_last();
        law_reap_drops_exactly_the_expired(shorter, now);
        let kept = unexpired(bucket, now);
        let before = unexpired(shorter, now);
        assert forall|i: int|
            0 <= i < bucket.len() && now.nanos < (#[trigger] bucket[i]).expires_at.nanos implies kept.contains(
        bucket[i]) by {
            if i < shorter.len() {
                assert(shorter[i] == bucket[i]);
                let j = choose|j: int| 0 <= j < before.len() && before[j] == bucket[i];
                assert(kept[j] == bucket[i]);
            } else {
                assert(kept[kept.len() - 1] == bucket[i]);
            }
        }
        if bucket.last().expires_at.nanos > now.nanos {
            assert(kept.drop_last() =~= before);
        }
    }
}

/// A reap changes nothing about what a request is handed at that moment.
pub proof fn law_reap_changes_no_answer<I>(bucket: Seq<Idle<I>>, now: Duration)
    ensures
        handed_out(unexpired(bucket, now), now) == handed_out(bucket, now),
    decreases bucket.len(),
{
    if bucket.len() > 0 {
        law_reap_changes_no_answer(bucket.drop_last(), now);
    }
}

/// What came back last goes out first, while it has not expired.
pub proof fn law_last_in_first_out<I>(
    bucket: Seq<Idle<I>>,
    idle: Idle<I>,
    cfg: PoolConfig,
    now: Duration,
)
    requires
        cfg.max_idle_per_key > 0,
        now.nanos < idle.expires_at.nanos,
    ensures
        handed_out(put_back(bucket, idle, Some(cfg)), now) == Some(idle.est),
        idle.est is Sole && bucket.len() < cfg.max_idle_per_key ==> left_behind(
            put_back(bucket, idle, Some(cfg)),
            now,
            Some(cfg),
        ) == bucket,
{
    let after = put_back(bucket, idle, Some(cfg));
    assert(after.last() == idle);
    if bucket.len() < cfg.max_idle_per_key {
        assert(after.drop_last() =~= bucket);
    }
}

/// A shared connection that is handed out is still there, for another idle
/// timeout.
pub proof fn law_shared_connection_stays<I>(bucket: Seq<Idle<I>>, cfg: PoolConfig, now: Duration)
    requires
        handed_out(bucket, now) matches Some(Established::Shared(_)),
    ensures
        ({
            let after = left_behind(bucket, now, Some(cfg));
            &&& after.len() > 0
            &&& Some(after.last().est) == handed_out(bucket, now)
            &&& after.last().expires_at == sum_of(now, cfg.idle_timeout)
        }),
{
}

/// Connections under keys that differ in anything but the case of a name are
/// kept apart; those that differ in case alone are not.
pub proof fn law_keys_differ_in_more_than_case(
    s1: Security,
    h1: Seq<char>,
    p1: u16,
    r1: Protocol,
    x1: Option<Seq<char>>,
    s2: Security,
    h2: Seq<char>,
    p2: u16,
    r2: Protocol,
    x2: Option<Seq<char>>,
)
    ensures
        key_of(s1, h1, p1, r1, x1) == key_of(s2, h2, p2, r2, x2) <==> {
            &&& s1 == s2
            &&& lower(h1) == lower(h2)
            &&& p1 == p2
            &&& r1 == r2
            &&& match (x1, x2) {
                (Some(a), Some(b)) => lower(a) == lower(b),
                (None, None) => true,
                _ => false,
            }
        },
        key_of(s1, lower(h1), p1, r1, x1) == key_of(s1, h1, p1, r1, x1),
{
    lemma_lower_idempotent(h1);
}

/// The reaper never sleeps for less than its shortest time, and at least as
/// long as until the next deadline.
pub proof fn law_reaper_does_not_spin(
    idle_timeout: Duration,
    next: Option<Duration>,
    now: Duration,
)
    ensures
        next_sleep(idle_timeout, next, now).nanos >= 1_000_000,
        next matches Some(n) ==> now.nanos + next_sleep(idle_timeout, next, now).nanos >= n.nanos,
{
}

/// The connections up to the last one that has not expired.
proof fn lemma_fresh_end<I>(bucket: Seq<Idle<I>>, now: Duration, i: int)
    requires
        0 <= i < bucket.len(),
        now.nanos < bucket[i].expires_at.nanos,
        forall|j: int| i < j < bucket.len() ==> (#[trigger] bucket[j]).expires_at.nanos <= now.nanos,
    ensures
        fresh_end(bucket, now) == bucket.take(i + 1),
    decreases bucket.len(),
{
    if i == bucket.len() - 1 {
        assert(bucket.take(i + 1) =~= bucket);
    } else {
        let shorter = bucket.drop_last();
        assert(forall|j: int| 0 <= j < shorter.len() ==> shorter[j] == bucket[j]);
        lemma_fresh_end(shorter, now, i);
        assert(shorter.take(i + 1) =~= bucket.take(i + 1));
    }
}

/// The last connection that has not expired is handed out, wherever it stands,
/// and what is behind it leaves. One for a single request leaves with it; a
/// shared one stays in its place, for another idle timeout. What is before it
/// is left alone.
pub proof fn law_the_last_unexpired_is_handed_out<I>(
    bucket: Seq<Idle<I>>,
    now: Duration,
    cfg: PoolConfig,
    i: int,
)
    requires
        0 <= i < bucket.len(),
        now.nanos < bucket[i].expires_at.nanos,
        forall|j: int| i < j < bucket.len() ==> (#[trigger] bucket[j]).expires_at.nanos <= now.nanos,
    ensures
        handed_out(bucket, now) == Some(bucket[i].est),
        bucket[i].est is Sole ==> left_behind(bucket, now, Some(cfg)) == bucket.take(i),
        bucket[i].est matches Established::Shared(slot) ==> {
            let left = left_behind(bucket, now, Some(cfg));
            &&& left.len() == i + 1
            &&& left.take(i) == bucket.take(i)
            &&& left[i].est == Established::<I>::Shared(slot)
            &&& now.nanos + cfg.idle_timeout.nanos <= crate::time::MAX_NANOS
                ==> left[i].expires_at.nanos == now.nanos + cfg.idle_timeout.nanos
        },
{
    lemma_fresh_end(bucket, now, i);
    let fresh = bucket.take(i + 1);
    assert(fresh.last() == bucket[i]);
    assert(fresh.drop_last() =~= bucket.take(i));
    if bucket[i].est is Shared {
        assert(left_behind(bucket, now, Some(cfg)).take(i) =~= bucket.take(i));
    }
}

/// Where everything has expired nothing is handed out and nothing is left.
pub proof fn law_the_expired_are_gone<I>(
    bucket: Seq<Idle<I>>,
    now: Duration,
    config: Option<PoolConfig>,
)
    requires
        forall|j: int| 0 <= j < bucket.len() ==> (#[trigger] bucket[j]).expires_at.nanos <= now.nanos,
    ensures
        handed_out(bucket, now) is None,
        left_behind(bucket, now, config).len() == 0,
    decreases bucket.len(),
{
    if bucket.len() > 0 {
        let shorter = bucket.drop_last();
        assert(forall|j: int| 0 <= j < shorter.len() ==> shorter[j] == bucket[j]);
        law_the_expired_are_gone(shorter, now, config);
    }
}

/// What comes back stands last; those that were there keep their places before
/// it, and where there are more than are kept only the oldest one leaves. A
/// pool that is off, or keeps none, takes nothing.
pub proof fn law_what_comes_back_stands_last<I>(
    bucket: Seq<Idle<I>>,
    idle: Idle<I>,
    cfg: PoolConfig,
)
    requires
        bucket.len() <= cfg.max_idle_per_key,
    ensures
        put_back(bucket, idle, None) == bucket,
        cfg.max_idle_per_key == 0 ==> put_back(bucket, idle, Some(cfg)) == bucket,
        cfg.max_idle_per_key > 0 ==> {
            let after = put_back(bucket, idle, Some(cfg));
            &&& after.last() == idle
            &&& bucket.len() < cfg.max_idle_per_key ==> after.drop_last() == bucket
            &&& bucket.len() == cfg.max_idle_per_key ==> after.drop_last() == bucket.skip(1)
        },
{
    if cfg.max_idle_per_key > 0 {
        let after = put_back(bucket, idle, Some(cfg));
        if bucket.len() < cfg.max_idle_per_key {
            assert(after.drop_last() =~= bucket);
        } else {
            assert(after.drop_last() =~= bucket.skip(1));
        }
    }
}

/// A reap looks at each connection by itself and keeps the order: one whose
/// deadline is now or was before leaves, every other one stays.
pub proof fn law_a_reap_looks_at_each<I>(
    before: Seq<Idle<I>>,
    idle: Idle<I>,
    behind: Seq<Idle<I>>,
    now: Duration,
)
    ensures
        unexpired(before + behind, now) == unexpired(before, now) + unexpired(behind, now),
        idle.expires_at.nanos <= now.nanos ==> unexpired(seq![idle], now).len() == 0,
        now.nanos < idle.expires_at.nanos ==> unexpired(seq![idle], now) == seq![idle],
    decreases behind.len(),
{
    let one = seq![idle];
    assert(one.drop_last() =~= Seq::<Idle<I>>::empty());
    assert(unexpired(one.drop_last(), now) =~= Seq::<Idle<I>>::empty());
    assert(Seq::<Idle<I>>::empty().push(idle) =~= one);
    let all = before + behind;
    if behind.len() == 0 {
        assert(all =~= before);
        assert(unexpired(before, now) + unexpired(behind, now) =~= unexpired(before, now));
    } else {
        law_a_reap_looks_at_each(before, idle, behind.drop_last(), now);
        assert(all.drop_last() =~= before + behind.drop_last());
        assert(all.last() == behind.last());
        assert(unexpired(all, now) =~= unexpired(before, now) + unexpired(behind, now));
    }
}

/// Forgetting a shared connection takes it away, wherever it stands and however
/// often, and leaves every other one in its order.
pub proof fn law_one_slot_is_forgotten<I>(
    before: Seq<Idle<I>>,
    idle: Idle<I>,
    behind: Seq<Idle<I>>,
    slot: u64,
)
    ensures
        without_slot(before + behind, slot) == without_slot(before, slot) + without_slot(
            behind,
            slot,
        ),
        idle.est == Established::<I>::Shared(slot) ==> without_slot(seq![idle], slot).len() == 0,
        idle.est != Established::<I>::Shared(slot) ==> without_slot(seq![idle], slot) == seq![idle],
    decreases behind.len(),
{
    let one = seq![idle];
    assert(one.drop_last() =~= Seq::<Idle<I>>::empty());
    assert(without_slot(one.drop_last(), slot) =~= Seq::<Idle<I>>::empty());
    assert(Seq::<Idle<I>>::empty().push(idle) =~= one);
    let all = before + behind;
    if behind.len() == 0 {
        assert(all =~= before);
        assert(without_slot(before, slot) + without_slot(behind, slot) =~= without_slot(
            before,
            slot,
        ));
    } else {
        law_one_slot_is_forgotten(before, idle, behind.drop_last(), slot);
        assert(all.drop_last() =~= before + behind.drop_last());
        assert(all.last() == behind.last());
        assert(without_slot(all, slot) =~= without_slot(before, slot) + without_slot(behind, slot));
    }
}

/// The reaper sleeps exactly until the next deadline where that is a
/// millisecond away or more, and for the idle timeout where nothing waits;
/// where either is shorter, for that millisecond.
pub proof fn law_the_reaper_sleeps_until_the_next_deadline(
    idle_timeout: Duration,
    next: Option<Duration>,
    now: Duration,
)
    ensures
        next matches Some(n) ==> {
            &&& n.nanos >= now.nanos + 1_000_000 ==> next_sleep(idle_timeout, next, now).nanos
                == n.nanos - now.nanos
            &&& n.nanos < now.nanos + 1_000_000 ==> next_sleep(idle_timeout, next, now).nanos
                == 1_000_000
        },
        next is None && idle_timeout.nanos >= 1_000_000 ==> next_sleep(idle_timeout, next, now)
            == idle_timeout,
        next is None && idle_timeout.nanos < 1_000_000 ==> next_sleep(
            idle_timeout,
            next,
            now,
        ).nanos == 1_000_000,
{
}

/// Everyone who waits for a connection is woken once at its end, and nobody
/// else is, however often and in whatever order they asked; where none is
/// being made nobody waits.
pub proof fn law_whoever_waits_is_woken_once(wakers: Seq<u64>, who: u64)
    ensures
        joined_by_all(Some(Seq::empty()), wakers) is Some,
        woken_of(joined_by_all(Some(Seq::empty()), wakers)).contains(who) <==> wakers.contains(who),
        woken_of(joined_by_all(Some(Seq::empty()), wakers)).no_duplicates(),
        joined_by(None, who) is None,
        woken_of(None).len() == 0,
    decreases wakers.len(),
{
    if wakers.len() > 0 {
        let before = wakers.drop_last();
        law_whoever_waits_is_woken_once(before, who);
        law_whoever_waits_is_woken_once(before, wakers.last());
        let w = joined_by_all(Some(Seq::empty()), before)->0;
        let last = wakers.last();
        if wakers.contains(who) {
            let i = choose|i: int| 0 <= i < wakers.len() && wakers[i] == who;
            if i < before.len() {
                assert(before[i] == who);
            }
        }
        if before.contains(who) {
            let i = choose|i: int| 0 <= i < before.len() && before[i] == who;
            assert(wakers[i] == who);
        }
        assert(wakers[wakers.len() - 1] == last);
        if !w.contains(last) {
            let next = w.push(last);
            assert(next[w.len() as int] == last);
            if w.contains(who) {
                let i = choose|i: int| 0 <= i < w.len() && w[i] == who;
                assert(next[i] == who);
            }
            if next.contains(who) {
                let i = choose|i: int| 0 <= i < next.len() && next[i] == who;
                if i < w.len() {
                    assert(w[i] == who);
                }
            }
            assert(next.no_duplicates());
        }
    }
}

/// The reaper ends exactly where nobody has the pool any more.
pub proof fn law_the_reaper_ends_with_the_pool(idle_timeout: Duration, found: Woken)
    ensures
        reaper_goes_on(idle_timeout, found) is Over <==> found is PoolGone,
        found matches Woken::Reaped { next, now } ==> reaper_goes_on(idle_timeout, found)
            == ReaperStep::Sleep(next_sleep(idle_timeout, next, now)),
{
}

} // verus!
