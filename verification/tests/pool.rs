//! Pooled connections.

use hclient_native::pool::{
    CheckIn, Established, Pool, PoolConfig, PoolKey, Protocol, Reaper, ReaperStep, Security, Woken,
};
use hclient_native::time::Duration;
use std::cell::RefCell;
use std::rc::{Rc, Weak};

fn key(host: &str) -> PoolKey {
    PoolKey::new(Security::Plaintext, host, 80, Protocol::Http11, None)
}

fn ms(n: u64) -> Duration {
    Duration::from_millis(n)
}

#[test]
fn a_key_is_case_insensitive_in_the_host_and_nowhere_else() {
    assert_eq!(key("Example.COM"), key("example.com"));
    assert_ne!(key("example.com"), key("example.org"));
    assert_ne!(
        PoolKey::new(Security::Plaintext, "h", 80, Protocol::Http11, None),
        PoolKey::new(Security::Plaintext, "h", 8080, Protocol::Http11, None),
    );
}

#[test]
fn the_protocol_separates_keys() {
    let of = |p| PoolKey::new(Security::Plaintext, "h", 80, p, None);
    assert_ne!(of(Protocol::Http11), of(Protocol::H2));
    assert_eq!(of(Protocol::H2), of(Protocol::H2));
}

#[test]
fn tls_configuration_identity_separates_keys() {
    let a = 1;
    let b = 2;
    assert_ne!(
        PoolKey::new(Security::Tls(a), "h", 443, Protocol::Http11, None),
        PoolKey::new(Security::Tls(b), "h", 443, Protocol::Http11, None),
    );
    assert_eq!(
        PoolKey::new(Security::Tls(a), "h", 443, Protocol::Http11, None),
        PoolKey::new(Security::Tls(a), "h", 443, Protocol::Http11, None),
    );
    assert_ne!(
        PoolKey::new(Security::Plaintext, "h", 443, Protocol::Http11, None),
        PoolKey::new(Security::Tls(a), "h", 443, Protocol::Http11, None),
    );
}

#[test]
fn a_proxy_separates_keys_whatever_its_case() {
    let of = |p: Option<&str>| PoolKey::new(Security::Plaintext, "h", 80, Protocol::Http11, p);
    assert_ne!(of(None), of(Some("p:1")));
    assert_eq!(of(Some("P:1")), of(Some("p:1")));
}

/// A clock that is ready so many times and notes what it was asked for.
struct FakeClock {
    asked: Vec<Duration>,
    ready: usize,
    elapsed: Duration,
}

impl FakeClock {
    fn ready_for(n: usize) -> Self {
        FakeClock {
            asked: Vec::new(),
            ready: n,
            elapsed: Duration { nanos: 0 },
        }
    }
}

/// The reaper over a pool that may be gone: `true` once it is over.
struct Watch {
    reaper: Reaper,
    pool: Weak<RefCell<Pool<u32>>>,
    started: bool,
}

impl Watch {
    fn new(pool: Weak<RefCell<Pool<u32>>>, idle: Duration) -> Self {
        Watch {
            reaper: Reaper::new(idle),
            pool,
            started: false,
        }
    }

    fn poll_once(&mut self, clock: &mut FakeClock) -> bool {
        if !self.started {
            self.started = true;
            match self.reaper.start() {
                ReaperStep::Sleep(d) => clock.asked.push(d),
                ReaperStep::Over => return true,
            }
        }
        while clock.ready > 0 {
            clock.ready -= 1;
            let found = match self.pool.upgrade() {
                None => Woken::PoolGone,
                Some(pool) => Woken::Reaped {
                    next: pool.borrow_mut().reap(clock.elapsed),
                    now: clock.elapsed,
                },
            };
            match self.reaper.woke(found) {
                ReaperStep::Sleep(d) => clock.asked.push(d),
                ReaperStep::Over => return true,
            }
        }
        false
    }
}

fn pool_of(entries: &[u64]) -> Pool<u32> {
    let mut pool = Pool::new(Some(PoolConfig::default()));
    for n in entries {
        pool.put(key("h"), Established::Sole(*n as u32), ms(*n));
    }
    pool
}

fn sole(e: Option<Established<u32>>) -> Option<u32> {
    match e {
        Some(Established::Sole(n)) => Some(n),
        _ => None,
    }
}

#[test]
fn reap_drops_what_is_past_its_deadline_and_reports_the_next_one() {
    let mut pool = pool_of(&[100, 200, 300]);
    assert_eq!(
        pool.reap(ms(150)),
        Some(ms(200)),
        "the 100ms entry is gone and 200ms is what to wake for next"
    );
    assert_eq!(
        pool.reap(ms(150)),
        Some(ms(200)),
        "reaping twice at the same instant must change nothing"
    );
    assert_eq!(pool.reap(ms(250)), Some(ms(300)));
    assert_eq!(
        pool.reap(ms(350)),
        None,
        "everything is past its deadline, so there is nothing to wake for"
    );
}

#[test]
fn the_deadline_itself_counts_as_expired_for_reap_as_it_does_for_take() {
    let mut pool = pool_of(&[100]);
    assert_eq!(pool.reap(ms(100)), None);
    let mut pool = pool_of(&[100]);
    assert!(pool.take(&key("h"), ms(100)).is_none());
}

#[test]
fn an_empty_pool_makes_the_reaper_wait_the_idle_timeout() {
    let mut clock = FakeClock::ready_for(1);
    let pool = Rc::new(RefCell::new(Pool::new(Some(PoolConfig::default()))));
    let mut reaper = Watch::new(Rc::downgrade(&pool), ms(300));
    assert!(!reaper.poll_once(&mut clock));
    assert_eq!(
        clock.asked,
        vec![ms(300), ms(300)],
        "one sleep before the first reap and one after it, both the idle timeout"
    );
}

#[test]
fn the_reaper_waits_exactly_until_the_earliest_deadline() {
    let mut clock = FakeClock::ready_for(1);
    clock.elapsed = ms(150);
    let pool = Rc::new(RefCell::new(pool_of(&[100, 400])));
    let mut reaper = Watch::new(Rc::downgrade(&pool), ms(300));
    assert!(!reaper.poll_once(&mut clock));
    assert_eq!(
        clock.asked,
        vec![ms(300), ms(250)],
        "the 100ms entry was reaped at 150ms, and 400ms is 250ms away"
    );
}

#[test]
fn a_zero_idle_timeout_does_not_turn_the_reaper_into_a_spin() {
    let mut clock = FakeClock::ready_for(3);
    let pool = Rc::new(RefCell::new(Pool::new(Some(PoolConfig::default()))));
    let mut reaper = Watch::new(Rc::downgrade(&pool), Duration { nanos: 0 });
    assert!(!reaper.poll_once(&mut clock));
    let asked = &clock.asked;
    assert_eq!(
        asked.len(),
        4,
        "three ready sleeps and the pending one that ends the poll: {asked:?}"
    );
    for d in &asked[1..] {
        assert!(
            d.nanos >= ms(1).nanos,
            "every wait after the first must be floored: {asked:?}"
        );
    }
}

#[test]
fn the_reaper_ends_when_the_pool_it_watches_is_dropped() {
    let mut clock = FakeClock::ready_for(1);
    let pool: Rc<RefCell<Pool<u32>>> =
        Rc::new(RefCell::new(Pool::new(Some(PoolConfig::default()))));
    let weak = Rc::downgrade(&pool);
    drop(pool);
    let mut reaper = Watch::new(weak, ms(300));
    assert!(reaper.poll_once(&mut clock));
    assert_eq!(
        clock.asked,
        vec![ms(300)],
        "it must not ask for a second sleep after finding the pool gone"
    );
}

#[test]
fn the_reaper_stays_alive_while_the_pool_does() {
    let mut clock = FakeClock::ready_for(1);
    let pool = Rc::new(RefCell::new(Pool::new(Some(PoolConfig::default()))));
    let mut reaper = Watch::new(Rc::downgrade(&pool), ms(300));
    assert!(!reaper.poll_once(&mut clock));
    assert_eq!(clock.asked.len(), 2);
    drop(pool);
    clock.ready = 1;
    assert!(reaper.poll_once(&mut clock));
}

#[test]
fn the_default_keeps_eight_for_ninety_seconds() {
    let cfg = PoolConfig::default();
    assert_eq!(cfg.idle_timeout, Duration::from_secs(90));
    assert_eq!(cfg.max_idle_per_key, 8);
}

#[test]
fn what_came_back_last_goes_out_first() {
    let mut pool = pool_of(&[100, 200]);
    assert_eq!(sole(pool.take(&key("H"), ms(50))), Some(200));
    assert_eq!(sole(pool.take(&key("h"), ms(50))), Some(100));
    assert!(pool.take(&key("h"), ms(50)).is_none());
}

#[test]
fn the_oldest_leaves_where_there_are_too_many() {
    let mut pool: Pool<u32> = Pool::new(Some(PoolConfig {
        idle_timeout: ms(10),
        max_idle_per_key: 2,
    }));
    for n in 1..4u32 {
        pool.put(key("h"), Established::Sole(n), ms(100));
    }
    assert_eq!(sole(pool.take(&key("h"), ms(0))), Some(3));
    assert_eq!(sole(pool.take(&key("h"), ms(0))), Some(2));
    assert!(pool.take(&key("h"), ms(0)).is_none());
}

#[test]
fn a_pool_that_is_off_or_keeps_none_keeps_nothing() {
    for config in [
        None,
        Some(PoolConfig {
            idle_timeout: ms(10),
            max_idle_per_key: 0,
        }),
    ] {
        let mut pool: Pool<u32> = Pool::new(config);
        pool.put(key("h"), Established::Sole(1), ms(100));
        assert!(pool.take(&key("h"), ms(0)).is_none());
    }
}

#[test]
fn a_shared_connection_stays_for_another_idle_timeout() {
    let mut pool: Pool<u32> = Pool::new(Some(PoolConfig {
        idle_timeout: ms(10),
        max_idle_per_key: 2,
    }));
    pool.put(key("h"), Established::Shared(7), ms(20));
    assert!(matches!(
        pool.take(&key("h"), ms(15)),
        Some(Established::Shared(7))
    ));
    assert!(matches!(
        pool.take(&key("h"), ms(24)),
        Some(Established::Shared(7))
    ));
    pool.forget_shared(&key("h"), 8);
    assert!(pool.take(&key("h"), ms(24)).is_some());
    pool.forget_shared(&key("h"), 7);
    assert!(pool.take(&key("h"), ms(24)).is_none());
}

#[test]
fn an_expired_connection_under_a_fresh_one_waits_for_its_turn() {
    let mut pool = pool_of(&[100, 300, 200]);
    assert_eq!(sole(pool.take(&key("h"), ms(250))), Some(300));
    assert!(pool.take(&key("h"), ms(250)).is_none());
}

#[test]
fn one_request_connects_and_the_others_wait_once() {
    let mut pool: Pool<u32> = Pool::new(Some(PoolConfig::default()));
    assert!(pool.wait_for_connect(&key("h"), 1));
    assert!(pool.begin_connect(&key("h")));
    assert!(!pool.begin_connect(&key("H")));
    assert!(pool.begin_connect(&key("other")));
    assert!(!pool.wait_for_connect(&key("h"), 1));
    assert!(!pool.wait_for_connect(&key("h"), 2));
    assert!(!pool.wait_for_connect(&key("h"), 1));
    assert_eq!(pool.finish_connect(&key("h")), vec![1, 2]);
    assert_eq!(pool.finish_connect(&key("h")), Vec::<u64>::new());
    assert!(pool.wait_for_connect(&key("h"), 3));
    assert!(pool.begin_connect(&key("h")));
}

#[test]
fn a_loan_comes_back_under_its_own_key() {
    let mut pool: Pool<u32> = Pool::new(Some(PoolConfig::default()));
    CheckIn::new(key("h"), ms(50)).put(&mut pool, Established::Sole(4));
    assert!(pool.take(&key("g"), ms(0)).is_none());
    assert_eq!(sole(pool.take(&key("h"), ms(49))), Some(4));
}
