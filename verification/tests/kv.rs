//! Advertisements in a key-value store.

use hclient_native::altsvc::kv::{
    decode, encode, entry_if, is_ip_literal, key_for, stored_secs, Done, Entry, GetStep, KvStore,
    Query, Running, Step, WallTime, PERSISTENT, VOLATILE,
};
use hclient_native::altsvc::Origin;
use hclient_native::time::Duration;
use std::cell::RefCell;
use std::collections::HashMap;

/// A store in memory: the values under each namespace and key, each until it
/// expires.
struct Memory {
    values: RefCell<HashMap<(String, String), Vec<(Vec<u8>, Option<WallTime>)>>>,
}

fn later(a: &WallTime, b: &WallTime) -> bool {
    !a.before && !b.before && a.offset.nanos > b.offset.nanos
}

impl Memory {
    fn new() -> Self {
        Memory {
            values: RefCell::new(HashMap::new()),
        }
    }

    fn get(&self, ns: &str, key: &str, now: WallTime) -> Vec<Vec<u8>> {
        let values = self.values.borrow();
        match values.get(&(ns.to_string(), key.to_string())) {
            Some(list) => list
                .iter()
                .filter(|(_, until)| match until {
                    Some(t) => later(t, &now),
                    None => true,
                })
                .map(|(v, _)| v.clone())
                .collect(),
            None => Vec::new(),
        }
    }

    fn put(&self, ns: &str, key: &str, value: Vec<u8>, expires: Option<WallTime>) {
        self.values
            .borrow_mut()
            .entry((ns.to_string(), key.to_string()))
            .or_default()
            .push((value, expires));
    }

    fn remove(&self, ns: &str, key: &str) {
        self.values
            .borrow_mut()
            .remove(&(ns.to_string(), key.to_string()));
    }

    fn clear(&self, ns: &str) {
        self.values.borrow_mut().retain(|(n, _), _| n != ns);
    }
}

fn at(secs: u64) -> WallTime {
    WallTime {
        before: false,
        offset: Duration::from_secs(secs),
    }
}

fn store() -> KvStore<Memory> {
    KvStore::new(Memory::new())
}

fn origin(host: &str, port: u16) -> Origin {
    Origin::new(host, port)
}

fn write(s: &KvStore<Memory>, mut done: Done) {
    loop {
        match &done.running {
            Running::Step(Step::Remove { ns, key }) => s.inner().remove(ns, key),
            Running::Step(Step::Put {
                ns,
                key,
                value,
                expires,
            }) => s.inner().put(ns, key, value.clone(), Some(*expires)),
            Running::Clear { ns } => s.inner().clear(ns),
        }
        if !done.advance() {
            return;
        }
    }
}

fn get(s: &KvStore<Memory>, origin: &Origin) -> Option<Entry> {
    let (mut query, mut lookup) = s.get(origin);
    loop {
        let Query { ns, key } = &query;
        let found = s.inner().get(ns, key, at(0));
        match lookup.poll(&found) {
            GetStep::Ready(r) => return r,
            GetStep::Ask(q, next) => {
                query = q;
                lookup = next;
            }
        }
    }
}

fn put(s: &KvStore<Memory>, origin: &Origin, entry: Entry) {
    write(s, s.put(origin, entry));
}

#[test]
fn the_expiry_survives_the_round_trip_and_persist_comes_from_the_namespace() {
    for secs in [0, 1, 4_102_444_800, u64::from(u32::MAX)] {
        let e = Entry::new(at(secs), false);
        let bytes = encode(e);
        assert_eq!(decode(&bytes, false), Some(Entry::new(at(secs), false)));
        assert_eq!(
            decode(&bytes, true),
            Some(Entry::new(at(secs), true)),
            "the same eight bytes, read out of the other namespace"
        );
    }
}

#[test]
fn a_timestamp_that_overflows_the_clock_is_refused_rather_than_panicking() {
    let bytes = u64::MAX.to_le_bytes().to_vec();
    assert!(decode(&bytes, false).is_none());
}

#[test]
fn bytes_this_encoder_did_not_write_are_refused() {
    assert_eq!(decode(&[], false), None, "empty");
    assert_eq!(decode(&[0; 7], false), None, "one byte short");
    assert_eq!(decode(&[0; 9], false), None, "one byte long");
}

#[test]
fn a_name_is_reversed_and_carries_its_port() {
    assert_eq!(
        key_for(&origin("a.b.example.com", 443)),
        "com.example.b.a\u{1}443"
    );
    assert_eq!(
        key_for(&origin("example.com", 8443)),
        "com.example\u{1}8443"
    );
}

#[test]
fn an_ip_literal_keeps_its_order() {
    assert_eq!(key_for(&origin("127.0.0.1", 443)), "127.0.0.1\u{1}443");
    assert_eq!(key_for(&origin("::1", 443)), "::1\u{1}443");
}

#[test]
fn two_reversed_ip_literals_do_not_collide() {
    assert_ne!(
        key_for(&origin("127.0.0.1", 443)),
        key_for(&origin("1.0.0.127", 443))
    );
}

#[test]
fn one_host_on_two_ports_is_two_entries() {
    let s = store();
    put(
        &s,
        &origin("example.com", 443),
        Entry::new(at(100), false),
    );
    assert!(get(&s, &origin("example.com", 8443)).is_none());
    assert_eq!(
        get(&s, &origin("example.com", 443)),
        Some(Entry::new(at(100), false))
    );
}

#[test]
fn a_stored_entry_comes_back_from_either_namespace() {
    for persist in [false, true] {
        let s = store();
        let o = origin("example.com", 443);
        put(&s, &o, Entry::new(at(100), persist));
        assert_eq!(
            get(&s, &o),
            Some(Entry::new(at(100), persist)),
            "persist={persist}"
        );
    }
}

#[test]
fn an_unknown_origin_answers_nothing() {
    let s = store();
    assert!(get(&s, &origin("example.com", 443)).is_none());
}

#[test]
fn a_second_put_replaces_rather_than_accumulating() {
    let s = store();
    let o = origin("example.com", 443);
    put(&s, &o, Entry::new(at(100), false));
    put(&s, &o, Entry::new(at(200), false));
    assert_eq!(get(&s, &o), Some(Entry::new(at(200), false)));
}

#[test]
fn re_advertising_with_a_different_persist_moves_the_entry() {
    let s = store();
    let o = origin("example.com", 443);
    put(&s, &o, Entry::new(at(100), true));
    put(&s, &o, Entry::new(at(200), false));
    assert_eq!(get(&s, &o), Some(Entry::new(at(200), false)));
    put(&s, &o, Entry::new(at(300), true));
    assert_eq!(get(&s, &o), Some(Entry::new(at(300), true)));
    write(&s, s.retain_persistent());
    assert_eq!(get(&s, &o), Some(Entry::new(at(300), true)));
}

#[test]
fn remove_forgets_an_origin_whichever_namespace_held_it() {
    for persist in [false, true] {
        let s = store();
        let o = origin("example.com", 443);
        put(&s, &o, Entry::new(at(100), persist));
        write(&s, s.remove(&o));
        assert!(get(&s, &o).is_none(), "persist={persist}");
    }
}

#[test]
fn retain_persistent_keeps_the_persistent_and_drops_the_rest() {
    let s = store();
    let volatile = origin("volatile.test", 443);
    let persistent = origin("persistent.test", 443);
    put(&s, &volatile, Entry::new(at(100), false));
    put(&s, &persistent, Entry::new(at(100), true));
    write(&s, s.retain_persistent());
    assert!(get(&s, &volatile).is_none());
    assert_eq!(get(&s, &persistent), Some(Entry::new(at(100), true)));
}

#[test]
fn retain_persistent_leaves_another_seams_namespace_alone() {
    let kv = Memory::new();
    kv.put("cookie", "com.example", b"c".to_vec(), None);
    let s = KvStore::new(kv);
    put(
        &s,
        &origin("example.com", 443),
        Entry::new(at(100), false),
    );
    write(&s, s.retain_persistent());
    assert_eq!(
        s.inner().get("cookie", "com.example", at(0)),
        vec![b"c".to_vec()]
    );
}

#[test]
fn an_expired_entry_is_not_answered() {
    let s = store();
    let o = origin("example.com", 443);
    put(&s, &o, Entry::new(at(100), false));
    let key = key_for(&o);
    assert!(
        s.inner().get(VOLATILE, &key, at(101)).is_empty(),
        "the byte store hides it once its expiry has passed"
    );
    assert!(!s.inner().get(VOLATILE, &key, at(99)).is_empty());
}

#[test]
fn the_persistent_namespace_is_asked_first() {
    let s = store();
    let (query, lookup) = s.get(&origin("example.com", 443));
    assert_eq!(query.ns, PERSISTENT);
    match lookup.poll(&Vec::new()) {
        GetStep::Ask(q, _) => {
            assert_eq!(q.ns, VOLATILE);
            assert_eq!(q.key, "com.example\u{1}443");
        }
        GetStep::Ready(r) => panic!("over too soon: {r:?}"),
    }
}

#[test]
fn a_value_that_cannot_be_read_is_passed_over() {
    let s = store();
    let (_, lookup) = s.get(&origin("example.com", 443));
    let good = encode(Entry::new(at(7), true));
    match lookup.poll(&vec![b"short".to_vec(), good]) {
        GetStep::Ready(r) => assert_eq!(r, Some(Entry::new(at(7), true))),
        GetStep::Ask(q, _) => panic!("asked for {q:?}"),
    }
}

#[test]
fn an_expiry_before_the_epoch_is_stored_as_the_epoch() {
    let before = WallTime {
        before: true,
        offset: Duration::from_secs(5),
    };
    assert_eq!(encode(Entry::new(before, false)), vec![0; 8]);
}

#[test]
fn the_value_is_the_seconds_with_the_least_octet_first() {
    assert_eq!(
        encode(Entry::new(at(0x0102_0304), false)),
        vec![4, 3, 2, 1, 0, 0, 0, 0]
    );
    assert_eq!(stored_secs(&[4, 3, 2, 1, 0, 0, 0, 0]), Some(0x0102_0304));
    assert_eq!(stored_secs(&[0xff; 8]), Some(u64::MAX));
    assert_eq!(stored_secs(&[0; 5]), None);
}

#[test]
fn what_the_clock_cannot_represent_is_no_entry() {
    assert_eq!(entry_if(9, true, true), Some(Entry::new(at(9), true)));
    assert_eq!(entry_if(9, false, true), None);
}

#[test]
fn an_address_is_told_from_a_name() {
    assert!(is_ip_literal("127.0.0.1"));
    assert!(is_ip_literal("[::1]"));
    assert!(is_ip_literal("7"));
    assert!(!is_ip_literal("127.0.0.1.example"));
    assert!(!is_ip_literal("1..2"));
    assert!(!is_ip_literal(""));
}

#[test]
fn names_under_one_domain_stand_together_and_apart_from_others() {
    assert_eq!(key_for(&origin("Example.COM", 1)), "com.example\u{1}1");
    assert_ne!(key_for(&origin("ab.c", 1)), key_for(&origin("b.ca", 1)));
    assert_eq!(key_for(&origin("example.com.", 1)), "com.example\u{1}1");
}

#[test]
fn only_a_dot_at_the_end_leaves_no_trace_in_a_key() {
    let key = |host: &str| key_for(&Origin::new(host, 443));
    assert_eq!(key("a..b"), "b..a\u{1}443");
    assert_eq!(key(".a"), "a.\u{1}443");
    assert_ne!(key(".a"), key("a"));
    assert_eq!(key("a.b."), key("a.b"));
}

#[test]
fn a_lookup_finds_what_the_last_call_left() {
    let s = store();
    let o = origin("example.com", 443);
    let other = origin("example.org", 443);
    let entry = |secs: u64, persist: bool| Entry::new(at(secs), persist);
    put(&s, &o, entry(10, true));
    put(&s, &other, entry(20, false));
    put(&s, &o, entry(30, false));
    assert_eq!(get(&s, &o), Some(entry(30, false)), "replaced, and moved");
    write(&s, s.remove(&o));
    assert_eq!(get(&s, &o), None, "nothing older comes back");
    assert_eq!(get(&s, &other), Some(entry(20, false)), "left alone");
    put(&s, &o, entry(40, true));
    write(&s, s.retain_persistent());
    assert_eq!(get(&s, &o), Some(entry(40, true)));
    assert_eq!(get(&s, &other), None);
    put(&s, &o, entry(50, false));
    write(&s, s.retain_persistent());
    assert_eq!(get(&s, &o), None);
}

#[test]
fn a_name_that_ends_in_a_dot_is_found_while_nothing_shares_its_key() {
    let s = store();
    let o = origin("example.com.", 443);
    let e = Entry::new(at(10), true);
    put(&s, &o, e);
    put(&s, &origin("example.org", 443), Entry::new(at(20), false));
    write(&s, s.retain_persistent());
    assert_eq!(get(&s, &o), Some(e));
    write(&s, s.remove(&o));
    assert_eq!(get(&s, &o), None);
}
