//! `Alt-Svc` field values and what is remembered of them.

use hclient_native::altsvc::{
    alt_authority, alternative, members, parse, trim_ows, AltSvcCache, Alternative, FieldValue,
    Origin, DEFAULT_MAX_AGE,
};
use hclient_native::time::Duration;

fn alt(id: &[u8], host: Option<&str>, port: u16, max_age: u64, persist: bool) -> Alternative {
    Alternative {
        protocol_id: id.to_vec(),
        host: host.map(|h| h.to_string()),
        port,
        max_age,
        persist,
    }
}

fn list(value: &[u8]) -> Vec<Alternative> {
    match parse(value) {
        FieldValue::Alternatives(l) => l,
        FieldValue::Clear => panic!("clear"),
    }
}

fn secs(n: u64) -> Duration {
    Duration::from_secs(n)
}

#[test]
fn one_alternative_with_its_defaults() {
    assert_eq!(
        list(b"h3=\":443\""),
        vec![alt(b"h3", None, 443, DEFAULT_MAX_AGE, false)]
    );
}

#[test]
fn every_part_is_read() {
    assert_eq!(
        list(b"h3=\"alt.example:8443\"; ma=60; persist=1, h2=\":80\" ;ma=\"7\""),
        vec![
            alt(b"h3", Some("alt.example"), 8443, 60, true),
            alt(b"h2", None, 80, 7, false),
        ]
    );
}

#[test]
fn clear_anywhere_beats_everything() {
    assert_eq!(parse(b"clear"), FieldValue::Clear);
    assert_eq!(parse(b"h3=\":443\", clear"), FieldValue::Clear);
    assert_eq!(parse(b" clear , nonsense"), FieldValue::Clear);
    assert_eq!(parse(b"Clear"), FieldValue::Alternatives(Vec::new()));
}

#[test]
fn an_unreadable_member_costs_no_other() {
    assert_eq!(
        list(b"nonsense, h3=\":443\",,h3=:443, h2=\":1\";"),
        vec![alt(b"h3", None, 443, DEFAULT_MAX_AGE, false)]
    );
    assert_eq!(list(b"h3=\":443"), Vec::new());
    assert_eq!(list(b""), Vec::new());
}

#[test]
fn a_comma_inside_quotes_is_no_boundary() {
    assert_eq!(
        members(b"a=\"x,y\",b"),
        vec![b"a=\"x,y\"".as_slice(), b"b".as_slice()]
    );
    assert_eq!(
        members(b"a=\"x\\\",y\",b"),
        vec![b"a=\"x\\\",y\"".as_slice(), b"b".as_slice()]
    );
    assert_eq!(members(b""), vec![b"".as_slice()]);
    assert_eq!(members(b",").len(), 2);
}

#[test]
fn escapes_in_an_identifier_are_undone() {
    assert_eq!(
        list(b"%68%33=\":443\""),
        vec![alt(b"h3", None, 443, DEFAULT_MAX_AGE, false)]
    );
    assert_eq!(alternative(b"%zz=\":443\""), None);
    assert_eq!(alternative(b"%6=\":443\""), None);
    assert_eq!(alternative(b"=\":443\""), None);
}

#[test]
fn an_authority_needs_a_port_that_can_be_reached() {
    assert_eq!(alt_authority(b":443"), Some((None, 443)));
    assert_eq!(
        alt_authority(b"[::1]:443"),
        Some((Some("[::1]".to_string()), 443))
    );
    assert_eq!(alt_authority(b"a:b:1"), Some((Some("a:b".to_string()), 1)));
    assert_eq!(alt_authority(b":0"), None);
    assert_eq!(alt_authority(b":65536"), None);
    assert_eq!(alt_authority(b":"), None);
    assert_eq!(alt_authority(b"host"), None);
    assert_eq!(alt_authority(b"[::1]"), None);
    assert_eq!(alt_authority(b"[::1"), None);
    assert_eq!(alt_authority(b"\xff:443"), None);
    assert_eq!(
        alt_authority("h\u{e9}:443".as_bytes()),
        Some((Some("h\u{e9}".to_string()), 443))
    );
}

#[test]
fn a_freshness_that_is_no_number_drops_its_member_and_one_too_large_is_held() {
    assert_eq!(alternative(b"h3=\":443\";ma=soon"), None);
    assert_eq!(
        alternative(b"h3=\":443\";ma=99999999999999999999999"),
        Some(alt(b"h3", None, 443, u64::MAX, false))
    );
    assert_eq!(
        alternative(b"h3=\":443\";ma=18446744073709551615"),
        Some(alt(b"h3", None, 443, u64::MAX, false))
    );
}

#[test]
fn the_last_of_a_repeated_parameter_counts_and_unknown_ones_do_not() {
    assert_eq!(
        alternative(b"h3=\":443\";MA=1;ma=2;x=\"y\";Persist=1"),
        Some(alt(b"h3", None, 443, 2, true))
    );
    assert_eq!(
        alternative(b"h3=\":443\";persist=1;persist=yes"),
        Some(alt(b"h3", None, 443, DEFAULT_MAX_AGE, false))
    );
}

#[test]
fn what_follows_the_parameters_drops_the_member() {
    assert_eq!(alternative(b"h3=\":443\" x"), None);
    assert_eq!(alternative(b"h3=\":443\";"), None);
    assert_eq!(alternative(b"h3=\":443\";ma"), None);
    assert!(alternative(b"h3=\":443\" \t").is_some());
}

#[test]
fn blanks_are_trimmed_at_both_ends() {
    assert_eq!(trim_ows(b" \t a b\t "), b"a b");
    assert_eq!(trim_ows(b" \t"), b"");
}

#[test]
fn an_advertisement_is_believed_until_its_time_is_over() {
    let mut cache = AltSvcCache::default();
    let o = Origin::new("Example.COM", 443);
    cache.note(&o, &parse(b"h3=\":443\";ma=10"), secs(5));
    let same = Origin::new("example.com", 443);
    assert!(cache.advertises_h3(&same, secs(14)));
    assert!(!cache.advertises_h3(&same, secs(15)), "strictly before");
    assert!(
        !cache.advertises_h3(&same, secs(6)),
        "what was asked for too late is forgotten"
    );
}

#[test]
fn a_freshness_of_zero_is_a_removal() {
    let mut cache = AltSvcCache::default();
    let o = Origin::new("example.com", 443);
    cache.note(&o, &parse(b"h3=\":443\""), secs(0));
    cache.note(&o, &parse(b"h3=\":443\";ma=0"), secs(1));
    assert!(!cache.advertises_h3(&o, secs(1)));
}

#[test]
fn a_value_without_h3_here_replaces_what_was_known() {
    for value in [
        b"clear".as_slice(),
        b"h2=\":443\"".as_slice(),
        b"h3=\":8443\"".as_slice(),
        b"h3=\"other.example:443\"".as_slice(),
        b"nonsense".as_slice(),
    ] {
        let mut cache = AltSvcCache::default();
        let o = Origin::new("example.com", 443);
        cache.note(&o, &parse(b"h3=\":443\""), secs(0));
        assert!(cache.advertises_h3(&o, secs(1)));
        cache.note(&o, &parse(value), secs(2));
        assert!(!cache.advertises_h3(&o, secs(3)), "{value:?}");
    }
}

#[test]
fn the_first_h3_at_the_origin_wins() {
    let mut cache = AltSvcCache::default();
    let o = Origin::new("example.com", 443);
    cache.note(
        &o,
        &parse(b"h3=\":1\";ma=99, h3=\"EXAMPLE.com:443\";ma=5, h3=\":443\";ma=50"),
        secs(0),
    );
    assert!(cache.advertises_h3(&o, secs(4)));
    assert!(!cache.advertises_h3(&o, secs(5)));
}

#[test]
fn a_change_of_network_keeps_what_persists_and_nothing_else() {
    let mut cache = AltSvcCache::default();
    let a = Origin::new("a.example", 443);
    let b = Origin::new("b.example", 443);
    cache.note(&a, &parse(b"h3=\":443\";persist=1"), secs(0));
    cache.note(&b, &parse(b"h3=\":443\""), secs(0));
    cache.network_changed();
    assert!(cache.advertises_h3(&a, secs(1)));
    assert!(!cache.advertises_h3(&b, secs(1)));
}

#[test]
fn an_expiry_past_the_longest_span_is_held_there() {
    let mut cache = AltSvcCache::default();
    let o = Origin::new("example.com", 443);
    cache.note(
        &o,
        &parse(b"h3=\":443\";ma=18446744073709551615"),
        secs(u64::MAX),
    );
    assert!(cache.advertises_h3(&o, secs(u64::MAX)));
}

#[test]
fn an_alternative_is_at_its_origin_whatever_the_case() {
    let o = Origin::new("example.com", 443);
    assert!(alt(b"h3", None, 443, 1, false).is_at(&o));
    assert!(alt(b"h3", Some("EXAMPLE.com"), 443, 1, false).is_at(&o));
    assert!(!alt(b"h3", Some("example.org"), 443, 1, false).is_at(&o));
    assert!(!alt(b"h3", None, 444, 1, false).is_at(&o));
}

#[test]
fn joined_values_have_the_alternatives_of_both() {
    let first = b"h3=\":443\"; ma=60, h2=\"alt.example:8443\"";
    let second = b"h3-29=\":444\", not readable";
    let mut joined = first.to_vec();
    joined.push(b',');
    joined.extend_from_slice(second);
    let mut both = list(first);
    both.extend(list(second));
    assert_eq!(both.len(), 3);
    assert_eq!(list(&joined), both);
}
