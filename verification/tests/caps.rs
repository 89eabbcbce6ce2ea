//! What a pair of transports can be said to do.

use hclient_native::caps::{combine, Capabilities, RedirectSupport, ReuseSupport, TlsSupport};

fn pair(f: impl Fn(&mut Capabilities, bool)) -> (Capabilities, Capabilities) {
    let (mut a, mut b) = (Capabilities::default(), Capabilities::default());
    f(&mut a, false);
    f(&mut b, true);
    (a, b)
}

#[test]
fn a_disagreement_on_any_unordered_enum_is_refused_and_names_its_field() {
    let (a, b) = pair(|c, on| {
        c.redirects = if on {
            RedirectSupport::Internal
        } else {
            RedirectSupport::Transparent
        }
    });
    assert_eq!(combine(&a, &b).unwrap_err().field, "redirects");
    let (a, b) = pair(|c, on| c.cancel_on_drop = on);
    assert_eq!(combine(&a, &b).unwrap_err().field, "cancel_on_drop");
    let (a, b) = pair(|c, on| c.response_decompression = on);
    assert_eq!(combine(&a, &b).unwrap_err().field, "response_decompression");
    let (a, b) = pair(|c, on| {
        c.tls_config = if on {
            TlsSupport::Full
        } else {
            TlsSupport::Absent
        }
    });
    assert_eq!(combine(&a, &b).unwrap_err().field, "tls_config");
}

#[test]
fn owning_a_jar_or_a_cache_is_a_refusal_rather_than_a_conjunction() {
    let (a, b) = pair(|c, on| c.owns_cookie_jar = on);
    assert_eq!(combine(&a, &b).unwrap_err().field, "owns_cookie_jar");
    let (a, b) = pair(|c, on| c.owns_cache = on);
    assert_eq!(combine(&a, &b).unwrap_err().field, "owns_cache");
}

#[test]
fn two_different_forbidden_header_lists_have_no_honest_union_to_store() {
    let mut a = Capabilities::default();
    let mut b = Capabilities::default();
    a.forbidden_request_headers = vec![http::header::COOKIE.as_str().to_string()];
    b.forbidden_request_headers = vec![http::header::ACCEPT_ENCODING.as_str().to_string()];
    assert_eq!(
        combine(&a, &b).unwrap_err().field,
        "forbidden_request_headers"
    );
    b.forbidden_request_headers = vec![http::header::COOKIE.as_str().to_string()];
    assert!(combine(&a, &b).is_ok());
}

#[test]
fn a_capability_only_one_member_has_is_not_promised_by_the_pair() {
    for field in [
        "streaming_request_body",
        "full_duplex",
        "request_trailers",
        "response_trailers",
        "client_certs",
        "proxy",
        "informational_1xx",
        "version_select",
        "version_reported",
        "timeouts.resolve",
        "timeouts.connect",
        "timeouts.first_byte",
        "timeouts.between_bytes",
    ] {
        for swapped in [false, true] {
            let mut yes = Capabilities::default();
            set(&mut yes, field, true);
            let no = Capabilities::default();
            let (a, b) = if swapped { (&no, &yes) } else { (&yes, &no) };
            let c = combine(a, b).expect("a bool disagreement is never a refusal");
            assert!(
                !get(&c, field),
                "`{field}` was promised by a pair in which only one member has it (swapped: {swapped})"
            );
        }
        let mut yes = Capabilities::default();
        set(&mut yes, field, true);
        let c = combine(&yes, &yes).unwrap();
        assert!(
            get(&c, field),
            "`{field}` was lost although both members have it"
        );
    }
}

fn set(c: &mut Capabilities, field: &str, v: bool) {
    match field {
        "streaming_request_body" => c.streaming_request_body = v,
        "full_duplex" => c.full_duplex = v,
        "request_trailers" => c.request_trailers = v,
        "response_trailers" => c.response_trailers = v,
        "client_certs" => c.client_certs = v,
        "proxy" => c.proxy = v,
        "informational_1xx" => c.informational_1xx = v,
        "version_select" => c.version_select = v,
        "version_reported" => c.version_reported = v,
        "timeouts.resolve" => c.timeouts.resolve = v,
        "timeouts.connect" => c.timeouts.connect = v,
        "timeouts.first_byte" => c.timeouts.first_byte = v,
        "timeouts.between_bytes" => c.timeouts.between_bytes = v,
        other => panic!("unknown field `{other}`"),
    }
}

fn get(c: &Capabilities, field: &str) -> bool {
    match field {
        "streaming_request_body" => c.streaming_request_body,
        "full_duplex" => c.full_duplex,
        "request_trailers" => c.request_trailers,
        "response_trailers" => c.response_trailers,
        "client_certs" => c.client_certs,
        "proxy" => c.proxy,
        "informational_1xx" => c.informational_1xx,
        "version_select" => c.version_select,
        "version_reported" => c.version_reported,
        "timeouts.resolve" => c.timeouts.resolve,
        "timeouts.connect" => c.timeouts.connect,
        "timeouts.first_byte" => c.timeouts.first_byte,
        "timeouts.between_bytes" => c.timeouts.between_bytes,
        other => panic!("unknown field `{other}`"),
    }
}

#[test]
fn either_member_offering_early_data_is_enough_for_the_pair_to_offer_it() {
    let none = Capabilities::default();
    let mut supported = Capabilities::default();
    supported.early_data = true;
    assert!(combine(&none, &supported).unwrap().early_data);
    assert!(combine(&supported, &none).unwrap().early_data);
    assert!(!combine(&none, &none).unwrap().early_data);
}

#[test]
fn every_capability_field_is_accounted_for_and_a_new_one_fails_this_test() {
    let printed = format!("{:?}", Capabilities::default());
    assert_eq!(
        top_level_fields(&printed),
        [
            "streaming_request_body",
            "full_duplex",
            "request_trailers",
            "response_trailers",
            "redirects",
            "cancel_on_drop",
            "connection_reuse",
            "response_decompression",
            "early_data",
            "tls_config",
            "client_certs",
            "proxy",
            "owns_cookie_jar",
            "owns_cache",
            "version_select",
            "version_reported",
            "timeouts",
            "informational_1xx",
            "forbidden_request_headers",
        ],
        "`Capabilities` has changed shape; `caps::combine` must say \
         what a pair of stacks reports for the new field before this list moves"
    );
}

fn top_level_fields(printed: &str) -> Vec<String> {
    let inner = printed
        .split_once('{')
        .expect("a derived struct Debug has a brace")
        .1;
    let mut depth = 0i32;
    let mut names = Vec::new();
    let mut current = String::new();
    for ch in inner.chars() {
        match ch {
            '{' | '[' | '(' => depth += 1,
            '}' | ']' | ')' => {
                depth -= 1;
                if depth < 0 {
                    break;
                }
            }
            ',' if depth == 0 => current.clear(),
            ':' if depth == 0 => {
                names.push(current.trim().to_owned());
                current.clear();
            }
            _ if depth == 0 => current.push(ch),
            _ => {}
        }
    }
    names
}

#[test]
fn a_disagreement_says_what_either_member_says() {
    let (a, b) = pair(|c, on| {
        c.connection_reuse = if on {
            ReuseSupport::Supported
        } else {
            ReuseSupport::Absent
        }
    });
    let d = combine(&a, &b).unwrap_err();
    assert_eq!((d.tcp.as_str(), d.quic.as_str()), ("None", "Supported"));
    assert_eq!(
        d.message(),
        "the two stacks disagree on `connection_reuse`, and neither value is true of the pair: \
         the TCP stack says `None`, the QUIC stack says `Supported`"
    );
    let mut a = Capabilities::default();
    a.forbidden_request_headers = vec!["cookie".to_string(), "host".to_string()];
    let d = combine(&a, &Capabilities::default()).unwrap_err();
    assert_eq!(d.tcp, "[\"cookie\", \"host\"]");
    assert_eq!(d.quic, "[]");
}

#[test]
fn the_first_disagreement_is_the_one_that_is_named() {
    let (a, b) = pair(|c, on| {
        c.owns_cache = on;
        c.cancel_on_drop = on;
    });
    assert_eq!(combine(&a, &b).unwrap_err().field, "cancel_on_drop");
}
