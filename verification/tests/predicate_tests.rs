use cloud_gateway::glob::glob_match;
use cloud_gateway::ip::{parse_ip, IpAddress};
use cloud_gateway::predicates::{
    parse_cookies, parse_query_params, CookiePredicate, HeaderPredicate, HostPredicate,
    MethodPredicate, PathPredicate, Predicate, QueryParamPredicate, RemoteAddrPredicate,
    XForwardedRemoteAddrPredicate,
};
use cloud_gateway::request::{HttpRequest, RequestContext};

fn request(path: &str, query: Option<&str>, host: Option<&str>, headers: &[(&str, &str)]) -> HttpRequest {
    HttpRequest {
        method: "GET".to_string(),
        path: path.to_string(),
        query: query.map(|q| q.to_string()),
        host: host.map(|h| h.to_string()),
        headers: headers.iter().map(|(n, v)| (n.to_string(), v.to_string())).collect(),
    }
}

fn no_context() -> RequestContext {
    RequestContext { peer: None }
}

#[test]
fn path_predicate_is_byte_exact() {
    let p = PathPredicate { path: "/foo".to_string() };
    assert!(p.evaluate(&request("/foo", None, None, &[]), &no_context()));
    assert!(!p.evaluate(&request("/foo/", None, None, &[]), &no_context()));
    assert!(!p.evaluate(&request("/FOO", None, None, &[]), &no_context()));
}

#[test]
fn method_predicate_is_case_sensitive() {
    let p = MethodPredicate { method: "GET".to_string() };
    assert!(p.evaluate(&request("/", None, None, &[]), &no_context()));
    let lower = MethodPredicate { method: "get".to_string() };
    assert!(!lower.evaluate(&request("/", None, None, &[]), &no_context()));
}

#[test]
fn invalid_pattern_is_rejected_at_construction() {
    assert!(HeaderPredicate::new("h".to_string(), "(".to_string()).is_err());
    assert!(QueryParamPredicate::new("q".to_string(), "[".to_string()).is_err());
    assert!(CookiePredicate::new("c".to_string(), "(unclosed".to_string()).is_err());
}

#[test]
fn header_predicate_matches_pattern() {
    let p = HeaderPredicate::new("X-Version".to_string(), "^v[0-9]+$".to_string()).unwrap();
    assert!(p.evaluate(&request("/", None, None, &[("x-version", "v42")]), &no_context()));
    assert!(!p.evaluate(&request("/", None, None, &[("x-version", "release")]), &no_context()));
    assert!(!p.evaluate(&request("/", None, None, &[]), &no_context()));
}

#[test]
fn header_lookup_is_case_insensitive_and_first_wins() {
    let p = HeaderPredicate::new("x-tag".to_string(), "^one$".to_string()).unwrap();
    let req = request("/", None, None, &[("X-Tag", "one"), ("x-tag", "two")]);
    assert!(p.evaluate(&req, &no_context()));
}

#[test]
fn query_param_predicate_last_binding_wins() {
    let p = QueryParamPredicate::new("a".to_string(), "^2$".to_string()).unwrap();
    assert!(p.evaluate(&request("/", Some("a=1&a=2"), None, &[]), &no_context()));
    assert!(!p.evaluate(&request("/", Some("a=1"), None, &[]), &no_context()));
    assert!(!p.evaluate(&request("/", None, None, &[]), &no_context()));
}

#[test]
fn query_parsing_skips_pairs_without_equals() {
    let pairs = parse_query_params("flag&a=1");
    assert_eq!(pairs, vec![("a".to_string(), "1".to_string())]);
    let trimmed = parse_query_params(" a = 1 &b=2");
    assert_eq!(trimmed, vec![("a".to_string(), "1".to_string()), ("b".to_string(), "2".to_string())]);
}

#[test]
fn query_parsing_truncates_after_second_equals() {
    let pairs = parse_query_params("a=b=c");
    assert_eq!(pairs, vec![("a".to_string(), "b".to_string())]);
}

#[test]
fn cookie_predicate_reads_cookie_header() {
    let p = CookiePredicate::new("session".to_string(), "^abc$".to_string()).unwrap();
    let req = request("/", None, None, &[("Cookie", "theme=dark; session=abc")]);
    assert!(p.evaluate(&req, &no_context()));
    let wrong = request("/", None, None, &[("cookie", "session=def")]);
    assert!(!p.evaluate(&wrong, &no_context()));
    assert!(!p.evaluate(&request("/", None, None, &[]), &no_context()));
}

#[test]
fn cookie_parsing_splits_and_trims() {
    let cookies = parse_cookies(" a = 1 ;b=2");
    assert_eq!(
        cookies,
        vec![("a".to_string(), "1".to_string()), ("b".to_string(), "2".to_string())]
    );
}

#[test]
fn host_glob_requires_leading_label() {
    assert!(glob_match("**.example.com", "api.example.com"));
    assert!(!glob_match("**.example.com", "example.com"));
}

#[test]
fn host_glob_is_anchored_and_literal() {
    assert!(glob_match("example.com", "example.com"));
    assert!(!glob_match("example.com", "wexample.com"));
    assert!(!glob_match("example.com", "example.com.org"));
    // a dot is a literal dot, not a wildcard
    assert!(!glob_match("example.com", "exampleXcom"));
    assert!(glob_match("**", ""));
    assert!(glob_match("**", "anything.at.all"));
    assert!(glob_match("", ""));
    assert!(!glob_match("", "x"));
}

#[test]
fn host_predicate_over_pattern_list() {
    let p = HostPredicate {
        patterns: vec!["**.example.com".to_string(), "exact.host".to_string()],
    };
    assert!(p.evaluate(&request("/", None, Some("api.example.com"), &[]), &no_context()));
    assert!(p.evaluate(&request("/", None, Some("exact.host"), &[]), &no_context()));
    assert!(!p.evaluate(&request("/", None, Some("example.com"), &[]), &no_context()));
    assert!(!p.evaluate(&request("/", None, None, &[]), &no_context()));
}

#[test]
fn remote_addr_predicate_consults_context() {
    let member = parse_ip("10.1.2.3").unwrap();
    let p = RemoteAddrPredicate { addrs: vec![member] };
    let req = request("/", None, None, &[]);
    assert!(p.evaluate(&req, &RequestContext { peer: Some(member) }));
    let other = parse_ip("10.1.2.4").unwrap();
    assert!(!p.evaluate(&req, &RequestContext { peer: Some(other) }));
    // a missing peer address evaluates to false, never an error
    assert!(!p.evaluate(&req, &RequestContext { peer: None }));
}

#[test]
fn forwarded_addr_matches_any_listed_entry() {
    let p = XForwardedRemoteAddrPredicate {
        addrs: vec![parse_ip("203.0.113.5").unwrap()],
    };
    let hit = request("/", None, None, &[("X-Forwarded-For", "198.51.100.2, 203.0.113.5")]);
    assert!(p.evaluate(&hit, &no_context()));
    let absent = request("/", None, None, &[]);
    assert!(!p.evaluate(&absent, &no_context()));
    let miss = request("/", None, None, &[("x-forwarded-for", "not-an-ip, 10.0.0.1")]);
    assert!(!p.evaluate(&miss, &no_context()));
}

#[test]
fn ipv4_parsing_is_strict() {
    assert_eq!(parse_ip("1.2.3.4"), Some(IpAddress::V4(0x01020304)));
    assert_eq!(parse_ip("255.255.255.255"), Some(IpAddress::V4(u32::MAX)));
    assert_eq!(parse_ip("256.0.0.1"), None);
    assert_eq!(parse_ip("01.2.3.4"), None);
    assert_eq!(parse_ip("1.2.3"), None);
    assert_eq!(parse_ip("1.2.3.4.5"), None);
    assert_eq!(parse_ip(""), None);
}

#[test]
fn ipv6_parsing_accepts_standard_forms() {
    assert_eq!(parse_ip("::"), Some(IpAddress::V6(0)));
    assert_eq!(parse_ip("::1"), Some(IpAddress::V6(1)));
    assert_eq!(
        parse_ip("1:2:3:4:5:6:7:8"),
        Some(IpAddress::V6(0x0001_0002_0003_0004_0005_0006_0007_0008))
    );
    assert_eq!(
        parse_ip("2001:db8::8a2e:370:7334"),
        Some(IpAddress::V6(0x2001_0db8_0000_0000_0000_8a2e_0370_7334))
    );
    assert_eq!(
        parse_ip("fe80::"),
        Some(IpAddress::V6(0xfe80_0000_0000_0000_0000_0000_0000_0000))
    );
    assert_eq!(
        parse_ip("::ffff:192.0.2.128"),
        Some(IpAddress::V6(0x0000_0000_0000_0000_0000_ffff_c000_0280))
    );
    assert_eq!(
        parse_ip("1:2:3:4:5:6:1.2.3.4"),
        Some(IpAddress::V6(0x0001_0002_0003_0004_0005_0006_0102_0304))
    );
    assert_eq!(
        parse_ip("1::2:3:4:5:6:7"),
        Some(IpAddress::V6(0x0001_0000_0002_0003_0004_0005_0006_0007))
    );
    assert_eq!(
        parse_ip("1:2:3:4:5:6:7::"),
        Some(IpAddress::V6(0x0001_0002_0003_0004_0005_0006_0007_0000))
    );
    assert_eq!(parse_ip("ABCD::ef01"), Some(IpAddress::V6(0xabcd << 112 | 0xef01)));
    assert_eq!(
        parse_ip("ffff:ffff:ffff:ffff:ffff:ffff:ffff:ffff"),
        Some(IpAddress::V6(u128::MAX))
    );
}

#[test]
fn ipv6_parsing_rejects_malformed_text() {
    for bad in [
        ":::",
        "1::2::3",
        "1:2:3:4:5:6:7",
        "1:2:3:4:5:6:7:8:9",
        ":1:2:3:4:5:6:7",
        "1:2:3:4:5:6:7:",
        "1:2:3:4:5:6:7:8::",
        "12345::",
        "g::",
        ":",
        "1.2.3.4::",
        "::256.0.0.1",
    ] {
        assert_eq!(parse_ip(bad), None, "{bad} should be rejected");
    }
}

#[test]
fn forwarded_addr_accepts_ipv6_entries() {
    let p = XForwardedRemoteAddrPredicate {
        addrs: vec![parse_ip("2001:db8::1").unwrap()],
    };
    let req = request("/", None, None, &[("x-forwarded-for", "10.0.0.1, 2001:db8:0:0::0:1")]);
    assert!(p.evaluate(&req, &no_context()));
}

#[test]
fn evaluation_is_idempotent() {
    let p = Predicate::Header(HeaderPredicate::new("x-a".to_string(), "^y$".to_string()).unwrap());
    let req = request("/", Some("a=1"), Some("h.example.com"), &[("x-a", "y")]);
    let ctx = no_context();
    let first = p.evaluate(&req, &ctx);
    for _ in 0..10 {
        assert_eq!(p.evaluate(&req, &ctx), first);
    }
}
