use cloud_gateway::errors::FilterError;
use cloud_gateway::filters::{
    apply_filters, AddRequestHeader, AddRequestHeadersIfNotPresent, AddRequestParameter, Filter,
};
use cloud_gateway::request::HttpRequest;
use cloud_gateway::urlencode::urlencode;

fn request_with(query: Option<&str>, headers: &[(&str, &str)]) -> HttpRequest {
    HttpRequest {
        method: "GET".to_string(),
        path: "/p".to_string(),
        query: query.map(|q| q.to_string()),
        host: None,
        headers: headers.iter().map(|(n, v)| (n.to_string(), v.to_string())).collect(),
    }
}

fn values_of<'a>(req: &'a HttpRequest, name: &str) -> Vec<&'a str> {
    req.headers
        .iter()
        .filter(|(n, _)| n.eq_ignore_ascii_case(name))
        .map(|(_, v)| v.as_str())
        .collect()
}

#[test]
fn add_request_header_overwrites() {
    let filter = AddRequestHeader::new("X".to_string(), "2".to_string());
    let req = request_with(None, &[("X", "1")]);
    let out = filter.apply(req).unwrap();
    // the result has X: 2 exactly once
    assert_eq!(values_of(&out, "X"), vec!["2"]);
}

#[test]
fn add_request_header_deduplicates_case_insensitively() {
    let filter = AddRequestHeader::new("x-tag".to_string(), "new".to_string());
    let req = request_with(None, &[("X-Tag", "a"), ("x-tag", "b"), ("other", "keep")]);
    let out = filter.apply(req).unwrap();
    assert_eq!(values_of(&out, "x-tag"), vec!["new"]);
    assert_eq!(values_of(&out, "other"), vec!["keep"]);
}

#[test]
fn add_request_header_rejects_illegal_name() {
    let filter = AddRequestHeader::new("bad name".to_string(), "v".to_string());
    let req = request_with(None, &[]);
    assert!(matches!(filter.apply(req), Err(FilterError::InvalidHeaderName)));
    let empty = AddRequestHeader::new("".to_string(), "v".to_string());
    assert!(matches!(empty.apply(request_with(None, &[])), Err(FilterError::InvalidHeaderName)));
}

#[test]
fn add_request_header_rejects_illegal_value() {
    let filter = AddRequestHeader::new("x-ok".to_string(), "bad\nvalue".to_string());
    let req = request_with(None, &[]);
    assert!(matches!(filter.apply(req), Err(FilterError::InvalidHeaderValue)));
}

#[test]
fn if_not_present_preserves_existing_value() {
    let filter = AddRequestHeadersIfNotPresent::new(vec![("X".to_string(), "2".to_string())]);
    let req = request_with(None, &[("X", "1")]);
    let out = filter.apply(req).unwrap();
    // the existing value survives
    assert_eq!(values_of(&out, "X"), vec!["1"]);
}

#[test]
fn if_not_present_appends_missing_headers_in_order() {
    let filter = AddRequestHeadersIfNotPresent::new(vec![
        ("a".to_string(), "1".to_string()),
        ("b".to_string(), "2".to_string()),
    ]);
    let req = request_with(None, &[("b", "orig")]);
    let out = filter.apply(req).unwrap();
    assert_eq!(values_of(&out, "a"), vec!["1"]);
    assert_eq!(values_of(&out, "b"), vec!["orig"]);
}

#[test]
fn if_not_present_sees_names_case_insensitively() {
    let filter = AddRequestHeadersIfNotPresent::new(vec![("x-tag".to_string(), "2".to_string())]);
    let req = request_with(None, &[("X-Tag", "1")]);
    let out = filter.apply(req).unwrap();
    assert_eq!(values_of(&out, "x-tag"), vec!["1"]);
}

#[test]
fn add_request_parameter_appends_and_preserves() {
    let filter = AddRequestParameter::new("b".to_string(), "2".to_string());
    let req = request_with(Some("a=1"), &[]);
    let out = filter.apply(req).unwrap();
    // existing parameter untouched and first, new one appended
    assert_eq!(out.query.as_deref(), Some("a=1&b=2"));
}

#[test]
fn add_request_parameter_on_empty_query() {
    let filter = AddRequestParameter::new("b".to_string(), "2".to_string());
    assert_eq!(filter.apply(request_with(None, &[])).unwrap().query.as_deref(), Some("b=2"));
    assert_eq!(filter.apply(request_with(Some(""), &[])).unwrap().query.as_deref(), Some("b=2"));
}

#[test]
fn add_request_parameter_encodes_reserved_characters() {
    let filter = AddRequestParameter::new("sp ace".to_string(), "a&b=c".to_string());
    let out = filter.apply(request_with(Some("a=1"), &[])).unwrap();
    assert_eq!(out.query.as_deref(), Some("a=1&sp+ace=a%26b%3Dc"));
}

#[test]
fn urlencoding_matches_the_form_urlencoded_serializer() {
    for input in ["a b", "x*-._", "ünïcode", "a&b=c+d", "100%"] {
        let expected: String = form_urlencoded::byte_serialize(input.as_bytes()).collect();
        assert_eq!(urlencode(input), expected);
    }
}

#[test]
fn filter_chain_applies_in_declared_order() {
    let a = Filter::AddRequestHeader(AddRequestHeader::new("X".to_string(), "a".to_string()));
    let b = Filter::AddRequestHeader(AddRequestHeader::new("X".to_string(), "b".to_string()));
    let forward = vec![a, b];
    let out = apply_filters(&forward, request_with(None, &[])).unwrap();
    // last filter in declared order decides; the reversed order differs
    assert_eq!(values_of(&out, "X"), vec!["b"]);
    let a2 = Filter::AddRequestHeader(AddRequestHeader::new("X".to_string(), "a".to_string()));
    let b2 = Filter::AddRequestHeader(AddRequestHeader::new("X".to_string(), "b".to_string()));
    let reversed = vec![b2, a2];
    let out2 = apply_filters(&reversed, request_with(None, &[])).unwrap();
    assert_eq!(values_of(&out2, "X"), vec!["a"]);
}

#[test]
fn filter_chain_fails_fast() {
    let bad = Filter::AddRequestHeader(AddRequestHeader::new("bad name".to_string(), "v".to_string()));
    let never = Filter::AddRequestHeader(AddRequestHeader::new("x-after".to_string(), "v".to_string()));
    let chain = vec![bad, never];
    let r = apply_filters(&chain, request_with(None, &[]));
    assert!(matches!(r, Err(FilterError::InvalidHeaderName)));
}

#[test]
fn empty_filter_chain_is_identity() {
    let out = apply_filters(&vec![], request_with(Some("q=1"), &[("h", "v")])).unwrap();
    assert_eq!(out.query.as_deref(), Some("q=1"));
    assert_eq!(values_of(&out, "h"), vec!["v"]);
}
