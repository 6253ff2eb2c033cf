use cloud_gateway::bodies::SingleChunkBody;
use cloud_gateway::config::{build_routes, Config, ConfigError, FilterConfig, PredicateConfig, RouteConfig};
use cloud_gateway::dispatch::{plan_request, resolve_destination, DispatchPlan};
use cloud_gateway::errors::{response_for_error, FilterError, GatewayError};
use cloud_gateway::filters::{AddRequestHeader, Filter};
use cloud_gateway::predicates::{MethodPredicate, PathPredicate, Predicate};
use cloud_gateway::request::{HttpRequest, RequestContext};
use cloud_gateway::route::{find_route, Route};
use cloud_gateway::spring::{cache_is_fresh, classify_fetch_status, spring_cache_key, spring_config_url, FetchClass};

fn get(path: &str) -> HttpRequest {
    HttpRequest {
        method: "GET".to_string(),
        path: path.to_string(),
        query: None,
        host: None,
        headers: vec![],
    }
}

fn no_context() -> RequestContext {
    RequestContext { peer: None }
}

fn path_route(id: &str, path: &str, filters: Vec<Filter>, destination: &str) -> Route {
    Route {
        id: id.to_string(),
        predicates: vec![Predicate::Path(PathPredicate { path: path.to_string() })],
        filters,
        destination: destination.to_string(),
    }
}

#[test]
fn find_route_returns_first_match_by_table_order() {
    let routes = vec![
        path_route("one", "/a", vec![], "h1:1"),
        path_route("two", "/b", vec![], "h2:2"),
        path_route("three", "/b", vec![], "h3:3"),
    ];
    let ctx = no_context();
    assert_eq!(find_route(&routes, &get("/b"), &ctx), Some(1));
    assert_eq!(find_route(&routes, &get("/a"), &ctx), Some(0));
    assert_eq!(find_route(&routes, &get("/c"), &ctx), None);
    assert_eq!(find_route(&vec![], &get("/a"), &ctx), None);
}

#[test]
fn route_predicates_are_and_composed() {
    let route = Route {
        id: "r".to_string(),
        predicates: vec![
            Predicate::Path(PathPredicate { path: "/a".to_string() }),
            Predicate::Method(MethodPredicate { method: "POST".to_string() }),
        ],
        filters: vec![],
        destination: "up:1".to_string(),
    };
    let routes = vec![route];
    let ctx = no_context();
    // the path alone is not enough: every predicate must hold
    assert_eq!(find_route(&routes, &get("/a"), &ctx), None);
    let mut post = get("/a");
    post.method = "POST".to_string();
    assert_eq!(find_route(&routes, &post, &ctx), Some(0));
}

#[test]
fn matched_route_forwards_filtered_request() {
    let filter = Filter::AddRequestHeader(AddRequestHeader::new(
        "X-Test".to_string(),
        "1".to_string(),
    ));
    let routes = vec![path_route("r", "/foo", vec![filter], "upstream:8080")];
    match plan_request(&routes, get("/foo"), &no_context()) {
        DispatchPlan::Forward { request, destination } => {
            assert_eq!(destination, "upstream:8080");
            let carried: Vec<&str> = request
                .headers
                .iter()
                .filter(|(n, _)| n.eq_ignore_ascii_case("x-test"))
                .map(|(_, v)| v.as_str())
                .collect();
            assert_eq!(carried, vec!["1"]);
        },
        DispatchPlan::Respond { .. } => panic!("expected a forward"),
    }
}

#[test]
fn unmatched_request_yields_not_found() {
    let routes = vec![path_route("r", "/foo", vec![], "upstream:8080")];
    match plan_request(&routes, get("/bar"), &no_context()) {
        DispatchPlan::Respond { status, body } => {
            assert_eq!(status, 404);
            assert_eq!(body, "No matching route found");
        },
        DispatchPlan::Forward { .. } => panic!("expected a synthesized response"),
    }
}

#[test]
fn failing_filter_yields_internal_error_and_no_forward() {
    let bad = Filter::AddRequestHeader(AddRequestHeader::new(
        "bad name".to_string(),
        "v".to_string(),
    ));
    let routes = vec![path_route("r", "/foo", vec![bad], "upstream:8080")];
    match plan_request(&routes, get("/foo"), &no_context()) {
        DispatchPlan::Respond { status, body } => {
            assert_eq!(status, 500);
            assert_eq!(body, "Filter application failed");
        },
        DispatchPlan::Forward { .. } => panic!("a partially-filtered request must not be forwarded"),
    }
}

#[test]
fn every_failure_maps_to_its_status_and_body() {
    let cases = [
        (GatewayError::NoRouteMatched, 404, "No matching route found"),
        (GatewayError::FilterFailed(FilterError::InvalidHeaderName), 500, "Filter application failed"),
        (GatewayError::InvalidDestinationUri, 502, "Bad Gateway: invalid URI"),
        (GatewayError::DestinationMissingHost, 502, "Bad Gateway: missing host"),
        (GatewayError::UpstreamConnectFailed("refused".to_string()), 502, "Bad Gateway: cannot connect"),
        (GatewayError::UpstreamHandshakeFailed("eof".to_string()), 502, "Bad Gateway: handshake failed"),
        (GatewayError::UpstreamRequestFailed("reset".to_string()), 502, "Bad Gateway: request failed"),
    ];
    for (e, status, body) in cases {
        assert_eq!(response_for_error(&e), (status, body.to_string()));
    }
}

#[test]
fn destination_resolution_follows_the_taxonomy() {
    assert_eq!(resolve_destination("example.com:8080").unwrap(), ("example.com".to_string(), 8080));
    // a missing port defaults to 80
    assert_eq!(resolve_destination("example.com").unwrap(), ("example.com".to_string(), 80));
    assert_eq!(
        resolve_destination("http://example.com/path").unwrap(),
        ("example.com".to_string(), 80)
    );
    assert!(matches!(
        resolve_destination("with space"),
        Err(GatewayError::InvalidDestinationUri)
    ));
    assert!(matches!(
        resolve_destination("/path-only"),
        Err(GatewayError::DestinationMissingHost)
    ));
}

#[test]
fn build_routes_carries_declarations_over() {
    let config = Config {
        routes: vec![RouteConfig {
            id: "r1".to_string(),
            destination: "up:1".to_string(),
            predicates: vec![
                PredicateConfig::Path { path: "/x".to_string() },
                PredicateConfig::Method { method: "GET".to_string() },
            ],
            filters: Some(vec![FilterConfig::AddRequestHeader {
                name: "h".to_string(),
                value: "v".to_string(),
            }]),
        }],
    };
    let routes = build_routes(&config).unwrap();
    assert_eq!(routes.len(), 1);
    assert_eq!(routes[0].id, "r1");
    assert_eq!(routes[0].destination, "up:1");
    assert_eq!(routes[0].predicates.len(), 2);
    assert_eq!(routes[0].filters.len(), 1);
}

#[test]
fn build_routes_rejects_invalid_pattern_and_address() {
    let bad_pattern = Config {
        routes: vec![RouteConfig {
            id: "r".to_string(),
            destination: "d".to_string(),
            predicates: vec![PredicateConfig::Header {
                header: "h".to_string(),
                value: "(".to_string(),
            }],
            filters: None,
        }],
    };
    assert!(matches!(build_routes(&bad_pattern), Err(ConfigError::InvalidPattern(_))));
    let bad_addr = Config {
        routes: vec![RouteConfig {
            id: "r".to_string(),
            destination: "d".to_string(),
            predicates: vec![PredicateConfig::RemoteAddr {
                addrs: vec!["not-an-ip".to_string()],
            }],
            filters: None,
        }],
    };
    assert!(matches!(build_routes(&bad_addr), Err(ConfigError::InvalidIpAddress(_))));
}

#[test]
fn single_chunk_body_yields_once_then_stays_exhausted() {
    let mut body = SingleChunkBody::new(b"hello".to_vec());
    assert!(!body.is_end_stream());
    assert_eq!(body.next_frame(), Some(b"hello".to_vec()));
    assert!(body.is_end_stream());
    assert_eq!(body.next_frame(), None);
    assert!(body.is_end_stream());
    assert_eq!(body.next_frame(), None);
}

#[test]
fn spring_helpers_compose_url_and_key() {
    assert_eq!(
        spring_config_url("http://cfg:8888", "gw", "prod", None),
        "http://cfg:8888/gw/prod"
    );
    assert_eq!(
        spring_config_url("http://cfg:8888", "gw", "prod", Some("main")),
        "http://cfg:8888/gw/prod/main"
    );
    assert_eq!(spring_cache_key("gw", "prod", None), "gw:prod");
    assert_eq!(spring_cache_key("gw", "prod", Some("main")), "gw:prod:main");
}

#[test]
fn fetch_status_classification() {
    assert_eq!(classify_fetch_status(200), FetchClass::Success);
    assert_eq!(classify_fetch_status(500), FetchClass::Transient);
    assert_eq!(classify_fetch_status(503), FetchClass::Transient);
    assert_eq!(classify_fetch_status(599), FetchClass::Transient);
    assert_eq!(classify_fetch_status(404), FetchClass::Permanent);
    assert_eq!(classify_fetch_status(302), FetchClass::Permanent);
    assert!(cache_is_fresh(100, 300_000));
    assert!(!cache_is_fresh(300_000, 300_000));
}
