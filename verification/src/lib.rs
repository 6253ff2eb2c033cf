//! A verified request-processing core for an HTTP gateway.
//!
//! The library models an inbound request as plain data, selects a routing
//! rule for it by evaluating predicate sets, rewrites it through an ordered
//! filter chain, and maps every failure of the forwarding path to a
//! well-defined client-visible response. Network I/O, configuration loading
//! and instrumentation live outside the library and talk to it through the
//! plain types defined here.

/// Shared text utilities: case folding, trimming, splitting.
pub mod text;
/// IP addresses as plain values, and their textual grammars.
pub mod ip;
/// The request model and its header operations.
pub mod request;
/// Regular-expression matchers, compiled once at construction.
pub mod pattern;
/// Anchored glob matching for host patterns.
pub mod glob;
/// `name=value` pair lists: query strings and `Cookie` headers.
pub mod pairs;
/// The predicate engine: the closed set of routing conditions.
pub mod predicates;
/// Form-urlencoding of query parameter names and values.
pub mod urlencode;
/// The filter pipeline: ordered, fallible request rewrites.
pub mod filters;
/// Routes, and first-match route selection over a table.
pub mod route;
/// The failure taxonomy and its client-visible responses.
pub mod errors;
/// Per-request dispatch: route lookup, filtering, destination resolution.
pub mod dispatch;
/// Route declarations and their one-time validation and construction.
pub mod config;
/// The single-chunk streaming body used for synthesized responses.
pub mod bodies;
/// Decision helpers for a config-server client: endpoint and cache-key
/// text, retry classification, cache freshness.
pub mod spring;
