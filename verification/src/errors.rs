use vstd::prelude::*;
use vstd::string::StringExecFns;

verus! {

/// A failure of the per-request filter chain. Filter errors arise from
/// route-defined values that turn out to be illegal in the wire format.
#[derive(Clone, Copy, Debug, PartialEq, Eq, Structural)]
pub enum FilterError {
    /// A header name holds a character that is illegal in a header name.
    InvalidHeaderName,
    /// A header value holds a character that is illegal in a header value.
    InvalidHeaderValue,
}

/// The closed failure taxonomy of the request-processing pipeline.
///
/// Every variant is recovered at the dispatcher boundary and converted into
/// a client-visible response by [`response_for_error`]; none escapes as a
/// process fault. The `String` payloads carry a human-readable cause for
/// logging; they do not influence the synthesized response.
#[derive(Debug)]
pub enum GatewayError {
    /// No route's predicate set accepted the request.
    NoRouteMatched,
    /// A filter of the matched route's chain failed.
    FilterFailed(FilterError),
    /// The matched route's destination does not parse as a URI.
    InvalidDestinationUri,
    /// The matched route's destination parses but names no host.
    DestinationMissingHost,
    /// The TCP connection to the upstream could not be opened.
    UpstreamConnectFailed(String),
    /// The HTTP/1.1 client handshake with the upstream failed.
    UpstreamHandshakeFailed(String),
    /// Sending the request or awaiting the upstream response failed.
    UpstreamRequestFailed(String),
}

/// The HTTP status code a client sees for each pipeline failure.
pub open spec fn spec_status_for_error(e: GatewayError) -> u16 {
    match e {
        GatewayError::NoRouteMatched => 404,
        GatewayError::FilterFailed(_) => 500,
        GatewayError::InvalidDestinationUri => 502,
        GatewayError::DestinationMissingHost => 502,
        GatewayError::UpstreamConnectFailed(_) => 502,
        GatewayError::UpstreamHandshakeFailed(_) => 502,
        GatewayError::UpstreamRequestFailed(_) => 502,
    }
}

/// The response body a client sees for each pipeline failure.
pub open spec fn spec_body_for_error(e: GatewayError) -> Seq<char> {
    match e {
        GatewayError::NoRouteMatched => "No matching route found"@,
        GatewayError::FilterFailed(_) => "Filter application failed"@,
        GatewayError::InvalidDestinationUri => "Bad Gateway: invalid URI"@,
        GatewayError::DestinationMissingHost => "Bad Gateway: missing host"@,
        GatewayError::UpstreamConnectFailed(_) => "Bad Gateway: cannot connect"@,
        GatewayError::UpstreamHandshakeFailed(_) => "Bad Gateway: handshake failed"@,
        GatewayError::UpstreamRequestFailed(_) => "Bad Gateway: request failed"@,
    }
}

/// Converts a pipeline failure into the synthesized client response:
/// a status code and a short human-readable body.
pub fn response_for_error(e: &GatewayError) -> (r: (u16, String))
    ensures
        r.0 == spec_status_for_error(*e),
        r.1@ == spec_body_for_error(*e),
{
    match e {
        GatewayError::NoRouteMatched => (404, String::from_str("No matching route found")),
        GatewayError::FilterFailed(_) => (500, String::from_str("Filter application failed")),
        GatewayError::InvalidDestinationUri => (502, String::from_str("Bad Gateway: invalid URI")),
        GatewayError::DestinationMissingHost => (
            502,
            String::from_str("Bad Gateway: missing host"),
        ),
        GatewayError::UpstreamConnectFailed(_) => (
            502,
            String::from_str("Bad Gateway: cannot connect"),
        ),
        GatewayError::UpstreamHandshakeFailed(_) => (
            502,
            String::from_str("Bad Gateway: handshake failed"),
        ),
        GatewayError::UpstreamRequestFailed(_) => (
            502,
            String::from_str("Bad Gateway: request failed"),
        ),
    }
}

} // verus!
