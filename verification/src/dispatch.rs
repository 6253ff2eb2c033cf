use vstd::prelude::*;
use crate::errors::{response_for_error, GatewayError};
use crate::filters::{apply_filters, spec_apply_filters};
use crate::request::{HttpRequest, RequestContext, RequestModel};
use crate::route::{find_route, spec_find_route, Route};

verus! {

/// What parsing a destination string as a URI yields, as `http::Uri`
/// decides it: `None` when the text does not parse; otherwise the URI's
/// host, if it names one, and its explicit port, if it carries one.
pub uninterp spec fn spec_authority_of(s: Seq<char>) -> Option<(Option<Seq<char>>, Option<u16>)>;

/// Relies on `http::Uri::from_str`, `Uri::host` and `Uri::port_u16`:
/// parsing is a pure function of the text; `host()` is `None` exactly when
/// the parsed URI names no authority; `port_u16()` is the explicit port.
#[verifier::external_body]
fn parse_authority(dest: &str) -> (r: Option<(Option<String>, Option<u16>)>)
    ensures
        r.deep_view() == spec_authority_of(dest@),
{
    match dest.parse::<http::Uri>() {
        Ok(uri) => Some((uri.host().map(|h| h.to_string()), uri.port_u16())),
        Err(_) => None,
    }
}

/// The port to connect to: the explicit one, or 80 when unspecified.
pub open spec fn spec_port_or_default(p: Option<u16>) -> u16 {
    match p {
        Some(x) => x,
        None => 80,
    }
}

/// Resolves a route's destination to the upstream host and port to
/// connect to. Unparseable text and a parse without a host are the two
/// destination failures of the taxonomy; a missing port defaults to 80.
pub fn resolve_destination(dest: &str) -> (r: Result<(String, u16), GatewayError>)
    ensures
        match spec_authority_of(dest@) {
            None => r matches Err(GatewayError::InvalidDestinationUri),
            Some((None, _)) => r matches Err(GatewayError::DestinationMissingHost),
            Some((Some(h), p)) => r matches Ok(hp) && hp.0@ == h && hp.1 == spec_port_or_default(
                p,
            ),
        },
{
    match parse_authority(dest) {
        None => Err(GatewayError::InvalidDestinationUri),
        Some((None, _)) => Err(GatewayError::DestinationMissingHost),
        Some((Some(host), port)) => {
            let p = match port {
                Some(x) => x,
                None => 80,
            };
            Ok((host, p))
        },
    }
}

/// The dispatcher's decision for one request: forward a rewritten request
/// to a route's destination, or answer the caller at once with a
/// synthesized status and body.
pub enum DispatchPlan {
    Forward { request: HttpRequest, destination: String },
    Respond { status: u16, body: String },
}

/// Whether a plan is the synthesized response for `e`.
pub open spec fn spec_is_error_response(r: DispatchPlan, e: GatewayError) -> bool {
    match r {
        DispatchPlan::Respond { status, body } => status == crate::errors::spec_status_for_error(e)
            && body@ == crate::errors::spec_body_for_error(e),
        _ => false,
    }
}

/// Whether a plan forwards the request modelled by `m` to `destination`.
pub open spec fn spec_is_forward(r: DispatchPlan, m: RequestModel, destination: Seq<char>) -> bool {
    match r {
        DispatchPlan::Forward { request, destination: d } => request@ == m && d@ == destination,
        _ => false,
    }
}

/// Decides one request: selects the first matching route, applies its
/// filter chain in order, and either hands the rewritten request on for
/// forwarding or synthesizes the 404 (no route) or 500 (filter failed)
/// response. A partially-filtered request is never forwarded.
pub fn plan_request(routes: &Vec<Route>, request: HttpRequest, context: &RequestContext) -> (r:
    DispatchPlan)
    ensures
        ({
            let found = spec_find_route(routes@, request, *context);
            &&& (found is None ==> spec_is_error_response(r, GatewayError::NoRouteMatched))
            &&& (found matches Some(i) ==> (match spec_apply_filters(
                routes@[i].filters@,
                request@,
            ) {
                Ok(m) => spec_is_forward(r, m, routes@[i].destination@),
                Err(e) => spec_is_error_response(r, GatewayError::FilterFailed(e)),
            }))
        }),
{
    match find_route(routes, &request, context) {
        None => {
            let (status, body) = response_for_error(&GatewayError::NoRouteMatched);
            DispatchPlan::Respond { status, body }
        },
        Some(i) => {
            match apply_filters(&routes[i].filters, request) {
                Ok(filtered) => DispatchPlan::Forward {
                    request: filtered,
                    destination: routes[i].destination.clone(),
                },
                Err(e) => {
                    let (status, body) = response_for_error(&GatewayError::FilterFailed(e));
                    DispatchPlan::Respond { status, body }
                },
            }
        },
    }
}

} // verus!
