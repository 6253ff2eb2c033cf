use vstd::prelude::*;
use crate::filters::{AddRequestHeader, AddRequestHeadersIfNotPresent, AddRequestParameter, Filter};
use crate::ip::{parse_ip, spec_parse_ip, IpAddress};
use crate::pattern::regex_compiles;
use crate::predicates::{
    CookiePredicate, HeaderPredicate, HostPredicate, MethodPredicate, PathPredicate, Predicate,
    QueryParamPredicate, RemoteAddrPredicate, XForwardedRemoteAddrPredicate,
};
use crate::route::Route;

verus! {

/// The declaration of one predicate, as the route loader hands it over:
/// a tagged record with the variant's plain fields. Patterns and address
/// literals are still text here; building a [`Route`] compiles and parses
/// them once, rejecting invalid ones.
pub enum PredicateConfig {
    Path { path: String },
    Header { header: String, value: String },
    QueryParam { param: String, value: String },
    Method { method: String },
    Cookie { name: String, value: String },
    Host { patterns: Vec<String> },
    RemoteAddr { addrs: Vec<String> },
    XForwardedRemoteAddr { addrs: Vec<String> },
}

/// The declaration of one filter.
pub enum FilterConfig {
    AddRequestHeader { name: String, value: String },
    AddRequestHeadersIfNotPresent { headers: Vec<(String, String)> },
    AddRequestParameter { name: String, value: String },
}

/// The declaration of one route.
pub struct RouteConfig {
    pub id: String,
    pub destination: String,
    pub predicates: Vec<PredicateConfig>,
    pub filters: Option<Vec<FilterConfig>>,
}

/// A declared route set, as an external loader hands it over.
pub struct Config {
    pub routes: Vec<RouteConfig>,
}

/// A route declaration rejected at construction time: an invalid
/// regular-expression pattern, or an address literal that denotes no IP
/// address. Rejected declarations never enter a route table.
#[derive(Debug)]
pub enum ConfigError {
    InvalidPattern(String),
    InvalidIpAddress(String),
}

/// Each parsed address is what its text denotes, in order.
pub open spec fn spec_addrs_correspond(texts: Seq<String>, parsed: Seq<IpAddress>) -> bool {
    &&& parsed.len() == texts.len()
    &&& forall|i: int|
        0 <= i < texts.len() ==> spec_parse_ip((#[trigger] texts[i])@) == Some(parsed[i])
}

/// Whether every address literal in a list denotes an address.
pub open spec fn spec_addrs_valid(texts: Seq<String>) -> bool {
    forall|i: int| 0 <= i < texts.len() ==> spec_parse_ip((#[trigger] texts[i])@) is Some
}

/// Whether one predicate declaration is valid: its pattern, if it carries
/// one, compiles, and its address literals, if it carries any, all denote
/// addresses. Building a route succeeds exactly on valid declarations.
pub open spec fn spec_predicate_config_valid(pc: PredicateConfig) -> bool {
    match pc {
        PredicateConfig::Path { .. } => true,
        PredicateConfig::Header { value, .. } => regex_compiles(value@),
        PredicateConfig::QueryParam { value, .. } => regex_compiles(value@),
        PredicateConfig::Method { .. } => true,
        PredicateConfig::Cookie { value, .. } => regex_compiles(value@),
        PredicateConfig::Host { .. } => true,
        PredicateConfig::RemoteAddr { addrs } => spec_addrs_valid(addrs@),
        PredicateConfig::XForwardedRemoteAddr { addrs } => spec_addrs_valid(addrs@),
    }
}

/// Whether every predicate declaration of a route is valid. Filter
/// declarations carry plain text and are always buildable.
pub open spec fn spec_route_config_valid(rc: RouteConfig) -> bool {
    forall|i: int|
        0 <= i < rc.predicates@.len() ==> spec_predicate_config_valid(
            #[trigger] rc.predicates@[i],
        )
}

/// Whether every route declaration of a set is valid.
pub open spec fn spec_config_valid(c: Config) -> bool {
    forall|i: int| 0 <= i < c.routes@.len() ==> spec_route_config_valid(#[trigger] c.routes@[i])
}

/// The built predicate carries exactly the declared data: texts moved
/// over unchanged, patterns compiled from the declared text, address
/// literals parsed to their values.
pub open spec fn spec_predicate_corresponds(pc: PredicateConfig, p: Predicate) -> bool {
    match pc {
        PredicateConfig::Path { path } => p matches Predicate::Path(q) && q.path@ == path@,
        PredicateConfig::Header { header, value } => p matches Predicate::Header(q) && q.header@
            == header@ && q.value.pattern() == value@,
        PredicateConfig::QueryParam { param, value } => p matches Predicate::QueryParam(q)
            && q.param@ == param@ && q.value.pattern() == value@,
        PredicateConfig::Method { method } => p matches Predicate::Method(q) && q.method@
            == method@,
        PredicateConfig::Cookie { name, value } => p matches Predicate::Cookie(q) && q.name@
            == name@ && q.value.pattern() == value@,
        PredicateConfig::Host { patterns } => p matches Predicate::Host(q) && q.patterns.deep_view()
            == patterns.deep_view(),
        PredicateConfig::RemoteAddr { addrs } => p matches Predicate::RemoteAddr(q)
            && spec_addrs_correspond(addrs@, q.addrs@),
        PredicateConfig::XForwardedRemoteAddr { addrs } => p matches Predicate::XForwardedRemoteAddr(
            q,
        ) && spec_addrs_correspond(addrs@, q.addrs@),
    }
}

/// The built filter carries exactly the declared data.
pub open spec fn spec_filter_corresponds(fc: FilterConfig, f: Filter) -> bool {
    match fc {
        FilterConfig::AddRequestHeader { name, value } => f matches Filter::AddRequestHeader(g)
            && g.name@ == name@ && g.value@ == value@,
        FilterConfig::AddRequestHeadersIfNotPresent { headers } => f matches Filter::AddRequestHeadersIfNotPresent(
            g,
        ) && g.headers.deep_view() == headers.deep_view(),
        FilterConfig::AddRequestParameter { name, value } => f matches Filter::AddRequestParameters(
            g,
        ) && g.name@ == name@ && g.value@ == value@,
    }
}

/// The built route carries exactly the declared id, destination, and the
/// declared predicates and filters in order; an absent filter list builds
/// an empty chain.
pub open spec fn spec_route_corresponds(rc: RouteConfig, r: Route) -> bool {
    &&& r.id@ == rc.id@
    &&& r.destination@ == rc.destination@
    &&& r.predicates@.len() == rc.predicates@.len()
    &&& forall|i: int|
        0 <= i < rc.predicates@.len() ==> spec_predicate_corresponds(
            #[trigger] rc.predicates@[i],
            r.predicates@[i],
        )
    &&& match rc.filters {
        Some(fcs) => r.filters@.len() == fcs@.len() && forall|i: int|
            0 <= i < fcs@.len() ==> spec_filter_corresponds(#[trigger] fcs@[i], r.filters@[i]),
        None => r.filters@.len() == 0,
    }
}

/// Clones a vector of strings, keeping its contents.
fn clone_strings(v: &Vec<String>) -> (r: Vec<String>)
    ensures
        r.deep_view() == v.deep_view(),
{
    let r = v.clone();
    proof {
        assert forall|i: int| 0 <= i < v@.len() implies r@[i] == v@[i] by {
            assert(cloned::<String>(v[i], r[i]));
        }
        assert(r@ =~= v@);
    }
    r
}

/// Clones a vector of string pairs, keeping its contents.
fn clone_string_pairs(v: &Vec<(String, String)>) -> (r: Vec<(String, String)>)
    ensures
        r@ == v@,
{
    let mut r: Vec<(String, String)> = Vec::new();
    let n = v.len();
    let mut i: usize = 0;
    while i < n
        invariant
            i <= n,
            n == v@.len(),
            r@ == v@.take(i as int),
        decreases n - i,
    {
        r.push((v[i].0.clone(), v[i].1.clone()));
        proof {
            assert(r@ =~= v@.take(i as int + 1));
        }
        i = i + 1;
    }
    proof {
        assert(v@.take(n as int) =~= v@);
    }
    r
}

/// Parses a list of address literals; the first literal denoting no
/// address is rejected.
fn parse_addresses(texts: &Vec<String>) -> (r: Result<Vec<IpAddress>, ConfigError>)
    ensures
        r is Ok <==> spec_addrs_valid(texts@),
        match r {
            Ok(parsed) => spec_addrs_correspond(texts@, parsed@),
            Err(e) => e matches ConfigError::InvalidIpAddress(t) && (exists|i: int|
                0 <= i < texts@.len() && spec_parse_ip((#[trigger] texts@[i])@) is None && t@
                    == texts@[i]@),
        },
{
    let mut parsed: Vec<IpAddress> = Vec::new();
    let n = texts.len();
    let mut i: usize = 0;
    while i < n
        invariant
            i <= n,
            n == texts@.len(),
            parsed@.len() == i,
            forall|j: int|
                0 <= j < i ==> spec_parse_ip((#[trigger] texts@[j])@) == Some(parsed@[j]),
        decreases n - i,
    {
        match parse_ip(texts[i].as_str()) {
            Some(a) => {
                parsed.push(a);
            },
            None => {
                return Err(ConfigError::InvalidIpAddress(texts[i].clone()));
            },
        }
        i = i + 1;
    }
    Ok(parsed)
}

/// Builds one predicate from its declaration, compiling its pattern or
/// parsing its address literals once; invalid ones are rejected here,
/// before the route can enter a table.
fn build_predicate(pc: &PredicateConfig) -> (r: Result<Predicate, ConfigError>)
    ensures
        r is Ok <==> spec_predicate_config_valid(*pc),
        r matches Ok(p) ==> spec_predicate_corresponds(*pc, p),
{
    match pc {
        PredicateConfig::Path { path } => Ok(Predicate::Path(PathPredicate { path: path.clone() })),
        PredicateConfig::Header { header, value } => {
            match HeaderPredicate::new(header.clone(), value.clone()) {
                Ok(p) => Ok(Predicate::Header(p)),
                Err(_) => Err(ConfigError::InvalidPattern(value.clone())),
            }
        },
        PredicateConfig::QueryParam { param, value } => {
            match QueryParamPredicate::new(param.clone(), value.clone()) {
                Ok(p) => Ok(Predicate::QueryParam(p)),
                Err(_) => Err(ConfigError::InvalidPattern(value.clone())),
            }
        },
        PredicateConfig::Method { method } => Ok(
            Predicate::Method(MethodPredicate { method: method.clone() }),
        ),
        PredicateConfig::Cookie { name, value } => {
            match CookiePredicate::new(name.clone(), value.clone()) {
                Ok(p) => Ok(Predicate::Cookie(p)),
                Err(_) => Err(ConfigError::InvalidPattern(value.clone())),
            }
        },
        PredicateConfig::Host { patterns } => Ok(
            Predicate::Host(HostPredicate { patterns: clone_strings(patterns) }),
        ),
        PredicateConfig::RemoteAddr { addrs } => {
            match parse_addresses(addrs) {
                Ok(parsed) => Ok(Predicate::RemoteAddr(RemoteAddrPredicate { addrs: parsed })),
                Err(e) => Err(e),
            }
        },
        PredicateConfig::XForwardedRemoteAddr { addrs } => {
            match parse_addresses(addrs) {
                Ok(parsed) => Ok(
                    Predicate::XForwardedRemoteAddr(
                        XForwardedRemoteAddrPredicate { addrs: parsed },
                    ),
                ),
                Err(e) => Err(e),
            }
        },
    }
}

/// Builds one filter from its declaration.
fn build_filter(fc: &FilterConfig) -> (r: Filter)
    ensures
        spec_filter_corresponds(*fc, r),
{
    match fc {
        FilterConfig::AddRequestHeader { name, value } => Filter::AddRequestHeader(
            AddRequestHeader::new(name.clone(), value.clone()),
        ),
        FilterConfig::AddRequestHeadersIfNotPresent { headers } => {
            let cloned_headers = clone_string_pairs(headers);
            Filter::AddRequestHeadersIfNotPresent(AddRequestHeadersIfNotPresent::new(cloned_headers))
        },
        FilterConfig::AddRequestParameter { name, value } => Filter::AddRequestParameters(
            AddRequestParameter::new(name.clone(), value.clone()),
        ),
    }
}

/// Builds one route from its declaration.
#[verifier::loop_isolation(false)]
fn build_route(rc: &RouteConfig) -> (r: Result<Route, ConfigError>)
    ensures
        r is Ok <==> spec_route_config_valid(*rc),
        r matches Ok(route) ==> spec_route_corresponds(*rc, route),
{
    let mut predicates: Vec<Predicate> = Vec::new();
    let n = rc.predicates.len();
    let mut i: usize = 0;
    while i < n
        invariant
            i <= n,
            n == rc.predicates@.len(),
            predicates@.len() == i,
            forall|j: int|
                0 <= j < i ==> spec_predicate_config_valid(#[trigger] rc.predicates@[j]),
            forall|j: int|
                0 <= j < i ==> spec_predicate_corresponds(
                    #[trigger] rc.predicates@[j],
                    predicates@[j],
                ),
        decreases n - i,
    {
        match build_predicate(&rc.predicates[i]) {
            Ok(p) => {
                predicates.push(p);
            },
            Err(e) => {
                proof {
                    assert(!spec_predicate_config_valid(rc.predicates@[i as int]));
                }
                return Err(e);
            },
        }
        i = i + 1;
    }
    let mut filters: Vec<Filter> = Vec::new();
    match &rc.filters {
        Some(fcs) => {
            let m = fcs.len();
            let mut j: usize = 0;
            while j < m
                invariant
                    j <= m,
                    m == fcs@.len(),
                    filters@.len() == j,
                    forall|k: int|
                        0 <= k < j ==> spec_filter_corresponds(#[trigger] fcs@[k], filters@[k]),
                decreases m - j,
            {
                filters.push(build_filter(&fcs[j]));
                j = j + 1;
            }
        },
        None => {},
    }
    Ok(
        Route {
            id: rc.id.clone(),
            predicates,
            filters,
            destination: rc.destination.clone(),
        },
    )
}

/// Builds the route table from a declared route set: texts move over
/// unchanged, patterns compile once, address literals parse once. The
/// table is built exactly when every declaration is valid; a declaration
/// the regex engine or the address grammar rejects yields a
/// [`ConfigError`] and no table.
pub fn build_routes(config: &Config) -> (r: Result<Vec<Route>, ConfigError>)
    ensures
        r is Ok <==> spec_config_valid(*config),
        r matches Ok(routes) ==> routes@.len() == config.routes@.len() && forall|i: int|
            0 <= i < config.routes@.len() ==> spec_route_corresponds(
                #[trigger] config.routes@[i],
                routes@[i],
            ),
{
    let mut routes: Vec<Route> = Vec::new();
    let n = config.routes.len();
    let mut i: usize = 0;
    while i < n
        invariant
            i <= n,
            n == config.routes@.len(),
            routes@.len() == i,
            forall|j: int|
                0 <= j < i ==> spec_route_config_valid(#[trigger] config.routes@[j]),
            forall|j: int|
                0 <= j < i ==> spec_route_corresponds(#[trigger] config.routes@[j], routes@[j]),
        decreases n - i,
    {
        match build_route(&config.routes[i]) {
            Ok(route) => {
                routes.push(route);
            },
            Err(e) => {
                proof {
                    assert(!spec_route_config_valid(config.routes@[i as int]));
                }
                return Err(e);
            },
        }
        i = i + 1;
    }
    Ok(routes)
}

} // verus!
