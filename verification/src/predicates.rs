use vstd::prelude::*;
use crate::glob::{glob_match, spec_glob_match};
use crate::ip::{contains_address, parse_ip, spec_parse_ip, IpAddress};
use crate::pairs::{
    pairs_lookup, parse_pairs, spec_pairs_lookup, spec_parse_pairs,
};
use crate::pattern::{regex_compiles, regex_match, RegexMatcher};
use crate::request::{spec_header_lookup, HttpRequest, RequestContext};
use crate::text::{spec_split, spec_trim, split_str, trim};

verus! {

/// Parses a `Cookie` header value into its `name=value` pairs, in order.
pub fn parse_cookies(cookie_str: &str) -> (r: Vec<(String, String)>)
    ensures
        r.deep_view() == spec_parse_pairs(cookie_str@, ';'),
{
    parse_pairs(cookie_str, ';')
}

/// Parses a raw query string into its `name=value` pairs, in order.
pub fn parse_query_params(query: &str) -> (r: Vec<(String, String)>)
    ensures
        r.deep_view() == spec_parse_pairs(query@, '&'),
{
    parse_pairs(query, '&')
}

/// Accepts requests whose path equals a fixed string, byte-exact.
pub struct PathPredicate {
    pub path: String,
}

impl PathPredicate {
    pub open spec fn spec_evaluate(&self, request: HttpRequest) -> bool {
        request.path@ == self.path@
    }

    pub fn evaluate(&self, request: &HttpRequest, _context: &RequestContext) -> (r: bool)
        ensures
            r == self.spec_evaluate(*request),
    {
        request.path == self.path
    }
}

/// Accepts requests whose method equals a fixed string, case-sensitive.
pub struct MethodPredicate {
    pub method: String,
}

impl MethodPredicate {
    pub open spec fn spec_evaluate(&self, request: HttpRequest) -> bool {
        request.method@ == self.method@
    }

    pub fn evaluate(&self, request: &HttpRequest, _context: &RequestContext) -> (r: bool)
        ensures
            r == self.spec_evaluate(*request),
    {
        request.method == self.method
    }
}

/// Accepts requests carrying a named header whose value matches a
/// regular-expression pattern; a missing header never matches.
pub struct HeaderPredicate {
    pub header: String,
    pub value: RegexMatcher,
}

impl HeaderPredicate {
    /// Compiles the pattern once; an invalid pattern is rejected here, at
    /// construction time, and never reaches evaluation.
    pub fn new(header: String, value: String) -> (r: Result<Self, regex::Error>)
        ensures
            r is Ok <==> regex_compiles(value@),
            r matches Ok(p) ==> p.header == header && p.value.pattern() == value@,
    {
        match RegexMatcher::compile(value.as_str()) {
            Ok(compiled) => Ok(Self { header, value: compiled }),
            Err(e) => Err(e),
        }
    }

    pub open spec fn spec_evaluate(&self, request: HttpRequest) -> bool {
        match spec_header_lookup(request.spec_headers(), self.header@) {
            Some(v) => regex_match(self.value.pattern(), v),
            None => false,
        }
    }

    pub fn evaluate(&self, request: &HttpRequest, _context: &RequestContext) -> (r: bool)
        ensures
            r == self.spec_evaluate(*request),
    {
        match request.header_value(self.header.as_str()) {
            Some(v) => self.value.is_match(v.as_str()),
            None => false,
        }
    }
}

/// Accepts requests whose query string binds a named parameter to a value
/// matching a regular-expression pattern; with duplicate parameters the
/// last binding wins, as a hash-table built from the pairs would resolve.
pub struct QueryParamPredicate {
    pub param: String,
    pub value: RegexMatcher,
}

impl QueryParamPredicate {
    /// Compiles the pattern once; an invalid pattern is rejected here, at
    /// construction time, and never reaches evaluation.
    pub fn new(param: String, value: String) -> (r: Result<Self, regex::Error>)
        ensures
            r is Ok <==> regex_compiles(value@),
            r matches Ok(p) ==> p.param == param && p.value.pattern() == value@,
    {
        match RegexMatcher::compile(value.as_str()) {
            Ok(compiled) => Ok(Self { param, value: compiled }),
            Err(e) => Err(e),
        }
    }

    pub open spec fn spec_evaluate(&self, request: HttpRequest) -> bool {
        match request.query {
            Some(q) => match spec_pairs_lookup(spec_parse_pairs(q@, '&'), self.param@) {
                Some(v) => regex_match(self.value.pattern(), v),
                None => false,
            },
            None => false,
        }
    }

    pub fn evaluate(&self, request: &HttpRequest, _context: &RequestContext) -> (r: bool)
        ensures
            r == self.spec_evaluate(*request),
    {
        match &request.query {
            Some(q) => {
                let params = parse_query_params(q.as_str());
                match pairs_lookup(&params, self.param.as_str()) {
                    Some(v) => self.value.is_match(v.as_str()),
                    None => false,
                }
            },
            None => false,
        }
    }
}

/// Accepts requests whose `Cookie` header binds a named cookie to a value
/// matching a regular-expression pattern.
pub struct CookiePredicate {
    pub name: String,
    pub value: RegexMatcher,
}

impl CookiePredicate {
    /// Compiles the pattern once; an invalid pattern is rejected here, at
    /// construction time, and never reaches evaluation.
    pub fn new(name: String, value: String) -> (r: Result<Self, regex::Error>)
        ensures
            r is Ok <==> regex_compiles(value@),
            r matches Ok(p) ==> p.name == name && p.value.pattern() == value@,
    {
        match RegexMatcher::compile(value.as_str()) {
            Ok(compiled) => Ok(Self { name, value: compiled }),
            Err(e) => Err(e),
        }
    }

    pub open spec fn spec_evaluate(&self, request: HttpRequest) -> bool {
        match spec_header_lookup(request.spec_headers(), "cookie"@) {
            Some(c) => match spec_pairs_lookup(spec_parse_pairs(c, ';'), self.name@) {
                Some(v) => regex_match(self.value.pattern(), v),
                None => false,
            },
            None => false,
        }
    }

    pub fn evaluate(&self, request: &HttpRequest, _context: &RequestContext) -> (r: bool)
        ensures
            r == self.spec_evaluate(*request),
    {
        match request.header_value("cookie") {
            Some(c) => {
                let cookies = parse_cookies(c.as_str());
                match pairs_lookup(&cookies, self.name.as_str()) {
                    Some(v) => self.value.is_match(v.as_str()),
                    None => false,
                }
            },
            None => false,
        }
    }
}

/// Accepts requests whose addressed host matches any of an ordered set of
/// glob patterns (`**` matching any sequence), anchored at both ends.
pub struct HostPredicate {
    pub patterns: Vec<String>,
}

impl HostPredicate {
    pub open spec fn spec_evaluate(&self, request: HttpRequest) -> bool {
        match request.host {
            Some(h) => exists|i: int|
                0 <= i < self.patterns.deep_view().len() && spec_glob_match(
                    self.patterns.deep_view()[i],
                    h@,
                ),
            None => false,
        }
    }

    #[verifier::loop_isolation(false)]
    pub fn evaluate(&self, request: &HttpRequest, _context: &RequestContext) -> (r: bool)
        ensures
            r == self.spec_evaluate(*request),
    {
        match &request.host {
            Some(h) => {
                let ghost pdv = self.patterns.deep_view();
                let n = self.patterns.len();
                let mut i: usize = 0;
                while i < n
                    invariant
                        i <= n,
                        n == self.patterns.len(),
                        pdv == self.patterns.deep_view(),
                        forall|j: int| 0 <= j < i ==> !spec_glob_match(pdv[j], h@),
                    decreases n - i,
                {
                    if glob_match(self.patterns[i].as_str(), h.as_str()) {
                        proof {
                            assert(spec_glob_match(pdv[i as int], h@));
                            assert(exists|j: int|
                                0 <= j < pdv.len() && spec_glob_match(#[trigger] pdv[j], h@));
                        }
                        return true;
                    }
                    i = i + 1;
                }
                false
            },
            None => false,
        }
    }
}

/// Accepts requests whose connection peer address is a member of a
/// configured address set; a missing peer address never matches.
pub struct RemoteAddrPredicate {
    pub addrs: Vec<IpAddress>,
}

impl RemoteAddrPredicate {
    pub open spec fn spec_evaluate(&self, context: RequestContext) -> bool {
        match context.peer {
            Some(a) => self.addrs@.contains(a),
            None => false,
        }
    }

    pub fn evaluate(&self, _request: &HttpRequest, context: &RequestContext) -> (r: bool)
        ensures
            r == self.spec_evaluate(*context),
    {
        match context.peer {
            Some(a) => contains_address(&self.addrs, a),
            None => false,
        }
    }
}

/// Whether any comma-separated entry of an `X-Forwarded-For` header value,
/// trimmed of surrounding whitespace, parses as an address that is a member
/// of `addrs`; unparseable entries are skipped.
pub open spec fn spec_forwarded_match(addrs: Seq<IpAddress>, header: Seq<char>) -> bool {
    let entries = spec_split(header, ',');
    exists|i: int|
        0 <= i < entries.len() && match spec_parse_ip(spec_trim(#[trigger] entries[i])) {
            Some(a) => addrs.contains(a),
            None => false,
        }
}

/// Accepts requests whose `X-Forwarded-For` header names any member of a
/// configured address set; an absent header or one with only non-matching
/// or unparseable entries never matches.
pub struct XForwardedRemoteAddrPredicate {
    pub addrs: Vec<IpAddress>,
}

impl XForwardedRemoteAddrPredicate {
    pub open spec fn spec_evaluate(&self, request: HttpRequest) -> bool {
        match spec_header_lookup(request.spec_headers(), "x-forwarded-for"@) {
            Some(h) => spec_forwarded_match(self.addrs@, h),
            None => false,
        }
    }

    #[verifier::loop_isolation(false)]
    pub fn evaluate(&self, request: &HttpRequest, _context: &RequestContext) -> (r: bool)
        ensures
            r == self.spec_evaluate(*request),
    {
        match request.header_value("x-forwarded-for") {
            Some(h) => {
                let entries = split_str(h.as_str(), ',');
                let ghost edv = entries.deep_view();
                let n = entries.len();
                let mut i: usize = 0;
                while i < n
                    invariant
                        i <= n,
                        n == entries.len(),
                        edv == entries.deep_view(),
                        forall|j: int|
                            0 <= j < i ==> match spec_parse_ip(spec_trim(#[trigger] edv[j])) {
                                Some(a) => !self.addrs@.contains(a),
                                None => true,
                            },
                    decreases n - i,
                {
                    let entry = trim(entries[i].as_str());
                    match parse_ip(entry) {
                        Some(a) => {
                            if contains_address(&self.addrs, a) {
                                proof {
                                    assert(entry@ == spec_trim(edv[i as int]));
                                    assert(match spec_parse_ip(spec_trim(edv[i as int])) {
                                        Some(x) => self.addrs@.contains(x),
                                        None => false,
                                    });
                                    assert(exists|j: int|
                                        0 <= j < edv.len() && match spec_parse_ip(
                                            spec_trim(#[trigger] edv[j]),
                                        ) {
                                            Some(x) => self.addrs@.contains(x),
                                            None => false,
                                        });
                                    assert(spec_forwarded_match(self.addrs@, h@));
                                }
                                return true;
                            }
                        },
                        None => {},
                    }
                    i = i + 1;
                }
                false
            },
            None => false,
        }
    }
}

/// A single routing condition: one of a closed set of pure, side-effect
/// free tests of a request and its connection context.
pub enum Predicate {
    Path(PathPredicate),
    Header(HeaderPredicate),
    QueryParam(QueryParamPredicate),
    Method(MethodPredicate),
    Cookie(CookiePredicate),
    Host(HostPredicate),
    RemoteAddr(RemoteAddrPredicate),
    XForwardedRemoteAddr(XForwardedRemoteAddrPredicate),
}

/// What a predicate's evaluation yields: a pure function of the predicate,
/// the request, and the connection context. Absence of required data (a
/// missing header, an unknown peer address) yields `false`, never an error.
pub open spec fn spec_evaluate(p: Predicate, request: HttpRequest, context: RequestContext) -> bool {
    match p {
        Predicate::Path(q) => q.spec_evaluate(request),
        Predicate::Header(q) => q.spec_evaluate(request),
        Predicate::QueryParam(q) => q.spec_evaluate(request),
        Predicate::Method(q) => q.spec_evaluate(request),
        Predicate::Cookie(q) => q.spec_evaluate(request),
        Predicate::Host(q) => q.spec_evaluate(request),
        Predicate::RemoteAddr(q) => q.spec_evaluate(context),
        Predicate::XForwardedRemoteAddr(q) => q.spec_evaluate(request),
    }
}

impl Predicate {
    /// Evaluates the condition against a request and its context.
    pub fn evaluate(&self, request: &HttpRequest, context: &RequestContext) -> (r: bool)
        ensures
            r == spec_evaluate(*self, *request, *context),
    {
        match self {
            Predicate::Path(q) => q.evaluate(request, context),
            Predicate::Header(q) => q.evaluate(request, context),
            Predicate::QueryParam(q) => q.evaluate(request, context),
            Predicate::Method(q) => q.evaluate(request, context),
            Predicate::Cookie(q) => q.evaluate(request, context),
            Predicate::Host(q) => q.evaluate(request, context),
            Predicate::RemoteAddr(q) => q.evaluate(request, context),
            Predicate::XForwardedRemoteAddr(q) => q.evaluate(request, context),
        }
    }
}

/// Predicate evaluation is idempotent: against one request and one context,
/// any two evaluations of a predicate yield the same boolean. This holds
/// because [`Predicate::evaluate`] returns exactly [`spec_evaluate`], a
/// function of its arguments with no other state.
pub proof fn lemma_evaluate_deterministic(
    p: Predicate,
    request: HttpRequest,
    context: RequestContext,
    r1: bool,
    r2: bool,
)
    requires
        r1 == spec_evaluate(p, request, context),
        r2 == spec_evaluate(p, request, context),
    ensures
        r1 == r2,
{
}

} // verus!
