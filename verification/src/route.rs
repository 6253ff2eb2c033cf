use vstd::prelude::*;
use crate::filters::Filter;
use crate::predicates::{spec_evaluate, Predicate};
use crate::request::{HttpRequest, RequestContext};

verus! {

/// A routing rule: an ordered predicate set (AND-composed), an ordered
/// filter chain, and the upstream authority (`host[:port]`) matched
/// requests are forwarded to. Immutable once constructed.
pub struct Route {
    pub id: String,
    pub predicates: Vec<Predicate>,
    pub filters: Vec<Filter>,
    pub destination: String,
}

impl Route {
    /// Whether every predicate of the route accepts the request: a
    /// logical AND over the ordered predicate set.
    pub open spec fn spec_matches(&self, request: HttpRequest, context: RequestContext) -> bool {
        forall|i: int|
            0 <= i < self.predicates@.len() ==> spec_evaluate(
                #[trigger] self.predicates@[i],
                request,
                context,
            )
    }

    /// Evaluates the route's predicates left to right, stopping at the
    /// first `false`.
    #[verifier::loop_isolation(false)]
    pub fn matches(&self, request: &HttpRequest, context: &RequestContext) -> (r: bool)
        ensures
            r == self.spec_matches(*request, *context),
    {
        let n = self.predicates.len();
        let mut i: usize = 0;
        while i < n
            invariant
                i <= n,
                forall|j: int|
                    0 <= j < i ==> spec_evaluate(
                        #[trigger] self.predicates@[j],
                        *request,
                        *context,
                    ),
            decreases n - i,
        {
            if !self.predicates[i].evaluate(request, context) {
                return false;
            }
            i = i + 1;
        }
        true
    }
}

/// The index of the first route, in table order, whose whole predicate
/// set accepts the request; `None` when no route qualifies.
pub open spec fn spec_find_route(
    routes: Seq<Route>,
    request: HttpRequest,
    context: RequestContext,
) -> Option<int>
    decreases routes.len(),
{
    if routes.len() == 0 {
        None
    } else if routes[0].spec_matches(request, context) {
        Some(0)
    } else {
        match spec_find_route(routes.drop_first(), request, context) {
            Some(i) => Some(i + 1),
            None => None,
        }
    }
}

/// Dropping a prefix of non-matching routes shifts the found index.
proof fn lemma_find_route_skip(
    routes: Seq<Route>,
    request: HttpRequest,
    context: RequestContext,
    i: int,
)
    requires
        0 <= i <= routes.len(),
        forall|j: int| 0 <= j < i ==> !(#[trigger] routes[j]).spec_matches(request, context),
    ensures
        spec_find_route(routes, request, context) == (match spec_find_route(
            routes.skip(i),
            request,
            context,
        ) {
            Some(k) => Some(k + i),
            None => None::<int>,
        }),
    decreases i,
{
    if i == 0 {
        assert(routes.skip(0) =~= routes);
    } else {
        assert(routes.drop_first() =~= routes.skip(1));
        lemma_find_route_skip(routes.drop_first(), request, context, i - 1);
        assert(routes.drop_first().skip(i - 1) =~= routes.skip(i));
    }
}

/// Scans the table in stored order and returns the index of the first
/// route whose full predicate set evaluates true: first match wins, ties
/// are resolved purely by declaration order. `None` when the table is
/// empty or no route matches — never an index of a route with even one
/// false predicate.
#[verifier::loop_isolation(false)]
pub fn find_route(
    routes: &Vec<Route>,
    request: &HttpRequest,
    context: &RequestContext,
) -> (r: Option<usize>)
    ensures
        match r {
            Some(i) => {
                &&& i < routes@.len()
                &&& routes@[i as int].spec_matches(*request, *context)
                &&& forall|j: int|
                    0 <= j < i ==> !(#[trigger] routes@[j]).spec_matches(*request, *context)
                &&& spec_find_route(routes@, *request, *context) == Some(i as int)
            },
            None => {
                &&& forall|j: int|
                    0 <= j < routes@.len() ==> !(#[trigger] routes@[j]).spec_matches(
                        *request,
                        *context,
                    )
                &&& spec_find_route(routes@, *request, *context) is None
            },
        },
{
    let n = routes.len();
    let mut i: usize = 0;
    while i < n
        invariant
            i <= n,
            forall|j: int| 0 <= j < i ==> !(#[trigger] routes@[j]).spec_matches(*request, *context),
        decreases n - i,
    {
        if routes[i].matches(request, context) {
            proof {
                lemma_find_route_skip(routes@, *request, *context, i as int);
                assert(routes@.skip(i as int)[0] == routes@[i as int]);
            }
            return Some(i);
        }
        i = i + 1;
    }
    proof {
        lemma_find_route_skip(routes@, *request, *context, n as int);
        assert(routes@.skip(n as int).len() == 0);
    }
    None
}

} // verus!
