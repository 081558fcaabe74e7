use vstd::prelude::*;
use vstd::string::StrSliceExecFns;
use crate::http::request::HTTPMethod;

verus! {

/// One entry of the dispatch table: requests with `method` whose path the
/// route's `path` covers go to `handler`.
#[derive(Debug)]
pub struct Route<H> {
    pub method: HTTPMethod,
    pub path: String,
    pub handler: H,
}

impl<H> Route<H> {
    pub fn new(method: HTTPMethod, path: &str, handler: H) -> (r: Self)
        ensures
            r.method == method,
            r.path@ == path@,
            r.handler == handler,
    {
        Route { method, path: path.to_owned(), handler }
    }
}

#[derive(Debug, PartialEq, Eq, Hash)]
pub struct RouterKey(pub String, pub HTTPMethod);

/// The path `/`, which a route matches only exactly.
pub open spec fn root_path() -> Seq<char> {
    seq!['/']
}

pub open spec fn is_prefix(p: Seq<char>, s: Seq<char>) -> bool {
    p.len() <= s.len() && s.subrange(0, p.len() as int) == p
}

/// A route registered at `route_path` for `route_method` serves a request
/// for `path` with `method`: the methods agree, and either both paths are
/// `/`, or neither route path is `/` and it is a prefix of `path`.
pub open spec fn route_matches(
    route_path: Seq<char>,
    route_method: HTTPMethod,
    path: Seq<char>,
    method: HTTPMethod,
) -> bool {
    &&& route_method == method
    &&& if path == root_path() {
        route_path == root_path()
    } else {
        route_path != root_path() && is_prefix(route_path, path)
    }
}

/// The dispatch table as paths and methods, in registration order.
pub type RouteTable = Seq<(Seq<char>, HTTPMethod)>;

/// Index of the first route at or after `i` that serves the request, or the
/// table's length when none does.
pub open spec fn first_match_from(t: RouteTable, path: Seq<char>, method: HTTPMethod, i: int) -> int
    decreases t.len() - i,
{
    if i >= t.len() {
        t.len() as int
    } else if route_matches(t[i].0, t[i].1, path, method) {
        i
    } else {
        first_match_from(t, path, method, i + 1)
    }
}

/// The first route, in registration order, that serves the request.
pub open spec fn resolve_spec(t: RouteTable, path: Seq<char>, method: HTTPMethod) -> Option<int> {
    let k = first_match_from(t, path, method, 0);
    if k < t.len() {
        Some(k)
    } else {
        None
    }
}

pub proof fn lemma_first_match_from(t: RouteTable, path: Seq<char>, method: HTTPMethod, i: int)
    requires
        0 <= i <= t.len(),
    ensures
        i <= first_match_from(t, path, method, i) <= t.len(),
        first_match_from(t, path, method, i) < t.len() ==> route_matches(
            t[first_match_from(t, path, method, i)].0,
            t[first_match_from(t, path, method, i)].1,
            path,
            method,
        ),
        forall|j: int|
            i <= j < first_match_from(t, path, method, i) ==> !route_matches(
                #[trigger] t[j].0,
                t[j].1,
                path,
                method,
            ),
    decreases t.len() - i,
{
    if i < t.len() && !route_matches(t[i].0, t[i].1, path, method) {
        lemma_first_match_from(t, path, method, i + 1);
    }
}

/// Relies on `str::starts_with`: whether `prefix` is a prefix of `s`.
#[verifier::external_body]
fn starts_with(s: &str, prefix: &str) -> (r: bool)
    ensures
        r == is_prefix(prefix@, s@),
{
    s.starts_with(prefix)
}

fn is_root(s: &str) -> (r: bool)
    ensures
        r == (s@ == root_path()),
{
    if s.unicode_len() == 1 {
        let c = s.get_char(0);
        if c == '/' {
            assert(s@ =~= root_path());
            true
        } else {
            false
        }
    } else {
        false
    }
}

/// Whether a route registered at `route_path` for `route_method` serves a
/// request for `path` with `method`.
pub fn route_serves(route_path: &str, route_method: HTTPMethod, path: &str, method: HTTPMethod) -> (r: bool)
    ensures
        r == route_matches(route_path@, route_method, path@, method),
{
    if route_method != method {
        return false;
    }
    if is_root(path) {
        is_root(route_path)
    } else {
        !is_root(route_path) && starts_with(path, route_path)
    }
}

/// The ordered dispatch table.
#[derive(Debug)]
pub struct Router<H> {
    pub routes: Vec<Route<H>>,
}

impl<H> Router<H> {
    pub open spec fn table(&self) -> RouteTable {
        self.routes@.map_values(|r: Route<H>| (r.path@, r.method))
    }

    /// A router holding `routes`, or none.
    pub fn new(routes: Option<Vec<Route<H>>>) -> (r: Self)
        ensures
            match routes {
                None => r.routes@.len() == 0,
                Some(v) => r.routes@ == v@,
            },
    {
        match routes {
            None => Router { routes: Vec::with_capacity(1) },
            Some(routes) => Router { routes },
        }
    }

    /// Registers a route after all earlier ones.
    pub fn add_route(&mut self, path: &str, method: HTTPMethod, handler: H)
        ensures
            final(self).routes@.len() == old(self).routes@.len() + 1,
            final(self).routes@.subrange(0, old(self).routes@.len() as int) == old(self).routes@,
            final(self).routes@.last().path@ == path@,
            final(self).routes@.last().method == method,
            final(self).routes@.last().handler == handler,
    {
        self.routes.push(Route { path: path.to_owned(), method, handler });
        assert(self.routes@.subrange(0, old(self).routes@.len() as int) =~= old(self).routes@);
    }

    /// The position of the first route that serves a request for `path`
    /// with `method`, if any.
    pub fn resolve(&self, method: HTTPMethod, path: &str) -> (r: Option<usize>)
        ensures
            match r {
                Some(k) => resolve_spec(self.table(), path@, method) == Some(k as int),
                None => resolve_spec(self.table(), path@, method) is None,
            },
    {
        let ghost t = self.table();
        let mut i: usize = 0;
        while i < self.routes.len()
            invariant
                i <= self.routes@.len(),
                t == self.table(),
                first_match_from(t, path@, method, i as int) == first_match_from(t, path@, method, 0),
            decreases self.routes@.len() - i,
        {
            let route = &self.routes[i];
            if route_serves(route.path.as_str(), route.method, path, method) {
                return Some(i);
            }
            i = i + 1;
        }
        None
    }
}

/// The path `/` is matched only exactly: whatever the table, a request for
/// another path is never resolved to a route registered at `/`.
pub proof fn lemma_root_matches_only_root(t: RouteTable, path: Seq<char>, method: HTTPMethod)
    requires
        path != root_path(),
    ensures
        match resolve_spec(t, path, method) {
            Some(k) => t[k].0 != root_path(),
            None => true,
        },
{
    lemma_first_match_from(t, path, method, 0);
}

/// Routes are tried in order: the resolved route serves the request, and
/// every route registered before it does not.
pub proof fn lemma_first_match_wins(t: RouteTable, path: Seq<char>, method: HTTPMethod)
    ensures
        match resolve_spec(t, path, method) {
            Some(k) => 0 <= k < t.len() && route_matches(t[k].0, t[k].1, path, method) && forall|
                j: int,
            |
                0 <= j < k ==> !route_matches(#[trigger] t[j].0, t[j].1, path, method),
            None => forall|j: int|
                0 <= j < t.len() ==> !route_matches(#[trigger] t[j].0, t[j].1, path, method),
        },
{
    lemma_first_match_from(t, path, method, 0);
}

} // verus!
