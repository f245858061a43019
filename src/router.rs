//! Routes and the router that dispatches a request to the first route that
//! matches it.
use vstd::prelude::*;

use crate::request::Request;
use crate::response::Response;
use crate::status::reason_text;
use crate::text::{chars_of, eq_ignore_case, same_folded, split, split_on, string_of};

verus! {

/// What runs for a request that a route matched.
pub trait Handler {
    /// Answers `req` through `res`.
    fn handle(&self, req: &Request, res: &mut Response);
}

/// Whether a pattern segment binds a parameter: it starts with `:`.
pub open spec fn is_param(seg: Seq<char>) -> bool {
    seg.len() > 0 && seg[0] == ':'
}

/// The name that a parameter segment binds: the segment without its
/// leading colons.
pub open spec fn param_name(seg: Seq<char>) -> Seq<char>
    decreases seg.len(),
{
    if seg.len() > 0 && seg[0] == ':' {
        param_name(seg.drop_first())
    } else {
        seg
    }
}

/// Whether pattern segments `rs` fit path segments `ps`: as many of them,
/// and each a parameter or equal to its path segment.
pub open spec fn segments_fit(rs: Seq<Seq<char>>, ps: Seq<Seq<char>>) -> bool {
    rs.len() == ps.len() && forall|i: int| 0 <= i < rs.len() ==> is_param(#[trigger] rs[i]) || rs[i]
        == ps[i]
}

/// `m` with the parameters of the first `n` segments bound in order; a
/// parameter whose path segment is empty is not bound.
pub open spec fn bind(
    m: Map<Seq<char>, Seq<char>>,
    rs: Seq<Seq<char>>,
    ps: Seq<Seq<char>>,
    n: int,
) -> Map<Seq<char>, Seq<char>>
    decreases n,
{
    if n <= 0 {
        m
    } else {
        let prev = bind(m, rs, ps, n - 1);
        if is_param(rs[n - 1]) && ps[n - 1].len() > 0 {
            prev.insert(param_name(rs[n - 1]), ps[n - 1])
        } else {
            prev
        }
    }
}

/// Whether a route with `method` and `pattern` matches a request with
/// `req_method` and `req_path`: the methods are equal ignoring ASCII case,
/// and the `/`-separated segments fit.
pub open spec fn route_fits(
    method: Seq<char>,
    pattern: Seq<char>,
    req_method: Seq<char>,
    req_path: Seq<char>,
) -> bool {
    same_folded(method, req_method) && segments_fit(split(pattern, '/'), split(req_path, '/'))
}

/// `params` with the parameters that `pattern` binds on `path`.
pub open spec fn bindings(
    pattern: Seq<char>,
    path: Seq<char>,
    params: Map<Seq<char>, Seq<char>>,
) -> Map<Seq<char>, Seq<char>> {
    bind(params, split(pattern, '/'), split(path, '/'), split(pattern, '/').len() as int)
}

proof fn lemma_param_name_at(s: Seq<char>, k: int)
    requires
        0 <= k <= s.len(),
        forall|j: int| 0 <= j < k ==> s[j] == ':',
        k < s.len() ==> s[k] != ':',
    ensures
        param_name(s) == s.skip(k),
    decreases s.len(),
{
    if k == 0 {
        assert(s.skip(0) == s);
    } else {
        assert forall|j: int| 0 <= j < k - 1 implies s.drop_first()[j] == ':' by {
            assert(s[j + 1] == ':');
        }
        lemma_param_name_at(s.drop_first(), k - 1);
        assert(s.drop_first().skip(k - 1) == s.skip(k));
    }
}

/// The name that parameter segment `seg` binds.
fn name_of(seg: &Vec<char>) -> (r: String)
    ensures
        r@ == param_name(seg@),
{
    let mut k: usize = 0;
    while k < seg.len() && seg[k] == ':'
        invariant
            k <= seg.len(),
            forall|j: int| 0 <= j < k ==> seg@[j] == ':',
        decreases seg.len() - k,
    {
        k = k + 1;
    }
    proof {
        lemma_param_name_at(seg@, k as int);
        assert(seg@.skip(k as int) == seg@.subrange(k as int, seg@.len() as int));
    }
    string_of(seg, k, seg.len())
}

/// One route: a method, a path pattern whose segments are literals or
/// `:name` parameters, and its handler.
pub struct Route<H> {
    pub method: String,
    pub path: String,
    pub handler: H,
}

impl<H: Handler> Route<H> {
    /// A route for `method` requests whose path fits `path`.
    pub fn new(method: &str, path: &str, handler: H) -> (r: Route<H>)
        ensures
            r.method@ == method@,
            r.path@ == path@,
            r.handler == handler,
    {
        Route { method: method.to_owned(), path: path.to_owned(), handler }
    }

    /// Whether this route matches `req`, without binding anything.
    pub fn fits(&self, req: &Request) -> (r: bool)
        ensures
            r == route_fits(self.method@, self.path@, req.method@, req.path@),
    {
        if !eq_ignore_case(self.method.as_str(), req.method.as_str()) {
            return false;
        }
        let rs = split_on(self.path.as_str(), '/');
        let ps = split_on(req.path.as_str(), '/');
        let ghost rv = rs@.map_values(|x: String| x@);
        let ghost pv = ps@.map_values(|x: String| x@);
        if rs.len() != ps.len() {
            return false;
        }
        let mut i: usize = 0;
        while i < rs.len()
            invariant
                rv == rs@.map_values(|x: String| x@),
                pv == ps@.map_values(|x: String| x@),
                rv == split(self.path@, '/'),
                pv == split(req.path@, '/'),
                rs.len() == ps.len(),
                i <= rs.len(),
                forall|j: int| 0 <= j < i ==> is_param(#[trigger] rv[j]) || rv[j] == pv[j],
            decreases rs.len() - i,
        {
            let seg = chars_of(rs[i].as_str());
            let param = seg.len() > 0 && seg[0] == ':';
            assert(rv[i as int] == rs@[i as int]@);
            if !param && rs[i] != ps[i] {
                assert(!(is_param(rv[i as int]) || rv[i as int] == pv[i as int]));
                return false;
            }
            i = i + 1;
        }
        true
    }

    /// Whether this route matches `req`; on a match the route's parameters
    /// are bound in `req.params`, and otherwise `req` is left as it was.
    pub fn matches(&self, req: &mut Request) -> (r: bool)
        ensures
            r == route_fits(self.method@, self.path@, old(req).method@, old(req).path@),
            final(req).same_but_params(old(req)),
            r ==> final(req).params@ == bindings(self.path@, old(req).path@, old(req).params@),
            !r ==> final(req).params.pairs() == old(req).params.pairs(),
    {
        if !self.fits(req) {
            return false;
        }
        let rs = split_on(self.path.as_str(), '/');
        let ps = split_on(req.path.as_str(), '/');
        let ghost rv = rs@.map_values(|x: String| x@);
        let ghost pv = ps@.map_values(|x: String| x@);
        let ghost start = req.params@;
        let mut i: usize = 0;
        while i < rs.len()
            invariant
                rv == rs@.map_values(|x: String| x@),
                pv == ps@.map_values(|x: String| x@),
                rv == split(self.path@, '/'),
                pv == split(req.path@, '/'),
                rs.len() == ps.len(),
                i <= rs.len(),
                req.params@ == bind(start, rv, pv, i as int),
                req.same_but_params(old(req)),
            decreases rs.len() - i,
        {
            let seg = chars_of(rs[i].as_str());
            assert(rv[i as int] == rs@[i as int]@);
            assert(pv[i as int] == ps@[i as int]@);
            if seg.len() > 0 && seg[0] == ':' && !ps[i].as_str().is_empty() {
                let name = name_of(&seg);
                req.params.insert(name, ps[i].clone());
            }
            i = i + 1;
        }
        true
    }
}

/// Index of the first of `routes` (method and pattern) that matches a
/// request with `method` and `path`, or `routes.len()` when none does.
pub open spec fn first_fit(
    routes: Seq<(Seq<char>, Seq<char>)>,
    method: Seq<char>,
    path: Seq<char>,
) -> int
    decreases routes.len(),
{
    if routes.len() == 0 {
        0
    } else if route_fits(routes[0].0, routes[0].1, method, path) {
        0
    } else {
        1 + first_fit(routes.drop_first(), method, path)
    }
}

pub proof fn lemma_first_fit(routes: Seq<(Seq<char>, Seq<char>)>, method: Seq<char>, path: Seq<char>)
    ensures
        0 <= first_fit(routes, method, path) <= routes.len(),
        forall|j: int|
            0 <= j < first_fit(routes, method, path) ==> !route_fits(
                #[trigger] routes[j].0,
                routes[j].1,
                method,
                path,
            ),
        first_fit(routes, method, path) < routes.len() ==> route_fits(
            routes[first_fit(routes, method, path)].0,
            routes[first_fit(routes, method, path)].1,
            method,
            path,
        ),
    decreases routes.len(),
{
    if routes.len() > 0 && !route_fits(routes[0].0, routes[0].1, method, path) {
        let rest = routes.drop_first();
        lemma_first_fit(rest, method, path);
        assert forall|j: int| 0 <= j < first_fit(routes, method, path) implies !route_fits(
            #[trigger] routes[j].0,
            routes[j].1,
            method,
            path,
        ) by {
            if j > 0 {
                assert(routes[j] == rest[j - 1]);
            }
        }
        if first_fit(routes, method, path) < routes.len() {
            assert(routes[first_fit(routes, method, path)] == rest[first_fit(rest, method, path)]);
        }
    }
}

/// The first route wins: when the route at `i` matches a request, the route
/// chosen for it is at `i` or before, and no route before the chosen one
/// matches.
pub proof fn lemma_first_match_wins(
    routes: Seq<(Seq<char>, Seq<char>)>,
    method: Seq<char>,
    path: Seq<char>,
    i: int,
)
    requires
        0 <= i < routes.len(),
        route_fits(routes[i].0, routes[i].1, method, path),
    ensures
        first_fit(routes, method, path) <= i,
        route_fits(
            routes[first_fit(routes, method, path)].0,
            routes[first_fit(routes, method, path)].1,
            method,
            path,
        ),
        forall|j: int|
            0 <= j < first_fit(routes, method, path) ==> !route_fits(
                #[trigger] routes[j].0,
                routes[j].1,
                method,
                path,
            ),
{
    lemma_first_fit(routes, method, path);
}

/// The routes of an application, in the order they were added.
pub struct Router<H> {
    routes: Vec<Route<H>>,
}

impl<H: Handler> Router<H> {
    /// Method and pattern of each route, in order.
    pub closed spec fn table(&self) -> Seq<(Seq<char>, Seq<char>)> {
        self.routes@.map_values(|r: Route<H>| (r.method@, r.path@))
    }

    /// A router without routes.
    pub fn new() -> (r: Router<H>)
        ensures
            r.table() == Seq::<(Seq<char>, Seq<char>)>::empty(),
    {
        let r = Router { routes: Vec::new() };
        assert(r.table() =~= Seq::<(Seq<char>, Seq<char>)>::empty());
        r
    }

    /// Adds a route after the existing ones.
    pub fn add_route(&mut self, method: &str, path: &str, handler: H)
        ensures
            final(self).table() == old(self).table().push((method@, path@)),
    {
        self.routes.push(Route::new(method, path, handler));
        assert(self.table() =~= old(self).table().push((method@, path@)));
    }

    /// Index of the first route that matches `req`.
    pub fn find(&self, req: &Request) -> (r: Option<usize>)
        ensures
            match r {
                Some(i) => i == first_fit(self.table(), req.method@, req.path@) && i < self.table().len(),
                None => first_fit(self.table(), req.method@, req.path@) == self.table().len(),
            },
    {
        let ghost t = self.table();
        proof {
            lemma_first_fit(t, req.method@, req.path@);
        }
        let mut i: usize = 0;
        while i < self.routes.len()
            invariant
                t == self.table(),
                i <= self.routes.len(),
                forall|j: int| 0 <= j < i ==> !route_fits(#[trigger] t[j].0, t[j].1, req.method@, req.path@),
                0 <= first_fit(t, req.method@, req.path@) <= t.len(),
                forall|j: int|
                    0 <= j < first_fit(t, req.method@, req.path@) ==> !route_fits(
                        #[trigger] t[j].0,
                        t[j].1,
                        req.method@,
                        req.path@,
                    ),
                first_fit(t, req.method@, req.path@) < t.len() ==> route_fits(
                    t[first_fit(t, req.method@, req.path@)].0,
                    t[first_fit(t, req.method@, req.path@)].1,
                    req.method@,
                    req.path@,
                ),
            decreases self.routes.len() - i,
        {
            assert(t[i as int] == (self.routes@[i as int].method@, self.routes@[i as int].path@));
            if self.routes[i].fits(req) {
                assert(route_fits(t[i as int].0, t[i as int].1, req.method@, req.path@));
                proof {
                    let k = first_fit(t, req.method@, req.path@);
                    if k < i {
                        assert(route_fits(t[k].0, t[k].1, req.method@, req.path@));
                    }
                }
                return Some(i);
            }
            i = i + 1;
        }
        None
    }

    /// Dispatches `req` to the first route that matches it: its parameters
    /// are bound in `req.params` and its handler runs. When no route
    /// matches, the response is sent as `404 Not Found`.
    pub fn handle(&self, req: &mut Request, res: &mut Response)
        ensures
            final(req).same_but_params(old(req)),
            ({
                let t = self.table();
                let k = first_fit(t, old(req).method@, old(req).path@);
                if k < t.len() {
                    final(req).params@ == bindings(t[k].1, old(req).path@, old(req).params@)
                } else {
                    &&& final(req).params.pairs() == old(req).params.pairs()
                    &&& final(res)@ == old(res)@.with_status(404, reason_text(404)).finish(
                        "text/plain"@,
                        "404 Not Found"@,
                    )
                }
            }),
    {
        proof {
            lemma_first_fit(self.table(), req.method@, req.path@);
        }
        match self.find(req) {
            Some(i) => {
                let route = &self.routes[i];
                assert(self.table()[i as int] == (route.method@, route.path@));
                route.matches(req);
                route.handler.handle(req, res);
            },
            None => {
                res.status(404u16);
                res.send("404 Not Found");
            },
        }
    }
}

} // verus!
