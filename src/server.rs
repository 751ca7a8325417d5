//! The server: route tables for `GET` and `POST`, the response cache, and
//! the dispatch of one request.
use vstd::prelude::*;
use crate::cache::ResponseCache;
use crate::matcher::{accepts, opt_view, same_matcher, Path};
use crate::request::{body_of, lossy_text, method_of, parses, path_of, request_text, Request};
use crate::response::{not_found_wire, wire, Response};

verus! {

/// A matcher and the handler that serves the requests it accepts. A
/// handler is a function from the matched request to a response; it is
/// called from whichever worker serves the connection.
pub struct Route<H>(pub Path, pub H);

/// How one request was served.
pub enum Outcome {
    /// The path was in the cache; no handler ran.
    Cached(Response),
    /// The route at this index of the method's list took the request.
    Handled(usize, Response),
    /// No route of the method's list accepts the path.
    NotFound,
}

/// The list that serves `method`: `POST` has its own, every other method
/// uses the `GET` list.
pub open spec fn routes_for<H>(get: Seq<Route<H>>, post: Seq<Route<H>>, method: Seq<char>) -> Seq<
    Route<H>,
> {
    if method == "POST"@ {
        post
    } else {
        get
    }
}

/// `r` is the lowest index of `rs` whose matcher accepts `path`, or `None`
/// where none does.
pub open spec fn is_first_match<H>(rs: Seq<Route<H>>, path: Seq<char>, r: Option<usize>) -> bool {
    match r {
        Some(i) => {
            &&& i < rs.len()
            &&& accepts(rs[i as int].0, path)
            &&& forall|j: int| 0 <= j < i ==> !accepts(#[trigger] rs[j].0, path)
        },
        None => forall|j: int| 0 <= j < rs.len() ==> !accepts(#[trigger] rs[j].0, path),
    }
}

/// `r` is what the handler of route `i` of `rs` gave for a request with this
/// method, path and body, handed over with `matched_path` set to the route's
/// matcher.
pub open spec fn served_by<H: Fn(Option<&Request>) -> Response>(
    rs: Seq<Route<H>>,
    i: int,
    method: Seq<char>,
    path: Seq<char>,
    body: Option<Seq<char>>,
    r: Response,
) -> bool {
    exists|q: Request|
        {
            &&& q.method@ == method
            &&& q.path@ == path
            &&& opt_view(q.body) == body
            &&& q.matched_path is Some
            &&& same_matcher(q.matched_path->Some_0, rs[i].0)
            &&& #[trigger] call_ensures(rs[i].1, (Some(&q),), r)
        }
}

/// The response served for an outcome, if any.
pub open spec fn response_of(o: Outcome) -> Option<Response> {
    match o {
        Outcome::Cached(r) => Some(r),
        Outcome::Handled(_, r) => Some(r),
        Outcome::NotFound => None,
    }
}

/// The text written back for an outcome.
pub open spec fn wire_of(o: Outcome) -> Seq<char> {
    match response_of(o) {
        Some(r) => wire(r),
        None => not_found_wire(),
    }
}

/// The cache after serving `path` with outcome `o`: only a handled request
/// adds an entry.
pub open spec fn next_cache(c: Map<Seq<char>, Response>, path: Seq<char>, o: Outcome) -> Map<
    Seq<char>,
    Response,
> {
    match o {
        Outcome::Handled(_, r) => c.insert(path, r),
        _ => c,
    }
}

/// `o` is how a request with `method` and `path` is served from route lists
/// `get` and `post` and cache `c`: the cache first, whatever the method; on a
/// miss the first route of the method's list that accepts the path.
pub open spec fn step<H>(
    get: Seq<Route<H>>,
    post: Seq<Route<H>>,
    c: Map<Seq<char>, Response>,
    method: Seq<char>,
    path: Seq<char>,
    o: Outcome,
) -> bool {
    if c.contains_key(path) {
        o == Outcome::Cached(c[path])
    } else {
        match o {
            Outcome::Cached(_) => false,
            Outcome::Handled(i, _) => is_first_match(routes_for(get, post, method), path, Some(i)),
            Outcome::NotFound => is_first_match(routes_for(get, post, method), path, None),
        }
    }
}

/// Handler `h` can be called on every request.
pub open spec fn accepts_any<H: Fn(Option<&Request>) -> Response>(h: H) -> bool {
    forall|q: Option<&Request>| #[trigger] call_requires(h, (q,))
}

/// Routes by method, and the responses served so far by path.
pub struct Server<H> {
    get: Vec<Route<H>>,
    post: Vec<Route<H>>,
    request_cache: ResponseCache,
}

impl<H: Fn(Option<&Request>) -> Response> Server<H> {
    /// Every handler of the server can be called on any request.
    pub closed spec fn wf(&self) -> bool {
        &&& forall|i: int| 0 <= i < self.get@.len() ==> accepts_any(#[trigger] self.get@[i].1)
        &&& forall|i: int| 0 <= i < self.post@.len() ==> accepts_any(#[trigger] self.post@[i].1)
    }

    /// The `GET` routes, in registration order.
    pub closed spec fn get_routes(&self) -> Seq<Route<H>> {
        self.get@
    }

    /// The `POST` routes, in registration order.
    pub closed spec fn post_routes(&self) -> Seq<Route<H>> {
        self.post@
    }

    /// The cached responses by path.
    pub closed spec fn cache(&self) -> Map<Seq<char>, Response> {
        self.request_cache@
    }

    /// A server with no routes and an empty cache.
    pub fn new() -> (r: Server<H>)
        ensures
            r.get_routes() == Seq::<Route<H>>::empty(),
            r.post_routes() == Seq::<Route<H>>::empty(),
            r.cache() == Map::<Seq<char>, Response>::empty(),
            r.wf(),
    {
        Server { get: Vec::new(), post: Vec::new(), request_cache: ResponseCache::new() }
    }

    /// Appends a route to the `GET` list.
    pub fn get(&mut self, path: Path, handler: H)
        requires
            old(self).wf(),
            accepts_any(handler),
        ensures
            final(self).wf(),
            final(self).get_routes() == old(self).get_routes().push(Route(path, handler)),
            final(self).post_routes() == old(self).post_routes(),
            final(self).cache() == old(self).cache(),
    {
        let ghost before = self.get@;
        self.get.push(Route(path, handler));
        assert(forall|i: int| 0 <= i < before.len() ==> self.get@[i] == before[i]);
    }

    /// Appends a route to the `POST` list.
    pub fn post(&mut self, path: Path, handler: H)
        requires
            old(self).wf(),
            accepts_any(handler),
        ensures
            final(self).wf(),
            final(self).post_routes() == old(self).post_routes().push(Route(path, handler)),
            final(self).get_routes() == old(self).get_routes(),
            final(self).cache() == old(self).cache(),
    {
        let ghost before = self.post@;
        self.post.push(Route(path, handler));
        assert(forall|i: int| 0 <= i < before.len() ==> self.post@[i] == before[i]);
    }

    /// The index, in the list that serves `method`, of the first route that
    /// accepts `path`.
    pub fn route_for(&self, method: &String, path: &String) -> (r: Option<usize>)
        ensures
            is_first_match(routes_for(self.get_routes(), self.post_routes(), method@), path@, r),
    {
        let post_word = String::from_str("POST");
        let routes = if method.eq(&post_word) {
            &self.post
        } else {
            &self.get
        };
        let mut i: usize = 0;
        while i < routes.len()
            invariant
                i <= routes@.len(),
                routes@ == routes_for(self.get_routes(), self.post_routes(), method@),
                forall|j: int| 0 <= j < i ==> !accepts(#[trigger] routes@[j].0, path@),
            decreases routes@.len() - i,
        {
            if routes[i].0.accepts(path) {
                return Some(i);
            }
            i = i + 1;
        }
        None
    }

    /// Serves one request: from the cache when its path is there, else by
    /// the first route of its method's list that accepts the path, whose
    /// response is then cached under the path.
    pub fn dispatch(&mut self, req: Request) -> (o: Outcome)
        requires
            old(self).wf(),
        ensures
            final(self).wf(),
            step(
                old(self).get_routes(),
                old(self).post_routes(),
                old(self).cache(),
                req.method@,
                req.path@,
                o,
            ),
            final(self).cache() == next_cache(old(self).cache(), req.path@, o),
            o is Handled ==> served_by(
                routes_for(old(self).get_routes(), old(self).post_routes(), req.method@),
                o->Handled_0 as int,
                req.method@,
                req.path@,
                opt_view(req.body),
                o->Handled_1,
            ),
            final(self).get_routes() == old(self).get_routes(),
            final(self).post_routes() == old(self).post_routes(),
    {
        let mut req = req;
        match self.request_cache.lookup(&req.path) {
            Some(r) => Outcome::Cached(r),
            None => match self.route_for(&req.method, &req.path) {
                None => Outcome::NotFound,
                Some(i) => {
                    let post_word = String::from_str("POST");
                    let routes = if req.method.eq(&post_word) {
                        &self.post
                    } else {
                        &self.get
                    };
                    let route = &routes[i];
                    req.matched_path = Some(route.0.clone());
                    assert(call_requires(route.1, (Some(&req),)));
                    let r = (route.1)(Some(&req));
                    assert(call_ensures(routes@[i as int].1, (Some(&req),), r));
                    self.request_cache.insert(&req.path, r.clone());
                    Outcome::Handled(i, r)
                },
            },
        }
    }

    /// Serves the text of one request and gives the text to write back, or
    /// `None` when the text does not hold a request (nothing is written then,
    /// and nothing changes).
    pub fn handle_text(&mut self, text: &str) -> (r: Option<String>)
        requires
            old(self).wf(),
        ensures
            final(self).wf(),
            final(self).get_routes() == old(self).get_routes(),
            final(self).post_routes() == old(self).post_routes(),
            !parses(text@) ==> r is None && final(self).cache() == old(self).cache(),
            parses(text@) ==> r is Some && exists|o: Outcome|
                {
                    &&& step(
                        old(self).get_routes(),
                        old(self).post_routes(),
                        old(self).cache(),
                        method_of(text@),
                        path_of(text@),
                        o,
                    )
                    &&& final(self).cache() == next_cache(old(self).cache(), path_of(text@), o)
                    &&& o is Handled ==> served_by(
                        routes_for(old(self).get_routes(), old(self).post_routes(), method_of(text@)),
                        o->Handled_0 as int,
                        method_of(text@),
                        path_of(text@),
                        body_of(text@),
                        o->Handled_1,
                    )
                    &&& r->Some_0@ == #[trigger] wire_of(o)
                },
    {
        match Request::new(text) {
            None => None,
            Some(req) => {
                let o = self.dispatch(req);
                let out = match &o {
                    Outcome::Cached(r) => r.to_wire(),
                    Outcome::Handled(_, r) => r.to_wire(),
                    Outcome::NotFound => Response::not_found_wire(),
                };
                assert(out@ == wire_of(o));
                Some(out)
            },
        }
    }

    /// Serves one raw request buffer, read as text with invalid bytes
    /// replaced, as `handle_text` does.
    pub fn handle_client(&mut self, raw: &[u8]) -> (r: Option<String>)
        requires
            old(self).wf(),
        ensures
            final(self).wf(),
            final(self).get_routes() == old(self).get_routes(),
            final(self).post_routes() == old(self).post_routes(),
            !parses(lossy_text(raw@)) ==> r is None && final(self).cache() == old(self).cache(),
            parses(lossy_text(raw@)) ==> r is Some && exists|o: Outcome|
                {
                    let text = lossy_text(raw@);
                    &&& step(
                        old(self).get_routes(),
                        old(self).post_routes(),
                        old(self).cache(),
                        method_of(text),
                        path_of(text),
                        o,
                    )
                    &&& final(self).cache() == next_cache(old(self).cache(), path_of(text), o)
                    &&& o is Handled ==> served_by(
                        routes_for(old(self).get_routes(), old(self).post_routes(), method_of(text)),
                        o->Handled_0 as int,
                        method_of(text),
                        path_of(text),
                        body_of(text),
                        o->Handled_1,
                    )
                    &&& r->Some_0@ == #[trigger] wire_of(o)
                },
    {
        let text = request_text(raw);
        self.handle_text(text.as_str())
    }
}

} // verus!
