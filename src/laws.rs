//! Properties of request dispatch, stated over the relation `step` that
//! `Server::dispatch` and `Server::handle_client` are proved to follow.
use vstd::prelude::*;
use crate::matcher::{accepts, pattern_matches, Path};
use crate::response::Response;
use crate::server::{is_first_match, next_cache, response_of, routes_for, step, Outcome, Route};

verus! {

/// `POST` requests are served from the `POST` list and `GET` requests from
/// the `GET` list: a route registered for one method never serves the other.
pub proof fn lemma_method_lists<H>(get: Seq<Route<H>>, post: Seq<Route<H>>)
    ensures
        routes_for(get, post, "POST"@) == post,
        routes_for(get, post, "GET"@) == get,
{
    reveal_strlit("POST");
    reveal_strlit("GET");
    assert("GET"@[0] != "POST"@[0]);
}

/// A request whose path is not cached, and equals the path of literal route
/// `i` of its method's list, is handled by route `i` when no earlier route of
/// that list accepts the path.
pub proof fn lemma_literal_route_serves<H>(
    get: Seq<Route<H>>,
    post: Seq<Route<H>>,
    c: Map<Seq<char>, Response>,
    method: Seq<char>,
    path: Seq<char>,
    i: usize,
    o: Outcome,
)
    requires
        i < routes_for(get, post, method).len(),
        routes_for(get, post, method)[i as int].0 is Str,
        routes_for(get, post, method)[i as int].0->Str_0@ == path,
        forall|j: int| 0 <= j < i ==> !accepts(#[trigger] routes_for(get, post, method)[j].0, path),
        !c.contains_key(path),
        step(get, post, c, method, path, o),
    ensures
        o is Handled,
        o->Handled_0 == i,
        next_cache(c, path, o) == c.insert(path, o->Handled_1),
{
    lemma_first_match_unique(routes_for(get, post, method), path, Some(i), o);
}

/// A request whose path is not cached, and in which the pattern of route `i`
/// of its method's list matches, is handled by route `i` when no earlier
/// route of that list accepts the path.
pub proof fn lemma_pattern_route_serves<H>(
    get: Seq<Route<H>>,
    post: Seq<Route<H>>,
    c: Map<Seq<char>, Response>,
    method: Seq<char>,
    path: Seq<char>,
    i: usize,
    o: Outcome,
)
    requires
        i < routes_for(get, post, method).len(),
        routes_for(get, post, method)[i as int].0 is Rex,
        pattern_matches(routes_for(get, post, method)[i as int].0->Rex_0@, path),
        forall|j: int| 0 <= j < i ==> !accepts(#[trigger] routes_for(get, post, method)[j].0, path),
        !c.contains_key(path),
        step(get, post, c, method, path, o),
    ensures
        o is Handled,
        o->Handled_0 == i,
{
    lemma_first_match_unique(routes_for(get, post, method), path, Some(i), o);
}

/// The outcome of a cache miss names the route that `is_first_match` picks.
proof fn lemma_first_match_unique<H>(rs: Seq<Route<H>>, path: Seq<char>, r: Option<usize>, o: Outcome)
    requires
        is_first_match(rs, path, r),
        match o {
            Outcome::Cached(_) => false,
            Outcome::Handled(k, _) => is_first_match(rs, path, Some(k)),
            Outcome::NotFound => is_first_match(rs, path, None),
        },
    ensures
        r is Some <==> o is Handled,
        r is Some ==> o->Handled_0 == r->Some_0,
{
    match o {
        Outcome::Handled(k, _) => {
            if r is Some {
                let i = r->Some_0;
                if k < i {
                    assert(!accepts(rs[k as int].0, path));
                } else if i < k {
                    assert(!accepts(rs[i as int].0, path));
                }
            } else {
                assert(!accepts(rs[k as int].0, path));
            }
        },
        _ => {
            if r is Some {
                let i = r->Some_0;
                assert(!accepts(rs[i as int].0, path));
            }
        },
    }
}

/// First match wins: where routes `a` and `b`, `a` before `b`, of a
/// request's list both accept its path, the route that serves it is `a` or
/// one before it, and never `b`.
pub proof fn lemma_first_registered_wins<H>(
    get: Seq<Route<H>>,
    post: Seq<Route<H>>,
    c: Map<Seq<char>, Response>,
    method: Seq<char>,
    path: Seq<char>,
    a: usize,
    b: usize,
    o: Outcome,
)
    requires
        a < b < routes_for(get, post, method).len(),
        accepts(routes_for(get, post, method)[a as int].0, path),
        accepts(routes_for(get, post, method)[b as int].0, path),
        !c.contains_key(path),
        step(get, post, c, method, path, o),
    ensures
        o is Handled,
        o->Handled_0 <= a,
        o->Handled_0 != b,
{
    let rs = routes_for(get, post, method);
    match o {
        Outcome::Handled(k, _) => {
            if k > a {
                assert(!accepts(rs[a as int].0, path));
            }
        },
        _ => {
            assert(!accepts(rs[a as int].0, path));
        },
    }
}

/// Once a path has been served with a response, the next request for that
/// path, with any method, is served the same response from the cache, no
/// handler runs, and the cache stays as it was.
pub proof fn lemma_repeat_served_from_cache<H>(
    get: Seq<Route<H>>,
    post: Seq<Route<H>>,
    c: Map<Seq<char>, Response>,
    method: Seq<char>,
    path: Seq<char>,
    o: Outcome,
    second_method: Seq<char>,
    second: Outcome,
)
    requires
        step(get, post, c, method, path, o),
        !(o is NotFound),
        step(get, post, next_cache(c, path, o), second_method, path, second),
    ensures
        second == Outcome::Cached(response_of(o)->Some_0),
        next_cache(next_cache(c, path, o), path, second) == next_cache(c, path, o),
{
}

} // verus!
