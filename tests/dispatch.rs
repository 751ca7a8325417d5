use std::cell::Cell;
use std::rc::Rc;

use rwebserver::{Outcome, Path, Pattern, Request, Response, ResponseCache, Server};

type Fn1 = Box<dyn Fn(Option<&Request>) -> Response>;

fn h(f: impl Fn(Option<&Request>) -> Response + 'static) -> Fn1 {
    Box::new(f)
}

fn fixed(body: &'static str) -> Fn1 {
    h(move |_| Response::new(String::from(body), 200))
}

fn lit(p: &str) -> Path {
    Path::Str(String::from(p))
}

fn rex(p: &str) -> Path {
    Path::Rex(Pattern::new(p).unwrap())
}

fn serve(s: &mut Server<Fn1>, raw: &str) -> Option<String> {
    s.handle_client(raw.as_bytes())
}

fn sample_server() -> Server<Fn1> {
    let mut s = Server::new();
    s.get(lit("/t1"), fixed("Hey there, alligator"));
    s.get(
        rex("/dir/?(?P<file>.*)?/?"),
        h(|req| {
            let req = req.unwrap();
            Response::new(req.get_param("file").unwrap_or_default(), 200)
        }),
    );
    s.post(
        lit("/t1"),
        h(|req| {
            let req = req.unwrap();
            Response::new(req.body.clone().unwrap_or_default(), 200)
        }),
    );
    s
}

#[test]
fn get_literal_route() {
    let mut s = sample_server();
    assert_eq!(
        serve(&mut s, "GET /t1 HTTP/1.1\r\n\r\n").as_deref(),
        Some("HTTP/1.1 200 OK\r\n\r\nHey there, alligator")
    );
}

#[test]
fn post_literal_route_echoes_body() {
    let mut s = sample_server();
    assert_eq!(
        serve(&mut s, "POST /t1 HTTP/1.1\r\n\r\nhello").as_deref(),
        Some("HTTP/1.1 200 OK\r\n\r\nhello")
    );
}

#[test]
fn pattern_route_sees_capture() {
    let mut s = sample_server();
    assert_eq!(
        serve(&mut s, "GET /dir/README.md HTTP/1.1\r\n\r\n").as_deref(),
        Some("HTTP/1.1 200 OK\r\n\r\nREADME.md")
    );
}

#[test]
fn unmatched_path_is_not_found() {
    let mut s = sample_server();
    assert_eq!(
        serve(&mut s, "GET /nothing HTTP/1.1\r\n\r\n").as_deref(),
        Some("HTTP/1.1 404 Not Found\r\n\r\nNot Found")
    );
}

#[test]
fn method_lists_are_separate() {
    let mut s: Server<Fn1> = Server::new();
    s.post(lit("/only-post"), fixed("posted"));
    s.get(lit("/only-get"), fixed("got"));
    assert_eq!(
        serve(&mut s, "GET /only-post").as_deref(),
        Some("HTTP/1.1 404 Not Found\r\n\r\nNot Found")
    );
    assert_eq!(
        serve(&mut s, "POST /only-get").as_deref(),
        Some("HTTP/1.1 404 Not Found\r\n\r\nNot Found")
    );
    assert_eq!(serve(&mut s, "POST /only-post").as_deref(), Some("HTTP/1.1 200 OK\r\n\r\nposted"));
}

#[test]
fn other_methods_use_get_list() {
    let mut s = sample_server();
    assert_eq!(
        serve(&mut s, "HEAD /t1 HTTP/1.1").as_deref(),
        Some("HTTP/1.1 200 OK\r\n\r\nHey there, alligator")
    );
}

#[test]
fn method_is_case_sensitive() {
    let mut s: Server<Fn1> = Server::new();
    s.post(lit("/p"), fixed("posted"));
    assert_eq!(
        serve(&mut s, "post /p").as_deref(),
        Some("HTTP/1.1 404 Not Found\r\n\r\nNot Found")
    );
}

#[test]
fn first_registered_route_wins() {
    let mut s: Server<Fn1> = Server::new();
    s.get(rex("^/a"), fixed("first"));
    s.get(lit("/abc"), fixed("second"));
    assert_eq!(s.route_for(&String::from("GET"), &String::from("/abc")), Some(0));
    assert_eq!(serve(&mut s, "GET /abc").as_deref(), Some("HTTP/1.1 200 OK\r\n\r\nfirst"));
}

#[test]
fn route_for_picks_lowest_index() {
    let mut s: Server<Fn1> = Server::new();
    s.get(lit("/x"), fixed("x"));
    s.get(rex("y$"), fixed("y"));
    s.get(rex("y"), fixed("y2"));
    let get = String::from("GET");
    assert_eq!(s.route_for(&get, &String::from("/y")), Some(1));
    assert_eq!(s.route_for(&get, &String::from("/yz")), Some(2));
    assert_eq!(s.route_for(&get, &String::from("/z")), None);
    assert_eq!(s.route_for(&String::from("POST"), &String::from("/x")), None);
}

#[test]
fn repeated_get_is_served_from_cache() {
    let count = Rc::new(Cell::new(0u32));
    let c = count.clone();
    let mut s: Server<Fn1> = Server::new();
    s.get(
        lit("/count"),
        h(move |_| {
            c.set(c.get() + 1);
            Response::new(format!("call {}", c.get()), 200)
        }),
    );
    let first = serve(&mut s, "GET /count");
    let second = serve(&mut s, "GET /count");
    assert_eq!(first.as_deref(), Some("HTTP/1.1 200 OK\r\n\r\ncall 1"));
    assert_eq!(second, first);
    assert_eq!(count.get(), 1);
}

#[test]
fn cache_ignores_method() {
    let mut s = sample_server();
    let got = serve(&mut s, "GET /t1 HTTP/1.1\r\n\r\n");
    let posted = serve(&mut s, "POST /t1 HTTP/1.1\r\n\r\nhello");
    assert_eq!(got.as_deref(), Some("HTTP/1.1 200 OK\r\n\r\nHey there, alligator"));
    assert_eq!(posted.as_deref(), Some("HTTP/1.1 200 OK\r\n\r\nHey there, alligator"));
}

#[test]
fn not_found_is_not_cached() {
    let mut s: Server<Fn1> = Server::new();
    assert_eq!(
        serve(&mut s, "GET /late").as_deref(),
        Some("HTTP/1.1 404 Not Found\r\n\r\nNot Found")
    );
    s.get(lit("/late"), fixed("now here"));
    assert_eq!(serve(&mut s, "GET /late").as_deref(), Some("HTTP/1.1 200 OK\r\n\r\nnow here"));
}

#[test]
fn malformed_request_gets_no_response() {
    let mut s = sample_server();
    assert_eq!(serve(&mut s, "GET"), None);
    assert_eq!(serve(&mut s, ""), None);
    assert_eq!(
        serve(&mut s, "GET /t1").as_deref(),
        Some("HTTP/1.1 200 OK\r\n\r\nHey there, alligator")
    );
}

#[test]
fn dispatch_outcomes() {
    let mut s = sample_server();
    let q = Request::new("GET /t1").unwrap();
    match s.dispatch(q) {
        Outcome::Handled(i, r) => {
            assert_eq!(i, 0);
            assert_eq!(r.body, "Hey there, alligator");
        }
        _ => panic!("expected a handled request"),
    }
    let q = Request::new("GET /t1").unwrap();
    match s.dispatch(q) {
        Outcome::Cached(r) => assert_eq!(r.body, "Hey there, alligator"),
        _ => panic!("expected a cached response"),
    }
    let q = Request::new("POST /missing").unwrap();
    assert!(matches!(s.dispatch(q), Outcome::NotFound));
}

#[test]
fn handler_sees_matched_request() {
    let mut s: Server<Fn1> = Server::new();
    s.get(
        rex("/user/(?P<id>[0-9]+)"),
        h(|req| {
            let req = req.unwrap();
            assert!(req.matched_path.is_some());
            Response::new(format!("{} {}", req.method, req.get_param("id").unwrap()), 200)
        }),
    );
    assert_eq!(serve(&mut s, "GET /user/42").as_deref(), Some("HTTP/1.1 200 OK\r\n\r\nGET 42"));
}

#[test]
fn invalid_bytes_are_decoded_lossily() {
    let mut s = sample_server();
    let out = s.handle_client(b"POST /t1\r\n\r\nok\xff").unwrap();
    assert_eq!(out, "HTTP/1.1 200 OK\r\n\r\nok\u{fffd}");
}

#[test]
fn cache_lookup_and_insert() {
    let mut c = ResponseCache::new();
    let k = String::from("/k");
    assert!(c.lookup(&k).is_none());
    c.insert(&k, Response::new(String::from("one"), 200));
    c.insert(&k, Response::new(String::from("two"), 201));
    let r = c.lookup(&k).unwrap();
    assert_eq!((r.body.as_str(), r.status), ("two", 201));
    assert!(c.lookup(&String::from("/other")).is_none());
}
