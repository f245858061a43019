use rxpress::{Handler, Request, Response, Route, Router, StrMap};

struct Dummy;

impl Handler for Dummy {
    fn handle(&self, _req: &Request, _res: &mut Response) {}
}

struct Reply(&'static str);

impl Handler for Reply {
    fn handle(&self, req: &Request, res: &mut Response) {
        let id = req.param_or("id", "-");
        res.send(&format!("{}:{}", self.0, id));
    }
}

fn req(line: &str) -> Request {
    Request::new(line, StrMap::new(), "".into())
}

#[test]
fn test_route_match_static() {
    let route = Route::new("GET", "/hello", Dummy);
    let req = Request::new("GET /hello HTTP/1.1", StrMap::new(), "".into());
    let mut req = req;
    assert!(route.matches(&mut req));
}

#[test]
fn test_route_match_with_param() {
    let route = Route::new("GET", "/users/:id", Dummy);
    let req = Request::new("GET /users/123 HTTP/1.1", StrMap::new(), "".into());
    let mut req = req;
    assert!(route.matches(&mut req));
    assert_eq!(req.param("id"), Some(&"123".to_string()));
}

#[test]
fn test_route_with_missing_param() {
    let route = Route::new("GET", "/users/:id", Dummy);
    let req = Request::new("GET /users/ HTTP/1.1", StrMap::new(), "".into());
    let mut req = req;
    assert!(route.matches(&mut req));
    assert_eq!(req.param("id"), None);
}

#[test]
fn param_route_rejects_other_shapes() {
    let route = Route::new("GET", "/users/:id", Dummy);
    for line in ["GET /users HTTP/1.1", "GET /users/1/2 HTTP/1.1", "GET /items/1 HTTP/1.1"] {
        let mut r = req(line);
        assert!(!route.matches(&mut r), "{}", line);
        assert_eq!(r.params.len(), 0);
    }
}

#[test]
fn param_route_binds_id() {
    let route = Route::new("GET", "/users/:id", Dummy);
    let mut r = req("GET /users/42 HTTP/1.1");
    assert!(route.matches(&mut r));
    assert_eq!(r.param("id"), Some(&"42".to_string()));
}

#[test]
fn method_compared_ignoring_case() {
    let route = Route::new("GET", "/a", Dummy);
    assert!(route.matches(&mut req("get /a HTTP/1.1")));
    assert!(!route.matches(&mut req("POST /a HTTP/1.1")));
}

#[test]
fn literal_segments_compare_exactly() {
    let route = Route::new("GET", "/Hello", Dummy);
    assert!(!route.matches(&mut req("GET /hello HTTP/1.1")));
    assert!(!route.matches(&mut req("GET /Hello/ HTTP/1.1")));
}

#[test]
fn failed_match_binds_nothing() {
    let route = Route::new("GET", "/:a/x", Dummy);
    let mut r = req("GET /foo/y HTTP/1.1");
    assert!(!route.matches(&mut r));
    assert_eq!(r.param("a"), None);
}

#[test]
fn leading_colons_are_dropped_from_the_name() {
    let route = Route::new("GET", "/::id/:n", Dummy);
    let mut r = req("GET /7/8 HTTP/1.1");
    assert!(route.matches(&mut r));
    assert_eq!(r.param("id"), Some(&"7".to_string()));
    assert_eq!(r.param("n"), Some(&"8".to_string()));
}

#[test]
fn first_registered_route_wins() {
    let mut router = Router::new();
    router.add_route("GET", "/users/:id", Reply("first"));
    router.add_route("GET", "/users/42", Reply("second"));
    let mut r = req("GET /users/42 HTTP/1.1");
    let mut res = Response::new();
    assert_eq!(router.find(&r), Some(0));
    router.handle(&mut r, &mut res);
    assert_eq!(res.output().unwrap().1, "first:42");
}

#[test]
fn later_route_runs_when_earlier_does_not_match() {
    let mut router = Router::new();
    router.add_route("POST", "/users/:id", Reply("post"));
    router.add_route("GET", "/users/:id", Reply("get"));
    let mut r = req("GET /users/9 HTTP/1.1");
    let mut res = Response::new();
    assert_eq!(router.find(&r), Some(1));
    router.handle(&mut r, &mut res);
    assert_eq!(res.output().unwrap().1, "get:9");
    assert_eq!(r.param("id"), Some(&"9".to_string()));
}

#[test]
fn no_route_gives_404() {
    let mut router = Router::new();
    router.add_route("GET", "/a", Reply("a"));
    let mut r = req("GET /b HTTP/1.1");
    let mut res = Response::new();
    assert_eq!(router.find(&r), None);
    router.handle(&mut r, &mut res);
    assert!(res.is_sent());
    assert_eq!(res.status_code(), 404);
    assert_eq!(res.output().unwrap().1, "404 Not Found");
    assert!(res.output().unwrap().0.starts_with("HTTP/1.1 404 Not Found\r\n"));
}

#[test]
fn empty_router_gives_404() {
    let router: Router<Dummy> = Router::new();
    let mut r = req("GET / HTTP/1.1");
    let mut res = Response::new();
    router.handle(&mut r, &mut res);
    assert_eq!(res.status_code(), 404);
}
