use rxpress::{Request, StrMap};

fn make_req_line(line: &str) -> Request {
    Request::new(line, StrMap::new(), "".into())
}

#[test]
fn test_header_case_insensitive() {
    let mut headers = StrMap::new();
    headers.insert("Content-Type".into(), "application/json".into());
    let req = Request::new("GET / HTTP/1.1", headers, "".into());

    assert_eq!(
        req.header("content-type"),
        Some(&"application/json".to_string())
    );
}

#[test]
fn test_header_or() {
    let mut headers = StrMap::new();
    headers.insert("Content-Type".into(), "application/json".into());

    let req = Request::new("GET / HTTP/1.1", headers, "".into());

    assert_eq!(
        req.header_or("Content-Type", "text/plain"),
        "application/json"
    );
    assert_eq!(req.header_or("Non-Existent", "default"), "default");
}

#[test]
fn test_header_expect() {
    let mut headers = StrMap::new();
    headers.insert("Authorization".into(), "Bearer abc123".into());

    let req = Request::new("GET / HTTP/1.1", headers, "".into());

    assert_eq!(req.header_expect("Authorization").unwrap(), "Bearer abc123");

    let err = req.header_expect("X-Token").unwrap_err();
    assert!(err.contains("Required header `X-Token` is missing"));
}

#[test]
fn test_param_insertion_and_lookup() {
    let mut req = make_req_line("GET /users/1 HTTP/1.1");
    req.params.insert("id".into(), "1".into());
    assert_eq!(req.param("id"), Some(&"1".to_string()));
}

#[test]
fn test_param_or() {
    let mut req = Request::new("GET /users/ HTTP/1.1", StrMap::new(), "".into());
    req.params.insert("id".into(), "42".into());

    assert_eq!(req.param_or("id", "0"), "42");
    assert_eq!(req.param_or("username", "guest"), "guest");
}

#[test]
fn test_param_expect() {
    let mut req = Request::new("GET /users/42 HTTP/1.1", StrMap::new(), "".into());
    req.params.insert("id".into(), "42".into());

    assert_eq!(req.param_expect("id").unwrap(), "42");

    let err = req.param_expect("username").unwrap_err();
    assert!(err.contains("Required route parameter `username` is missing"));
}

#[test]
fn test_query_lookup() {
    let req = make_req_line("GET /search?q=rust HTTP/1.1");
    assert_eq!(req.query("q"), Some(&"rust".to_string()));
}

#[test]
fn test_query_or() {
    let req = Request::new("GET /search?q=rust HTTP/1.1", StrMap::new(), "".into());

    assert_eq!(req.query_or("q", "none"), "rust");
    assert_eq!(req.query_or("page", "1"), "1");
}

#[test]
fn test_query_expect() {
    let req = Request::new("GET /search?q=rust HTTP/1.1", StrMap::new(), "".into());

    assert_eq!(req.query_expect("q").unwrap(), "rust");

    let err = req.query_expect("page").unwrap_err();
    assert!(err.contains("Required query parameter `page` is missing"));
}

#[test]
fn test_parse_query_function() {
    let parsed = Request::parse_query("a=1&b=2&empty");
    assert_eq!(parsed.get("a"), Some(&"1".to_string()));
    assert_eq!(parsed.get("b"), Some(&"2".to_string()));
    assert_eq!(parsed.get("empty"), Some(&"".to_string()));
}

#[test]
fn test_parse_request_line_and_query() {
    let mut headers = StrMap::new();
    headers.insert("Host".into(), "localhost".into());

    let req = Request::new(
        "GET /hello?developer=alfaarghya HTTP/1.1",
        headers,
        "".into(),
    );

    assert_eq!(req.method, "GET");
    assert_eq!(req.path, "/hello");
    assert_eq!(req.version, "HTTP/1.1");
    assert_eq!(req.query("developer"), Some(&"alfaarghya".to_string()));
}

#[test]
fn test_headers_case_insensitive() {
    let mut headers = StrMap::new();
    headers.insert("Content-Type".into(), "application/json".into());

    let req = Request::new("GET / HTTP/1.1", headers, "".into());
    assert_eq!(
        req.header("content-type"),
        Some(&"application/json".to_string())
    );
}

#[test]
fn request_line_with_query_pairs_and_bare_keys() {
    let req = make_req_line("POST /items/list?x=1&flag&y=a=b VER/2");
    assert_eq!(req.method, "POST");
    assert_eq!(req.path, "/items/list");
    assert_eq!(req.version, "VER/2");
    assert_eq!(req.query("x"), Some(&"1".to_string()));
    assert_eq!(req.query("flag"), Some(&"".to_string()));
    assert_eq!(req.query("y"), Some(&"a=b".to_string()));
    assert_eq!(req.query("z"), None);
}

#[test]
fn later_query_key_overwrites_earlier() {
    let parsed = Request::parse_query("k=1&k=2&k");
    assert_eq!(parsed.get("k"), Some(&"".to_string()));
    assert_eq!(parsed.len(), 1);
    let parsed = Request::parse_query("");
    assert_eq!(parsed.get(""), Some(&"".to_string()));
}

#[test]
fn malformed_request_line_falls_back_to_defaults() {
    let req = make_req_line("BROKEN");
    assert_eq!(req.method, "GET");
    assert_eq!(req.path, "/");
    assert_eq!(req.version, "HTTP/1.1");
    let req = make_req_line("GET /a HTTP/1.1 extra");
    assert_eq!(req.path, "/");
    let req = make_req_line("");
    assert_eq!(req.method, "GET");
}

#[test]
fn request_line_split_on_any_whitespace() {
    let req = make_req_line("  PUT\t/x?a=1   HTTP/1.0 ");
    assert_eq!(req.method, "PUT");
    assert_eq!(req.path, "/x");
    assert_eq!(req.version, "HTTP/1.0");
    assert_eq!(req.query_or("a", "none"), "1");
}

#[test]
fn path_without_query_has_empty_query() {
    let req = make_req_line("GET /plain HTTP/1.1");
    assert_eq!(req.path, "/plain");
    assert_eq!(req.query.len(), 0);
    assert_eq!(req.params.len(), 0);
}

#[test]
fn header_lookup_ignores_case_of_stored_name() {
    let mut headers = StrMap::new();
    headers.insert("x-token".into(), "abc".into());
    let req = Request::new("GET / HTTP/1.1", headers, "body".into());
    assert_eq!(req.header("X-TOKEN"), Some(&"abc".to_string()));
    assert_eq!(req.header_or("X-Token", "none"), "abc");
    assert_eq!(req.header_expect("x-TOKEN").unwrap(), "abc");
    assert_eq!(req.header("x-tokens"), None);
    assert_eq!(req.body, "body");
}

#[test]
fn missing_value_messages_name_the_key() {
    let req = make_req_line("GET / HTTP/1.1");
    assert_eq!(
        req.header_expect("X-Token").unwrap_err(),
        "[rxpress error]: Required header `X-Token` is missing. Please include it in your request, e.g., `X-Token: value`."
    );
    assert_eq!(
        req.param_expect("id").unwrap_err(),
        "[rxpress error]: Required route parameter `id` is missing. Ensure your route includes it, e.g., `/route/:id`."
    );
    assert_eq!(
        req.query_expect("page").unwrap_err(),
        "[rxpress error]: Required query parameter `page` is missing. Please include it in your request, e.g., `/route?page=value`."
    );
}
