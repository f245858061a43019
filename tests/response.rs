use rxpress::{HttpStatus, Response};

fn head_of(res: &Response) -> String {
    res.output().unwrap().0.to_string()
}

fn body_of(res: &Response) -> String {
    res.output().unwrap().1.to_string()
}

#[test]
fn test_set_header() {
    let mut res = Response::new();
    res.set_header("X-Test", "123");
    assert_eq!(res.headers().get("X-Test"), Some(&"123".to_string()));
}

#[test]
fn test_status_with_enum() {
    let mut res = Response::new();
    res.status(HttpStatus::Forbidden);
    assert_eq!(res.status_code(), 403);
    assert_eq!(res.status_reason(), "Forbidden");
}

#[test]
fn test_status_with_custom_code_and_reason() {
    let mut res = Response::new();
    res.status((499, "Custom Reason"));
    assert_eq!(res.status_code(), 499);
    assert_eq!(res.status_reason(), "Custom Reason");
}

#[test]
fn test_send_and_json_set_content_type() {
    let mut res = Response::new();
    res.send("hello");
    assert_eq!(
        res.headers().get("Content-Type"),
        Some(&"text/plain".to_string())
    );

    let mut res2 = Response::new();
    res2.json(r#"{"msg":"ok"}"#);
    assert_eq!(
        res2.headers().get("Content-Type"),
        Some(&"application/json".to_string())
    );
}

#[test]
fn test_html_sets_content_type() {
    let mut res = Response::new();
    res.html("<h1>Test</h1>");
    assert!(res.is_sent());
    assert_eq!(
        res.headers().get("Content-Type"),
        Some(&"text/html; charset=utf-8".to_string())
    );
}

#[test]
fn test_html_file_success_and_failure() {
    let mut res = Response::new();
    res.html_file("test_html_file.html", Some("<h1>Hello</h1>"));
    assert!(res.is_sent());
    assert_eq!(
        res.headers().get("Content-Type"),
        Some(&"text/html; charset=utf-8".to_string())
    );
    assert_eq!(body_of(&res), "<h1>Hello</h1>");

    let mut res2 = Response::new();
    res2.html_file("missing_file.html", None);
    assert!(res2.is_sent());
    assert_eq!(res2.status_code(), 500);
}

#[test]
fn new_response_is_200_ok_and_unsent() {
    let res = Response::new();
    assert_eq!(res.status_code(), 200);
    assert_eq!(res.status_reason(), "OK");
    assert!(!res.is_sent());
    assert!(res.output().is_none());
    assert_eq!(
        res.headers().get("HTTP-Server-Powered-By"),
        Some(&"rxpress".to_string())
    );
}

#[test]
fn status_by_number_looks_up_reason() {
    let mut res = Response::new();
    res.status(201);
    assert_eq!(res.status_code(), 201);
    assert_eq!(res.status_reason(), "Created");
}

#[test]
fn unknown_status_code_keeps_code_with_empty_reason() {
    let mut res = Response::new();
    res.status(999);
    assert_eq!(res.status_code(), 999);
    assert_eq!(res.status_reason(), "");
    res.send("x");
    assert!(head_of(&res).starts_with("HTTP/1.1 999 \r\n"));
}

#[test]
fn status_calls_overwrite_each_other() {
    let mut res = Response::new();
    res.status(HttpStatus::Forbidden).status((599, "Network Timeout")).status(404);
    assert_eq!(res.status_code(), 404);
    assert_eq!(res.status_reason(), "Not Found");
}

#[test]
fn serialized_message_is_exact() {
    let mut res = Response::new();
    res.set_header("X-A", "1").set_header("X-A", "2");
    res.send("héllo");
    assert_eq!(
        head_of(&res),
        "HTTP/1.1 200 OK\r\nHTTP-Server-Powered-By: rxpress\r\nX-A: 2\r\nContent-Type: text/plain\r\nContent-Length: 6\r\n\r\n"
    );
    assert_eq!(body_of(&res), "héllo");
}

#[test]
fn second_send_is_ignored() {
    let mut res = Response::new();
    res.status(HttpStatus::Forbidden).send("Forbidden!");
    let first = (head_of(&res), body_of(&res));
    res.send("Ignored response");
    res.json(r#"{"ignored": true}"#);
    res.html("<p>ignored</p>");
    res.html_file("x.html", None);
    assert_eq!((head_of(&res), body_of(&res)), first);
    assert_eq!(res.status_code(), 403);
    assert_eq!(
        res.headers().get("Content-Type"),
        Some(&"text/plain".to_string())
    );
}

#[test]
fn changes_after_send_are_ignored() {
    let mut res = Response::new();
    res.send("done");
    res.status(500).set_header("X-Late", "1");
    assert_eq!(res.status_code(), 200);
    assert_eq!(res.headers().get("X-Late"), None);
}

#[test]
fn missing_file_gives_500_whatever_the_status_was() {
    let mut res = Response::new();
    res.status(HttpStatus::Created).set_header("X-Keep", "yes");
    res.html_file("pages/missing.html", None);
    assert!(res.is_sent());
    assert_eq!(res.status_code(), 500);
    assert_eq!(res.status_reason(), "Internal Server Error");
    assert_eq!(
        body_of(&res),
        "<h2>Internal Server Error</h2>\n<p>No file found on pages/missing.html</p>"
    );
    assert!(head_of(&res).starts_with("HTTP/1.1 500 Internal Server Error\r\n"));
    assert_eq!(res.headers().get("X-Keep"), Some(&"yes".to_string()));
}

#[test]
fn content_length_counts_bytes_of_empty_and_long_bodies() {
    let mut res = Response::new();
    res.send("");
    assert!(head_of(&res).ends_with("Content-Length: 0\r\n\r\n"));
    let long = "a".repeat(12345);
    let mut res2 = Response::new();
    res2.send(&long);
    assert!(head_of(&res2).ends_with("Content-Length: 12345\r\n\r\n"));
}
