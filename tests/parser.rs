use rxpress::{body_length, get_headers, parse_usize, StrMap};

fn lines(v: &[&str]) -> Vec<String> {
    v.iter().map(|s| s.to_string()).collect()
}

#[test]
fn headers_are_trimmed_and_lower_cased() {
    let h = get_headers(&lines(&["Content-Type:  text/html ", " X-Id :7", "bad line", "Empty:", "", "After: x"]));
    assert_eq!(h.get("content-type"), Some(&"text/html".to_string()));
    assert_eq!(h.get("x-id"), Some(&"7".to_string()));
    assert_eq!(h.get("empty"), Some(&"".to_string()));
    assert_eq!(h.get("after"), None);
    assert_eq!(h.len(), 3);
}

#[test]
fn header_value_is_cut_at_first_colon() {
    let h = get_headers(&lines(&["Host: localhost:8080"]));
    assert_eq!(h.get("host"), Some(&"localhost:8080".to_string()));
}

#[test]
fn repeated_header_keeps_last_value() {
    let h = get_headers(&lines(&["A: 1", "a: 2"]));
    assert_eq!(h.get("a"), Some(&"2".to_string()));
    assert_eq!(h.len(), 1);
}

#[test]
fn body_length_from_content_length() {
    let h = get_headers(&lines(&["Content-Length: 12"]));
    assert_eq!(body_length(&h), Some(12));
    let h = get_headers(&lines(&["Content-Length: twelve"]));
    assert_eq!(body_length(&h), None);
    assert_eq!(body_length(&StrMap::new()), None);
}

#[test]
fn parse_usize_follows_decimal_rules() {
    assert_eq!(parse_usize("0"), Some(0));
    assert_eq!(parse_usize("+17"), Some(17));
    assert_eq!(parse_usize("007"), Some(7));
    assert_eq!(parse_usize(""), None);
    assert_eq!(parse_usize("+"), None);
    assert_eq!(parse_usize("-1"), None);
    assert_eq!(parse_usize("1 "), None);
    assert_eq!(parse_usize(&usize::MAX.to_string()), Some(usize::MAX));
    assert_eq!(parse_usize("99999999999999999999999"), None);
}
