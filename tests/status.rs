use rxpress::HttpStatus;

#[test]
fn test_http_status_codes() {
    assert_eq!(HttpStatus::OK.code(), 200);
    assert_eq!(HttpStatus::NotFound.code(), 404);
    assert_eq!(HttpStatus::InternalServerError.code(), 500);
}

#[test]
fn test_http_status_reason_lookup() {
    assert_eq!(HttpStatus::reason(200), "OK");
    assert_eq!(HttpStatus::reason(404), "Not Found");
    assert_eq!(HttpStatus::reason(418), "I'm a Teapot");
    assert_ne!(HttpStatus::reason(418), "I'm a teapot");
}

#[test]
fn unknown_code_has_empty_reason() {
    assert_eq!(HttpStatus::reason(999), "");
    assert_eq!(HttpStatus::reason(0), "");
    assert_eq!(HttpStatus::reason(306), "");
}

#[test]
fn every_named_status_has_a_reason() {
    let all = [
        HttpStatus::Continue,
        HttpStatus::EarlyHints,
        HttpStatus::ImUsed,
        HttpStatus::PermanentRedirect,
        HttpStatus::ImATeapot,
        HttpStatus::UnavailableForLegalReasons,
        HttpStatus::NetworkAuthenticationRequired,
    ];
    let codes = [100, 103, 226, 308, 418, 451, 511];
    for (s, c) in all.iter().zip(codes.iter()) {
        assert_eq!(s.code(), *c);
        assert!(!HttpStatus::reason(s.code()).is_empty());
    }
    assert_eq!(HttpStatus::reason(511), "Network Authentication Required");
}
