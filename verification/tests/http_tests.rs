//! Tests of the method validator, the request parser, and the
//! response builder.

use minihttp::HttpMethod;
use minihttp::HttpRequest;
use minihttp::HttpResponse;
use minihttp::ParseError;

#[test]
fn whitelisted_methods_are_accepted() {
    for verb in [
        "GET", "HEAD", "POST", "PUT", "DELETE", "CONNECT", "OPTIONS", "TRACE", "PATCH",
    ] {
        let m = HttpMethod::new(verb).unwrap();
        assert_eq!(m.get_verb(), verb);
    }
}

#[test]
fn unknown_methods_get_the_method_error() {
    for verb in ["get", "GETT", "", "G ET", "FETCH"] {
        assert_eq!(HttpMethod::new(verb).unwrap_err(), ParseError::InvalidMethod);
    }
}

#[test]
fn start_line_round_trips() {
    let req = HttpRequest::from_first_line("GET /hello HTTP/1.1").unwrap();
    assert_eq!(req.get_method().get_verb(), "GET");
    assert_eq!(req.get_target(), "/hello");
    assert_eq!(req.get_version(), "HTTP/1.1");
    assert_eq!(req.get_headers().len(), 0);
}

#[test]
fn start_line_with_wrong_token_count_is_malformed() {
    assert_eq!(
        HttpRequest::from_first_line("GET /hello").unwrap_err(),
        ParseError::MalformedRequest
    );
    // A double space yields an empty token, so four tokens in all.
    assert_eq!(
        HttpRequest::from_first_line("GET  /hello HTTP/1.1").unwrap_err(),
        ParseError::MalformedRequest
    );
    assert_eq!(
        HttpRequest::from_first_line("").unwrap_err(),
        ParseError::MalformedRequest
    );
}

#[test]
fn start_line_with_empty_target_is_malformed() {
    // Three tokens with an empty middle token: the target must be
    // non-empty, so this is a malformed request.
    assert_eq!(
        HttpRequest::from_first_line("GET  HTTP/1.1").unwrap_err(),
        ParseError::MalformedRequest
    );
    // The method is validated first, so an unknown verb still gets
    // the method-specific error even with an empty target.
    assert_eq!(
        HttpRequest::from_first_line("FETCH  HTTP/1.1").unwrap_err(),
        ParseError::InvalidMethod
    );
}

#[test]
fn start_line_with_unknown_method_gets_the_method_error() {
    // The method-specific error, not the generic malformed error.
    assert_eq!(
        HttpRequest::from_first_line("FETCH /hello HTTP/1.1").unwrap_err(),
        ParseError::InvalidMethod
    );
}

#[test]
fn empty_stream_is_rejected() {
    let lines: Vec<String> = Vec::new();
    assert_eq!(
        HttpRequest::from_lines(&lines).unwrap_err(),
        ParseError::MalformedRequest
    );
}

#[test]
fn request_line_without_headers_parses() {
    let lines = vec!["GET /hello HTTP/1.1".to_string()];
    let req = HttpRequest::from_lines(&lines).unwrap();
    assert_eq!(req.get_target(), "/hello");
    assert_eq!(req.get_headers().len(), 0);
}

#[test]
fn header_values_keep_what_follows_the_colon() {
    // The value is whatever follows the first colon, verbatim: this
    // parser does not trim.
    let lines = vec![
        "GET / HTTP/1.1".to_string(),
        "Host:example.com".to_string(),
        "Accept: text/html".to_string(),
    ];
    let req = HttpRequest::from_lines(&lines).unwrap();
    assert_eq!(req.get_headers().get("Host").unwrap(), "example.com");
    assert_eq!(req.get_headers().get("Accept").unwrap(), " text/html");
    assert_eq!(req.get_headers().len(), 2);
}

#[test]
fn header_line_without_colon_is_malformed() {
    let lines = vec!["GET / HTTP/1.1".to_string(), "no colon here".to_string()];
    assert_eq!(
        HttpRequest::from_lines(&lines).unwrap_err(),
        ParseError::MalformedRequest
    );
}

#[test]
fn repeated_header_key_keeps_the_last_value() {
    let lines = vec![
        "GET / HTTP/1.1".to_string(),
        "Host:first".to_string(),
        "Host:second".to_string(),
    ];
    let req = HttpRequest::from_lines(&lines).unwrap();
    assert_eq!(req.get_headers().len(), 1);
    assert_eq!(req.get_headers().get("Host").unwrap(), "second");
}

#[test]
fn response_serializes_exactly() {
    let mut resp = HttpResponse::new();
    resp.set_version("HTTP/1.1");
    assert_eq!(resp.to_string(), "HTTP/1.1 200 OK\n");

    resp.add_header("Host", "example.com");
    assert_eq!(resp.to_string(), "HTTP/1.1 200 OK\nHost: example.com\n");

    resp.add_body("hello");
    resp.add_body(" world");
    // One blank line stands between the header lines and the body.
    assert_eq!(
        resp.to_string(),
        "HTTP/1.1 200 OK\nHost: example.com\n\nhello world"
    );
}

#[test]
fn response_serialization_is_repeatable() {
    let mut resp = HttpResponse::new();
    resp.set_version("HTTP/1.1");
    resp.set_code(404);
    resp.set_message("Not Found");
    resp.add_header("A", "1");
    resp.add_header("B", "2");
    resp.add_body("gone");
    let once = resp.to_string();
    let twice = resp.to_string();
    assert_eq!(once, twice);
}

#[test]
fn header_insertion_order_does_not_change_content() {
    let mut one = HttpResponse::new();
    one.set_version("HTTP/1.1");
    one.add_header("A", "1");
    one.add_header("B", "2");

    let mut two = HttpResponse::new();
    two.set_version("HTTP/1.1");
    two.add_header("B", "2");
    two.add_header("A", "1");

    // Compare header content, not raw serialized text: the key/value
    // pairs agree even where the serialized order differs.
    assert_eq!(one.headers.len(), two.headers.len());
    for key in ["A", "B"] {
        assert_eq!(one.headers.get(key).unwrap(), two.headers.get(key).unwrap());
    }
}

#[test]
fn overwriting_a_response_header_keeps_one_entry() {
    let mut resp = HttpResponse::new();
    resp.add_header("K", "old");
    resp.add_header("K", "new");
    assert_eq!(resp.headers.len(), 1);
    assert_eq!(resp.headers.get("K").unwrap(), "new");
}

#[test]
fn status_codes_render_in_decimal() {
    assert_eq!(minihttp::decimal::usize_to_string(0), "0");
    assert_eq!(minihttp::decimal::usize_to_string(7), "7");
    assert_eq!(minihttp::decimal::usize_to_string(404), "404");
    assert_eq!(minihttp::decimal::usize_to_string(12305), "12305");
}
