use spores::request::{has_request_line, parse_request, Headers, Method};

fn lines(text: &[&str]) -> Vec<String> {
    text.iter().map(|s| s.to_string()).collect()
}

#[test]
fn test_get_parsed_request() {
    let request = vec!["GET / HTTP/1.1".to_string()];
    let parsed = parse_request(&request);
    assert_eq!(parsed.route, "/");

    let request = vec!["GET /foo HTTP/1.1".to_string()];
    let parsed = parse_request(&request);
    assert_eq!(parsed.route, "/foo");

    let request = vec!["GET /foo/bar HTTP/1.1".to_string()];
    let parsed = parse_request(&request);
    assert_eq!(parsed.route, "/foo/bar");

    let request = vec!["GET /foo/bar?baz=qux HTTP/1.1".to_string()];
    let parsed = parse_request(&request);
    assert_eq!(parsed.route, "/foo/bar");

    let request = vec![
        "GET /foo/bar?baz=qux HTTP/1.1".to_string(),
        "Host: localhost:7878".to_string(),
    ];
    let parsed = parse_request(&request);
    assert_eq!(parsed.headers.get("Host").unwrap(), "localhost:7878");
}

#[test]
fn request_line_is_taken_apart() {
    let parsed = parse_request(&lines(&["  PUT \t /a/b?x=1?y=2   HTTP/1.0  trailing"]));
    assert_eq!(parsed.method, Method::PUT);
    assert_eq!(parsed.route, "/a/b");
    assert_eq!(parsed.query, "x=1");
    assert_eq!(parsed.version, "HTTP/1.0");
    assert_eq!(parsed.body, "");
    assert!(!parsed.headers.contains_key("PUT"));
}

#[test]
fn methods_are_told_apart() {
    for (word, method) in [
        ("GET", Method::GET),
        ("POST", Method::POST),
        ("PUT", Method::PUT),
        ("DELETE", Method::DELETE),
        ("PATCH", Method::GET),
        ("get", Method::GET),
        ("POSTS", Method::GET),
    ] {
        let parsed = parse_request(&lines(&[&format!("{word} / HTTP/1.1")]));
        assert_eq!(parsed.method, method, "{word}");
    }
}

#[test]
fn query_is_empty_without_question_mark() {
    let parsed = parse_request(&lines(&["GET /plain HTTP/1.1"]));
    assert_eq!(parsed.query, "");
    let parsed = parse_request(&lines(&["GET /plain? HTTP/1.1"]));
    assert_eq!(parsed.route, "/plain");
    assert_eq!(parsed.query, "");
    let parsed = parse_request(&lines(&["GET ?q HTTP/1.1"]));
    assert_eq!(parsed.route, "");
    assert_eq!(parsed.query, "q");
}

#[test]
fn headers_are_trimmed_and_later_lines_win() {
    let parsed = parse_request(&lines(&[
        "GET / HTTP/1.1",
        "  Accept \t:  text/html ; q=0.9  ",
        "Host: first",
        "No colon here",
        "Host:second:8080",
        "Empty:",
        "{\"not\": \"a header\"}",
    ]));
    assert_eq!(parsed.headers.get("Accept").unwrap(), "text/html ; q=0.9");
    assert_eq!(parsed.headers.get("Host").unwrap(), "second:8080");
    assert_eq!(parsed.headers.get("Empty").unwrap(), "");
    assert!(parsed.headers.get("No colon here").is_none());
    assert!(parsed.headers.get("{\"not\"").is_none());
    assert!(parsed.headers.get("host").is_none());
}

#[test]
fn the_request_line_is_read_as_a_header_if_it_holds_a_colon() {
    let parsed = parse_request(&lines(&["GET http://example.org/x HTTP/1.1"]));
    assert_eq!(parsed.route, "http://example.org/x");
    assert_eq!(parsed.headers.get("GET http").unwrap(), "//example.org/x HTTP/1.1");
}

#[test]
fn body_is_the_last_line_of_a_post_that_starts_with_a_brace() {
    let parsed = parse_request(&lines(&["POST /submit HTTP/1.1", "Host: h", "{\"a\": 1}"]));
    assert_eq!(parsed.method, Method::POST);
    assert_eq!(parsed.body, "{\"a\": 1}");
    assert!(parsed.headers.get("{\"a\"").is_none());

    let parsed = parse_request(&lines(&["POST /submit HTTP/1.1", "Host: h"]));
    assert_eq!(parsed.body, "");

    let parsed = parse_request(&lines(&["GET /submit HTTP/1.1", "{\"a\": 1}"]));
    assert_eq!(parsed.body, "");
}

#[test]
fn unicode_white_space_separates_words() {
    let parsed = parse_request(&lines(&["GET\u{3000}/caf\u{e9}?o\u{2028}HTTP/2"]));
    assert_eq!(parsed.route, "/caf\u{e9}");
    assert_eq!(parsed.query, "o");
    assert_eq!(parsed.version, "HTTP/2");
    let parsed = parse_request(&lines(&["GET / HTTP/1.1", "\u{a0}Key\u{85}:\u{2003}v\u{205f}"]));
    assert_eq!(parsed.headers.get("Key").unwrap(), "v");
}

#[test]
fn request_line_needs_three_words() {
    assert!(has_request_line(&lines(&["GET / HTTP/1.1"])));
    assert!(has_request_line(&lines(&["a b c d"])));
    assert!(!has_request_line(&lines(&["GET /"])));
    assert!(!has_request_line(&lines(&["GET"])));
    assert!(!has_request_line(&lines(&["   "])));
    assert!(!has_request_line(&lines(&[""])));
    assert!(!has_request_line(&lines(&[])));
    assert!(!has_request_line(&lines(&["", "GET / HTTP/1.1"])));
}

#[test]
fn headers_keep_the_last_value() {
    let mut headers = Headers::new();
    assert!(headers.get("a").is_none());
    assert!(!headers.contains_key("a"));
    headers.insert("a".to_string(), "1".to_string());
    headers.insert("b".to_string(), "2".to_string());
    headers.insert("a".to_string(), "3".to_string());
    assert_eq!(headers.get("a").unwrap(), "3");
    assert_eq!(headers.get("b").unwrap(), "2");
    assert!(headers.contains_key("b"));
    assert!(headers.get("c").is_none());
    assert!(headers.get("").is_none());
}
