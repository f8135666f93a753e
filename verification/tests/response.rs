use spores::response::{
    expects_body, get_carousel, get_index, get_sleep, not_found, respond, response, route,
    Handler, BODY_404, BODY_INDEX, BODY_SLEEP, CAROUSEL, SLEEP_SECS,
};

fn lines(text: &[&str]) -> Vec<String> {
    text.iter().map(|s| s.to_string()).collect()
}

#[test]
fn response_has_status_length_and_body() {
    assert_eq!(
        response("hello", "200 Ok"),
        "HTTP/1.1 200 Ok \r\nContent-Length: 5\r\n\r\nhello"
    );
    assert_eq!(response("", "204 No Content"), "HTTP/1.1 204 No Content \r\nContent-Length: 0\r\n\r\n");
}

#[test]
fn content_length_counts_bytes() {
    assert_eq!(
        response("caf\u{e9} \u{1f600}", "200 Ok"),
        "HTTP/1.1 200 Ok \r\nContent-Length: 10\r\n\r\ncaf\u{e9} \u{1f600}"
    );
    let long = "x".repeat(12345);
    assert!(response(&long, "200 Ok").starts_with("HTTP/1.1 200 Ok \r\nContent-Length: 12345\r\n\r\nxxx"));
}

#[test]
fn handlers_answer_with_their_page() {
    assert_eq!(not_found("/nowhere"), response(BODY_404, "404 Not Found"));
    assert_eq!(get_index("/"), response(BODY_INDEX, "200 Ok"));
    assert_eq!(get_carousel("/carousel"), response(CAROUSEL, "200  Ok"));
    assert_eq!(get_sleep("/sleep"), response(BODY_SLEEP, "200 Ok"));
    assert_eq!(get_sleep("/sleep"), "HTTP/1.1 200 Ok \r\nContent-Length: 31\r\n\r\n<html><h1>Sleeeeepy</h1></html>");
    assert_eq!(Handler::Index.handle("/"), get_index("/"));
    assert_eq!(Handler::Sleep.handle("/sleep"), get_sleep("/sleep"));
    assert_eq!(Handler::Carousel.handle("/carousel"), get_carousel("/carousel"));
}

#[test]
fn paths_lead_to_their_handlers() {
    assert_eq!(route("/"), Some(Handler::Index));
    assert_eq!(route("/sleep"), Some(Handler::Sleep));
    assert_eq!(route("/carousel"), Some(Handler::Carousel));
    assert_eq!(route(""), None);
    assert_eq!(route("/sleep/"), None);
    assert_eq!(route("/Carousel"), None);
    assert_eq!(route("//"), None);
}

#[test]
fn respond_answers_by_route() {
    let reply = respond(&lines(&["GET /?x=1 HTTP/1.1", "Host: h"]));
    assert_eq!(reply.delay_secs, 0);
    assert_eq!(reply.text, get_index("/"));

    let reply = respond(&lines(&["GET /sleep HTTP/1.1"]));
    assert_eq!(reply.delay_secs, SLEEP_SECS);
    assert_eq!(reply.delay_secs, 10);
    assert_eq!(reply.text, get_sleep("/sleep"));

    let reply = respond(&lines(&["POST /carousel HTTP/1.1", "{}"]));
    assert_eq!(reply.delay_secs, 0);
    assert_eq!(reply.text, get_carousel("/carousel"));

    let reply = respond(&lines(&["GET /missing HTTP/1.1"]));
    assert_eq!(reply.delay_secs, 0);
    assert_eq!(reply.text, not_found("/missing"));
    assert!(reply.text.starts_with("HTTP/1.1 404 Not Found \r\n"));
}

#[test]
fn a_body_is_expected_where_the_first_line_holds_post() {
    assert!(expects_body(&lines(&["POST / HTTP/1.1"])));
    assert!(expects_body(&lines(&["GET /POST HTTP/1.1", "x"])));
    assert!(expects_body(&lines(&["xPOSTx"])));
    assert!(!expects_body(&lines(&["GET / HTTP/1.1", "POST"])));
    assert!(!expects_body(&lines(&["post / HTTP/1.1"])));
    assert!(!expects_body(&lines(&["POS"])));
    assert!(!expects_body(&lines(&["PO ST"])));
    assert!(!expects_body(&lines(&[""])));
}
