use dombuilder::request::{content_length, Request};
use dombuilder::response::Response;

#[test]
fn new_response_is_ok_and_empty() {
    let r = Response::new();
    assert_eq!(r.status, 200);
    assert!(r.headers.is_empty());
    assert_eq!(r.body, "");
}

#[test]
fn status_messages() {
    let mut r = Response::new();
    let cases = [
        (100, "Continue"),
        (200, "OK"),
        (226, "IM Used"),
        (308, "Permanent Redirect"),
        (400, "Bad Request"),
        (418, "I'm a teapot"),
        (451, "Unavailable For Legal Reasons"),
        (511, "Network Authentication Required"),
        (299, ""),
        (0, ""),
        (65535, ""),
    ];
    for (code, msg) in cases {
        r.status = code;
        assert_eq!(r.get_status_msg(), msg);
    }
}

#[test]
fn render_without_headers() {
    let mut r = Response::new();
    r.body = "hi".to_string();
    assert_eq!(r.render(), "HTTP/1.1 200 OK\nContent-Length: 2\n\nhi");
}

#[test]
fn render_with_headers_and_unknown_status() {
    let r = Response {
        status: 299,
        headers: vec!["A: 1".to_string(), "B: 2".to_string()],
        body: String::new(),
    };
    assert_eq!(r.render(), "HTTP/1.1 299 \nA: 1\nB: 2\nContent-Length: 0\n\n");
}

#[test]
fn content_length_counts_utf8_bytes() {
    let mut r = Response::new();
    r.status = 404;
    r.body = "é€😀".to_string();
    assert_eq!(r.render(), "HTTP/1.1 404 Not Found\nContent-Length: 9\n\né€😀");
}

#[test]
fn rendered_content_length_reads_back() {
    let mut r = Response::new();
    r.body = "x".repeat(1234);
    let text = r.render();
    let head: Vec<String> = text.split("\n\n").next().unwrap().split('\n').map(|s| s.to_string()).collect();
    assert_eq!(content_length(&head), Ok(1234));
}

#[test]
fn listed_status_messages_are_distinct() {
    let mut seen: Vec<(u16, String)> = Vec::new();
    let mut r = Response::new();
    for code in 0..=u16::MAX {
        r.status = code;
        let msg = r.get_status_msg();
        if msg.is_empty() {
            continue;
        }
        assert!(seen.iter().all(|(_, m)| *m != msg), "phrase of {} repeated", code);
        seen.push((code, msg));
    }
    assert_eq!(seen.len(), 61);
}

#[test]
fn rendered_response_parses_as_request() {
    let r = Response {
        status: 404,
        headers: vec!["X-A: 1".to_string(), "Content-Length: 99".to_string(), "X-B: 2: 3".to_string()],
        body: "é body".to_string(),
    };
    let raw = r.render();
    assert!(Request::can_parse(&raw));
    let req = Request::from(raw).unwrap();
    assert_eq!(req.method, "HTTP/1.1");
    assert_eq!(req.url, "404");
    assert_eq!(req.status, 200);
    assert_eq!(req.body, "é body");
    assert_eq!(req.headers.len(), 3);
    assert_eq!(req.headers.get("X-A").unwrap(), "1");
    assert_eq!(req.headers.get("X-B").unwrap(), "2: 3");
    // The Content-Length that render writes comes last and wins.
    assert_eq!(req.headers.get("Content-Length").unwrap(), "7");
}
