use dombuilder::request::{assemble_request, content_length, ContentLengthError, Request};

fn parse(raw: &str) -> Result<Request, u16> {
    assert!(Request::can_parse(raw));
    Request::from(raw.to_string())
}

#[test]
fn parses_start_line_headers_and_body() {
    let req = parse("POST /api/run HTTP/1.1\r\nHost: example.com\r\nContent-Length: 5\r\n\r\nhello").unwrap();
    assert_eq!(req.method, "POST");
    assert_eq!(req.url, "/api/run");
    assert_eq!(req.body, "hello");
    assert_eq!(req.status, 200);
    assert_eq!(req.headers.len(), 2);
    assert_eq!(req.headers.get("Host").unwrap(), "example.com");
    assert_eq!(req.headers.get("Content-Length").unwrap(), "5");
    assert!(req.headers.get("host").is_none());
}

#[test]
fn request_without_blank_line_has_empty_body() {
    let req = parse("GET / HTTP/1.1\nAccept: */*").unwrap();
    assert_eq!(req.method, "GET");
    assert_eq!(req.url, "/");
    assert_eq!(req.body, "");
    assert_eq!(req.headers.get("Accept").unwrap(), "*/*");
}

#[test]
fn body_ends_at_the_second_blank_line() {
    let req = parse("GET /x\n\nfirst part\n\nsecond part").unwrap();
    assert_eq!(req.body, "first part");
    assert_eq!(req.headers.len(), 0);
}

#[test]
fn header_line_without_separator_is_refused() {
    assert_eq!(parse("GET / HTTP/1.1\nbroken header\n\n").unwrap_err(), 400);
    // A trailing line end without a blank line leaves an empty header line.
    assert_eq!(parse("GET / HTTP/1.1\n").unwrap_err(), 400);
    // A refused request needs no method or URL.
    assert_eq!(parse("\nX\n\n").unwrap_err(), 400);
}

#[test]
fn later_header_replaces_earlier_one() {
    let req = parse("GET / HTTP/1.1\nX-A: 1\nX-B: 2\nX-A: 3\n\n").unwrap();
    assert_eq!(req.headers.len(), 2);
    assert_eq!(req.headers.get("X-A").unwrap(), "3");
    assert_eq!(req.headers.get("X-B").unwrap(), "2");
}

#[test]
fn header_value_keeps_later_separators() {
    let req = parse("GET / HTTP/1.1\nX-Time: 12: 30\n\n").unwrap();
    assert_eq!(req.headers.get("X-Time").unwrap(), "12: 30");
}

#[test]
fn words_of_the_start_line_are_split_on_any_whitespace() {
    let req = parse("  UNHOST\t /stop\u{3000}HTTP/1.1\n\ntoken").unwrap();
    assert_eq!(req.method, "UNHOST");
    assert_eq!(req.url, "/stop");
    assert_eq!(req.body, "token");
}

#[test]
fn incomplete_start_line_cannot_be_parsed() {
    assert!(!Request::can_parse(""));
    assert!(!Request::can_parse("GET\n\n"));
    assert!(!Request::can_parse("   \nHost: a\n\n"));
    assert!(Request::can_parse("GET /\n\n"));
}

#[test]
fn content_length_of_head_lines() {
    let lines = |v: &[&str]| v.iter().map(|s| s.to_string()).collect::<Vec<String>>();
    assert_eq!(content_length(&lines(&["GET / HTTP/1.1", "Host: a"])), Ok(0));
    assert_eq!(content_length(&lines(&["POST / HTTP/1.1", "Content-Length: 42"])), Ok(42));
    assert_eq!(content_length(&lines(&["Content-Length:  +7 \t"])), Ok(7));
    assert_eq!(content_length(&lines(&["Content-Length: 3: 4"])), Ok(3));
    assert_eq!(content_length(&lines(&["Content-Length: 1", "Content-Length: 2"])), Ok(1));
    assert_eq!(content_length(&lines(&["Content-Length:5"])), Err(ContentLengthError::MissingValue));
    assert_eq!(content_length(&lines(&["Content-Length: five"])), Err(ContentLengthError::InvalidNumber));
    assert_eq!(content_length(&lines(&["Content-Length: -1"])), Err(ContentLengthError::InvalidNumber));
    assert_eq!(content_length(&lines(&["Content-Length: "])), Err(ContentLengthError::InvalidNumber));
    assert_eq!(
        content_length(&lines(&["Content-Length: 99999999999999999999999"])),
        Err(ContentLengthError::InvalidNumber)
    );
    assert_eq!(
        content_length(&lines(&["Content-Length: 18446744073709551615"])),
        Ok(18446744073709551615usize)
    );
    // The name is matched as a prefix, case included.
    assert_eq!(content_length(&lines(&["content-length: 9"])), Ok(0));
    assert_eq!(content_length(&lines(&["Content-Lengthy: 9"])), Ok(9));
}

#[test]
fn assembled_request_parses_back() {
    let lines = vec!["PUT /a HTTP/1.1".to_string(), "Content-Length: 2".to_string()];
    let raw = assemble_request(&lines, "ok");
    assert_eq!(raw, "PUT /a HTTP/1.1\nContent-Length: 2\n\nok");
    let req = parse(&raw).unwrap();
    assert_eq!(req.method, "PUT");
    assert_eq!(req.body, "ok");
    assert_eq!(assemble_request(&Vec::new(), ""), "\n\n");
}

#[test]
fn carriage_returns_and_blank_lines_in_the_body_are_not_kept() {
    let lines = vec!["POST /a HTTP/1.1".to_string()];
    let raw = assemble_request(&lines, "a\r\nb\n\nc");
    let req = parse(&raw).unwrap();
    assert_eq!(req.body, "a\nb");
}
