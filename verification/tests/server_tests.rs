use dombuilder::request::Request;
use dombuilder::server::{handle_request, server_token, ServerRegistry};

const PAGE_65000: &str = "<!DOCTYPE html>\n\t\t\t\t<html lang=\"en\">\n\t\t\t\t<head>\n\t\t\t\t\t<meta charset=\"UTF-8\">\n\t\t\t\t\t<meta name=\"viewport\" content=\"width=device-width, initial-scale=1.0\">\n\t\t\t\t\t<meta http-equiv=\"X-UA-Compatible\" content=\"ie=edge\">\n\t\t\t\t\t<title>Instance 65000</title>\n\t\t\t\t</head>\n\t\t\t\t<body>\n\t\t\t\t\tThis is a DomBuilder Instance on port 65000.\n\t\t\t\t\t<script></script>\n\t\t\t\t</body>\n\t\t\t\t</html>";

#[test]
fn token_is_digest_of_port_text() {
    let t = server_token(65535);
    assert_eq!(t, sha256::digest("server:65535"));
    assert_eq!(t.len(), 64);
    assert_ne!(t, "server:65535");
    assert_ne!(server_token(1), server_token(2));
}

#[test]
fn ports_are_allocated_downwards() {
    let mut reg: ServerRegistry<u8> = ServerRegistry::new();
    assert_eq!(reg.allocate_port(), Some(65535));
    reg.register("a".to_string(), 65535, 1);
    assert_eq!(reg.allocate_port(), Some(65534));
    reg.register("b".to_string(), 65534, 2);
    reg.register("c".to_string(), 80, 3);
    assert_eq!(reg.allocate_port(), Some(65533));
    assert!(reg.has_port(80));
    assert!(!reg.has_port(81));
    assert_eq!(reg.len(), 3);
    assert_eq!(reg.find_by_port(80), Some(2));
    assert_eq!(reg.find_by_token("b"), Some(1));
    assert_eq!(reg.find_by_token("z"), None);
    // A freed port is chosen again.
    let e = reg.stop_server(65535).unwrap();
    assert_eq!((e.token.as_str(), e.port, e.terminate), ("a", 65535, 1));
    assert_eq!(reg.allocate_port(), Some(65535));
    assert!(reg.stop_server(65535).is_none());
}

#[test]
fn remove_by_token_and_port() {
    let mut reg: ServerRegistry<&'static str> = ServerRegistry::new();
    reg.register("t1".to_string(), 100, "h1");
    reg.register("t2".to_string(), 200, "h2");
    let e = reg.remove_server_by_token("t2").unwrap();
    assert_eq!(e.port, 200);
    assert_eq!(e.terminate, "h2");
    assert_eq!(reg.len(), 1);
    assert_eq!(
        reg.remove_server_by_token("t2").err(),
        Some("A server with the token provided does not exist.")
    );
    assert_eq!(
        reg.remove_server_by_port(200).err(),
        Some("A server with the port provided does not exist.")
    );
    let e = reg.remove_server_by_port(100).unwrap();
    assert_eq!(e.token, "t1");
    assert_eq!(reg.len(), 0);
}

#[test]
fn register_then_stop_restores_registry() {
    let mut reg: ServerRegistry<u8> = ServerRegistry::new();
    reg.register("x".to_string(), 7, 0);
    reg.register("y".to_string(), 8, 0);
    reg.stop_server(8);
    assert_eq!(reg.len(), 1);
    assert_eq!(reg.entry(0).token, "x");
    assert_eq!(reg.entry(0).port, 7);
}

fn req(method: &str, body: &str) -> Request {
    let raw = format!("{} / HTTP/1.1\n\n{}", method, body);
    Request::from(raw).unwrap()
}

#[test]
fn bad_request_gets_its_status() {
    let out = handle_request(&Err(400), 65000, "tok");
    assert!(!out.stop);
    assert_eq!(out.response.status, 400);
    assert!(out.response.headers.is_empty());
    assert_eq!(out.response.render(), "HTTP/1.1 400 Bad Request\nContent-Length: 12\n\nBad Request.");
}

#[test]
fn ordinary_request_gets_the_page() {
    let out = handle_request(&Ok(req("GET", "")), 65000, "tok");
    assert!(!out.stop);
    assert_eq!(out.response.status, 200);
    assert_eq!(
        out.response.headers,
        vec!["Access-Control-Allow-Origin: *".to_string(), "Content-Type: text/html; charset=utf-8".to_string()]
    );
    assert_eq!(out.response.body, PAGE_65000);
}

#[test]
fn unhost_with_token_stops() {
    let out = handle_request(&Ok(req("UNHOST", "tok")), 65000, "tok");
    assert!(out.stop);
    assert_eq!(out.response.body, "Server Will shut down on next request.");
    assert_eq!(out.response.headers.len(), 2);
}

#[test]
fn unhost_with_wrong_token_is_refused() {
    let out = handle_request(&Ok(req("UNHOST", "nope")), 65000, "tok");
    assert!(!out.stop);
    assert_eq!(out.response.body, "UNHOST request requires the correct server token in the body.");
    let out = handle_request(&Ok(req("unhost", "tok")), 65000, "tok");
    assert!(!out.stop);
    assert_eq!(out.response.body, PAGE_65000);
}
