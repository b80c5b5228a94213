use dombuilder::api::{ApiAction, LuaProcedure, API};
use dombuilder::headers::Headers;
use dombuilder::lua::{CurlMethod, LuaCurl, LuaCurlResponse, LuaJson, LuaRequest, ScriptOutput};
use dombuilder::request::Request;

fn request_for(url: &str) -> Request {
    Request::from(format!("GET {} HTTP/1.1\nX: y\n\nbody", url)).unwrap()
}

#[test]
fn added_lua_route_is_served() {
    let mut api: API<()> = API::new("tok".to_string());
    assert_eq!(api.token(), "tok");
    assert!(!api.has_route("/api/hello"));
    api.add_lua_procedure("hello".to_string(), "scripts/hello.lua".to_string());
    assert!(api.has_route("/api/hello"));
    match api.fulfill_api_request(&request_for("/api/hello")) {
        ApiAction::RunLua(p) => assert_eq!(p.file, "scripts/hello.lua"),
        _ => panic!("route not served"),
    }
    assert!(!api.has_route("/hello"));
    api.add_lua_procedure("hello".to_string(), "other.lua".to_string());
    match api.fulfill_api_request(&request_for("/api/hello")) {
        ApiAction::RunLua(p) => assert_eq!(p.file, "other.lua"),
        _ => panic!("route not served"),
    }
    assert!(!api.has_route("/api/dyn"));
    api.add_dynamic_procedure("dyn".to_string(), ());
    assert!(api.has_route("/api/dyn"));
    match api.fulfill_api_request(&request_for("/api/dyn")) {
        ApiAction::Respond(s) => assert_eq!(s, ""),
        _ => panic!("dynamic route not answered"),
    }
    // A dynamic procedure replaces a script on the same route.
    api.add_dynamic_procedure("hello".to_string(), ());
    assert!(matches!(api.fulfill_api_request(&request_for("/api/hello")), ApiAction::Respond(_)));
}

#[test]
fn lua_procedure_keeps_its_file() {
    assert_eq!(LuaProcedure::new("a.lua".to_string()).file, "a.lua");
}

#[test]
fn lua_request_copies_the_request() {
    let req = request_for("/p");
    let lr = LuaRequest::new(&req);
    assert_eq!(lr.method, "GET");
    assert_eq!(lr.url, "/p");
    assert_eq!(lr.body, "body");
    assert_eq!(lr.status, 200);
    assert_eq!(lr.headers.get("X").unwrap(), "y");
}

#[test]
fn curl_setters_and_getters() {
    let mut h = Headers::new();
    h.insert("Accept".to_string(), "text/plain".to_string());
    let mut c = LuaCurl::new("post".to_string(), "http://a".to_string(), h, "b".to_string());
    assert!(c.has_header("Accept"));
    assert_eq!(c.get_header("Accept"), "text/plain");
    assert!(!c.has_header("X"));
    c.set_header("X".to_string(), "1".to_string());
    c.set_header("X".to_string(), "2".to_string());
    assert_eq!(c.get_header("X"), "2");
    assert_eq!(c.headers().len(), 2);
    c.set_url("http://b".to_string());
    assert_eq!(c.get_url(), "http://b");
    c.set_body("new".to_string());
    assert_eq!(c.get_body(), "new");
    assert_eq!(c.request_method(), CurlMethod::Post);
    c.set_method("DeLeTe".to_string());
    assert_eq!(c.get_method(), "DeLeTe");
    assert_eq!(c.request_method(), CurlMethod::Delete);
    c.set_method("OPTIONS".to_string());
    assert_eq!(c.request_method(), CurlMethod::Get);
    c.set_method("Patch".to_string());
    assert_eq!(c.request_method(), CurlMethod::Patch);
    c.set_method("PUT".to_string());
    assert_eq!(c.request_method(), CurlMethod::Put);
}

#[test]
fn method_names() {
    assert_eq!(CurlMethod::from_lowercase("post"), CurlMethod::Post);
    assert_eq!(CurlMethod::from_lowercase("POST"), CurlMethod::Get);
    assert_eq!(CurlMethod::from_lowercase(""), CurlMethod::Get);
}

#[test]
fn curl_response_is_read_once() {
    let mut r = LuaCurlResponse::new(5u32);
    assert_eq!(r.peek(), Ok(&5));
    assert_eq!(r.take(), Ok(5));
    assert_eq!(r.peek(), Err("Response already processed."));
    assert_eq!(r.take(), Err("Response already processed."));
}

#[test]
fn script_output_set_append_get() {
    let mut o = ScriptOutput::new();
    assert_eq!(o.get_response(), "");
    o.append_response("a");
    o.append_response("b");
    assert_eq!(o.get_response(), "ab");
    o.set_response("c".to_string());
    assert_eq!(o.get_response(), "c");
    let _json = LuaJson {};
}
