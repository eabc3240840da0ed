use httpot::error::Error;
use httpot::request::parse_request;
use httpot::response::StatusCode;
use httpot::router::router;

fn req(method: &str, target: &str) -> httpot::request::Request {
    let text = format!("{} {} HTTP/1.1\r\nHost: example.com\r\nContent-Length: 0\r\n\r\n", method, target);
    parse_request("1.2.3.4:5", text.as_bytes()).unwrap()
}

#[test]
fn routes() {
    let r = router((), &req("POST", "/")).unwrap();
    assert_eq!(StatusCode::MethodNotAllowed, r.status_code());
    assert_eq!(Some(&vec!["GET".to_string(), "OPTIONS".to_string()]), r.headers().get("Allow"));

    let r = router((), &req("GET", "/hello")).unwrap();
    assert_eq!(StatusCode::OK, r.status_code());
    assert!(std::str::from_utf8(r.body()).unwrap().contains("Hello, World!"));

    assert_eq!(StatusCode::NotFound, router((), &req("GET", "/favicon.ico")).unwrap().status_code());
    assert_eq!(StatusCode::NotFound, router((), &req("OPTIONS", "/nothing")).unwrap().status_code());

    let r = router((), &req("GET", "/srv/")).unwrap();
    assert_eq!(StatusCode::OK, r.status_code());
    assert!(std::str::from_utf8(r.body()).unwrap().contains("Index of /srv/"));

    let r = router((), &req("GET", "/hello?=PHPE9568F34-D428-11d2-A769-00AA001ACF42")).unwrap();
    assert_eq!(Some(&vec!["image/gif".to_string()]), r.headers().get("Content-Type"));

    let e = router((), &req("GET", "/?=PHP11111111-2222-3333-4444-555555555555")).err();
    assert_eq!(Some(Error::UnknownSignature), e);
}
