use httpot::response::StatusCode;
use httpot::stock::{generic_status, hello_world, not_found};

#[test]
fn stock_pages() {
    let hello = hello_world(());
    assert_eq!(StatusCode::OK, hello.status_code());
    let body = std::str::from_utf8(hello.body()).unwrap();
    assert!(body.contains("<title>Hello World!</title>"));
    assert!(body.contains("<h1>Hello, World!</h1>"));
    assert_eq!(Some(&vec!["text/html".to_string()]), hello.headers().get("Content-Type"));

    let nf = not_found(());
    assert_eq!(StatusCode::NotFound, nf.status_code());
    assert!(std::str::from_utf8(nf.body()).unwrap().contains("<h1>Not Found</h1>"));
}

#[test]
fn generic_status_page_with_allow() {
    let mut b = generic_status((), StatusCode::MethodNotAllowed);
    b.add_headers("Allow", vec!["GET", "OPTIONS"]);
    let resp = b.build().unwrap();
    assert_eq!(StatusCode::MethodNotAllowed, resp.status_code());
    assert_eq!(
        Some(&vec!["GET".to_string(), "OPTIONS".to_string()]),
        resp.headers().get("Allow")
    );
    let text = resp.to_string().unwrap();
    assert!(text.starts_with("HTTP/1.1 405 Method Not Allowed\r\n"));
    assert!(text.contains("Allow: GET\r\nAllow: OPTIONS\r\n"));
    assert!(text.contains("<h1>Method Not Allowed</h1>"));
}
