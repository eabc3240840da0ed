use httpot::error::{BuildError, Error};
use rand::{thread_rng, Rng};
use httpot::response::{send_step, BaseResponseBuilder, SendStep, StatusCode, WriteOutcome};

#[test]
fn basic_utf8_body() {
    let size = 1024 * 1024;
    let mut body = Vec::<u8>::with_capacity(256 * 1024 * 1024);
    body.resize(size, 'a' as u8);

    let resp = BaseResponseBuilder::ok(()).body(&body).build().unwrap();
    let len: usize = resp
        .headers()
        .get("Content-Length")
        .and_then(|v| v.first())
        .expect("content length header should be present")
        .parse()
        .unwrap();

    assert_eq!(len, size);
}

#[test]
fn expanded_utf8_body() {
    let body: String = thread_rng()
        .sample_iter::<char, _>(rand::distributions::Standard)
        .take(2048)
        .collect();
    let size = body.len();

    let resp = BaseResponseBuilder::ok(()).body(body.as_bytes()).build().unwrap();
    let len: usize = resp
        .headers()
        .get("Content-Length")
        .and_then(|v| v.first())
        .unwrap()
        .parse()
        .unwrap();

    assert_eq!(len, size);
}

#[test]
fn content_length_round_trips_through_the_wire_text() {
    let body = "héllo wörld";
    let resp = BaseResponseBuilder::ok(()).body(body.as_bytes()).build().unwrap();
    let text = resp.to_string().unwrap();
    let line = text
        .split("\r\n")
        .find(|l| l.starts_with("Content-Length: "))
        .unwrap();
    let n: usize = line["Content-Length: ".len()..].parse().unwrap();
    assert_eq!(body.len(), n);
}

#[test]
fn setting_body_overwrites_content_length() {
    let mut b = BaseResponseBuilder::ok(());
    b.add_header("Content-Length", "999").body(b"abc");
    let resp = b.build().unwrap();
    assert_eq!(Some(&vec!["3".to_string()]), resp.headers().get("Content-Length"));
}

#[test]
fn wire_format() {
    let mut b = BaseResponseBuilder::not_found(());
    b.add_header("Content-Type", "text/plain")
        .add_header("Cookie", "a=1")
        .add_header("Cookie", "b=2")
        .add_headers("Allow", vec!["GET", "OPTIONS"])
        .version("HTTP/1.0")
        .body(b"hello");
    let resp = b.build().unwrap();
    let text = resp.to_string().unwrap();
    let lines: Vec<&str> = text.split("\r\n").collect();
    assert_eq!("HTTP/1.0 404 Not Found", lines[0]);
    assert!(lines[1].starts_with("Server: httpot"));
    assert!(lines[2].starts_with("Date: "));
    assert_eq!("Content-Type: text/plain", lines[3]);
    assert_eq!("Cookie: a=1;b=2", lines[4]);
    assert_eq!("Allow: GET", lines[5]);
    assert_eq!("Allow: OPTIONS", lines[6]);
    assert_eq!("Content-Length: 5", lines[7]);
    assert_eq!("", lines[8]);
    assert_eq!("hello", lines[9]);
    assert_eq!(10, lines.len());
    let header_block = resp.headers().to_string();
    assert_eq!(header_block.lines().collect::<Vec<_>>(), lines[1..8].to_vec());
    assert_eq!(text.clone().into_bytes(), resp.as_bytes().unwrap());
    assert_eq!(5, resp.len());
    assert_eq!(StatusCode::NotFound, resp.status_code());
    assert_eq!(text, resp.into_string().unwrap());
}

#[test]
fn default_version_is_http_1_1() {
    let resp = BaseResponseBuilder::ok(()).body(b"").build().unwrap();
    assert!(resp.to_string().unwrap().starts_with("HTTP/1.1 200 OK\r\n"));
}

#[test]
fn non_text_body_fails_to_render() {
    let resp = BaseResponseBuilder::ok(()).body(&[0xff, 0xfe]).build().unwrap();
    assert_eq!(Some(Error::BodyEncoding), resp.to_string().err());
    assert_eq!(Some(Error::BodyEncoding), resp.as_bytes().err());
}

#[test]
fn build_requires_status_and_body() {
    let mut b = BaseResponseBuilder::default(());
    assert_eq!(Some(Error::Build(BuildError::MissingStatusCode)), b.build().err());
    b.status_code(201);
    assert_eq!(Some(Error::Build(BuildError::MissingBody)), b.build().err());
    b.body(b"x");
    assert_eq!(StatusCode::Created, b.build().unwrap().status_code());
    b.status_code(299);
    assert_eq!(Some(Error::Build(BuildError::MissingStatusCode)), b.build().err());
    b.status_code(418).output(());
    assert_eq!(StatusCode::ImATeapot, b.build().unwrap().status_code());
}

#[test]
fn status_codes_and_reasons() {
    let all = [
        (200, "OK"),
        (201, "Created"),
        (202, "Accepted"),
        (204, "No Content"),
        (301, "Moved Permanently"),
        (302, "Found"),
        (303, "See Other"),
        (307, "Temporary Redirect"),
        (308, "Permanent Redirect"),
        (400, "BadRequest"),
        (401, "Unauthorized"),
        (403, "Forbidden"),
        (404, "Not Found"),
        (405, "Method Not Allowed"),
        (408, "Request Timeout"),
        (410, "Gone"),
        (411, "Length Required"),
        (413, "Payload Too Large"),
        (418, "Im A Teapot"),
        (500, "Internal Server Error"),
        (501, "Not Implemented"),
        (505, "HTTP Version not Supported"),
    ];
    for (code, reason) in all {
        let s = StatusCode::from_code(code).unwrap();
        assert_eq!(code as u16, s.code());
        assert_eq!(reason, s.to_string());
    }
    for code in [0, 100, 203, 402, 404 + 1000, -200] {
        assert_eq!(None, StatusCode::from_code(code));
    }
    assert_eq!(StatusCode::OK, StatusCode::default());
}

#[test]
fn write_loop_decisions() {
    assert_eq!(SendStep::Continue(4), send_step(10, 0, WriteOutcome::Wrote(4)));
    assert_eq!(SendStep::Done, send_step(10, 4, WriteOutcome::Wrote(6)));
    assert_eq!(SendStep::Continue(4), send_step(10, 4, WriteOutcome::WouldBlock));
    assert_eq!(SendStep::Abort(Error::Transport), send_step(10, 4, WriteOutcome::Failed));
    assert_eq!(SendStep::Done, send_step(0, 0, WriteOutcome::Wrote(0)));
}

#[test]
fn default_headers_carry_server_and_http_date() {
    let resp = BaseResponseBuilder::ok(()).body(b"").build().unwrap();
    assert_eq!(Some(&vec!["httpot".to_string()]), resp.headers().get("Server"));
    let date = &resp.headers().get("Date").unwrap()[0];
    assert!(!date.contains('%'), "{}", date);
    assert!(date.ends_with(" GMT"), "{}", date);
    assert_eq!(29, date.len(), "{}", date);
    assert_eq!(Some(','), date.chars().nth(3));
}
