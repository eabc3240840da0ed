use httpot::error::Error;
use httpot::headers::Headers;
use httpot::request::{parse_request, Method, Next, ReadState, Request, RequestReader};
use httpot::uri::Url;

#[test]
fn test_boring_http_get() {
    let input = r#"GET / HTTP/1.1
Host: 127.0.0.1:8080
User-Agent: curl/7.83.1
Accept: */*

"#;
    let req = parse_request("127.0.0.1:8000", input.as_bytes()).unwrap();
    assert_eq!(Method::GET, req.method);
}

#[test]
fn test_basic_get_request_parse() {
    let input = r#"GET / HTTP/1.1
Host: 127.0.0.1:8080
User-Agent: curl/7.83.1
Foo: Bar
Biz: Baz
Cookie: asdf=123; fghj=4567;session=someid
Accept: */*

"#;
    let req = parse_request("127.0.0.1:8000", input.as_bytes()).unwrap();

    assert_eq!(Method::GET, req.method);
    assert_eq!("/", req.url.path());
    assert_eq!(Some("127.0.0.1"), req.url.host_str());
    assert_eq!(8080, req.url.port().unwrap_or_default());
    assert_eq!("HTTP/1.1", req.version);
    assert_eq!(0, req.body.len());

    let cases = vec![
        ("Host", vec!["127.0.0.1:8080"]),
        ("User-Agent", vec!["curl/7.83.1"]),
        ("Foo", vec!["Bar"]),
        ("Biz", vec!["Baz"]),
        ("Cookie", vec!["asdf=123", "fghj=4567", "session=someid"]),
        ("Accept", vec!["*/*"]),
    ];
    assert_headers_eq(cases, &req.headers);
}

fn assert_headers_eq(expected: Vec<(&str, Vec<&str>)>, actual: &Headers) {
    assert_eq!(expected.len(), actual.len());

    for (header, expected) in expected {
        let expected: Vec<String> = expected.into_iter().map(|s| s.to_string()).collect();
        assert_eq!(
            Some(&expected),
            actual.get(header),
            "expected header '{}' to have value '{:?}', but had value '{:?}'",
            header,
            expected,
            actual.get(header)
        );
    }
}

fn stub_request() -> Request {
    Request {
        headers: Headers::new(),
        size: 0,
        body: vec![],
        method: Method::GET,
        url: Url::parse("http://127.0.0.1:8080/").unwrap(),
        version: "HTTP/1.1".to_string(),
        remote_ip: "1.1.1.1:62012".to_string(),
    }
}

#[test]
fn test_requester() {
    let mut req = stub_request();
    req.remote_ip = "1.2.3.4:61723".to_string();

    let cases = vec![
        ("1.2.3.4:61723", vec![]),
        (
            "192.168.1.100:50212",
            vec![("X-Forwarded-For", "192.168.1.100:50212")],
        ),
        ("192.168.1.100", vec![("X-Forwarded-For", "192.168.1.100")]),
        (
            "192.168.162.109:46591",
            vec![
                ("X-Forwarded-For", "192.168.1.251"),
                ("Forwarded", "for=192.168.162.109:46591"),
            ],
        ),
        (
            "192.168.162.109",
            vec![("Forwarded", "for=192.168.162.109")],
        ),
        (
            "203.0.113.195",
            vec![(
                "X-Forwarded-For",
                "203.0.113.195, 2001:db8:85a3:8d3:1319:8a2e:370:7348",
            )],
        ),
        (
            "210.0.113.195",
            vec![(
                "X-Forwarded-For",
                "210.0.113.195,2001:db8:85a3:8d3:1319:8a2e:370:7348",
            )],
        ),
    ];
    for (i, (expected, headers)) in cases.into_iter().enumerate() {
        let mut req = req.clone();
        for (k, v) in headers {
            req.headers.add(k, v);
        }

        assert_eq!(
            expected.to_string(),
            req.requester(),
            "case i={}: headers did not yield correct requester addr",
            i
        );
    }
}

#[test]
fn requester_resolution_order() {
    let mut req = stub_request();
    req.remote_ip = "1.2.3.4:1111".to_string();
    assert_eq!("1.2.3.4:1111", req.requester());

    let mut xff = req.clone();
    xff.headers.add("X-Forwarded-For", "9.9.9.9");
    assert_eq!("9.9.9.9", xff.requester());

    let mut fwd = req.clone();
    fwd.headers.add("Forwarded", "for=8.8.8.8:2222");
    assert_eq!("8.8.8.8:2222", fwd.requester());

    let mut both = xff.clone();
    both.headers.add("Forwarded", "by=proxy; FOR=8.8.8.8:2222");
    assert_eq!("8.8.8.8:2222", both.requester());

    let mut no_for = xff.clone();
    no_for.headers.add("Forwarded", "by=proxy");
    assert_eq!("9.9.9.9", no_for.requester());
}

#[test]
fn crlf_get_parses() {
    let req = parse_request("10.0.0.1:5", b"GET / HTTP/1.1\r\nHost: 127.0.0.1:8080\r\n\r\n").unwrap();
    assert_eq!(Method::GET, req.method);
    assert_eq!("/", req.url.path());
    assert_eq!(Some("127.0.0.1"), req.url.host_str());
    assert_eq!(Some(8080), req.url.port());
    assert_eq!(Some(&vec!["127.0.0.1:8080".to_string()]), req.headers.get("Host"));
    assert_eq!("HTTP/1.1", req.version);
    assert_eq!(0, req.body.len());
    assert_eq!("10.0.0.1:5", req.remote_ip);
}

#[test]
fn unsupported_method_is_malformed() {
    let r = parse_request("1.1.1.1:1", b"PATCH / HTTP/1.1\r\nHost: a\r\n\r\n");
    assert_eq!(Some(Error::MalformedRequest), r.err());
}

#[test]
fn short_body_is_transport_error() {
    let r = parse_request("1.1.1.1:1", b"POST / HTTP/1.1\r\nHost: a\r\nContent-Length: 5\r\n\r\nabc");
    assert_eq!(Some(Error::Transport), r.err());
}

#[test]
fn full_body_is_read() {
    let req = parse_request(
        "1.1.1.1:1",
        b"POST /x HTTP/1.1\r\nHost: a\r\ncontent-length: 5\r\n\r\nhello extra",
    )
    .unwrap();
    assert_eq!(Method::POST, req.method);
    assert_eq!(b"hello".to_vec(), req.body);
    assert_eq!(5, req.size);
    assert_eq!("/x", req.url.path());
}

#[test]
fn bodiless_method_ignores_content_length() {
    let req = parse_request("1.1.1.1:1", b"GET / HTTP/1.1\r\nHost: a\r\nContent-Length: 3\r\n\r\nabc").unwrap();
    assert_eq!(0, req.body.len());
    assert_eq!(3, req.size);
}

#[test]
fn bad_start_lines_and_headers() {
    let cases: Vec<&[u8]> = vec![
        b"GET /\r\nHost: a\r\n\r\n",
        b"GET / HTTP/1.1 extra\r\nHost: a\r\n\r\n",
        b"",
        b"get / HTTP/1.1\r\nHost: a\r\n\r\n",
        b"GET / HTTP/1.1\r\n\r\n",
        b"POST / HTTP/1.1\r\nHost: a\r\nContent-Length: five\r\n\r\n",
    ];
    for (i, c) in cases.into_iter().enumerate() {
        assert_eq!(Some(Error::MalformedRequest), parse_request("1.1.1.1:1", c).err(), "case {}", i);
    }
}

#[test]
fn non_utf8_line_is_transport_error() {
    let r = parse_request("1.1.1.1:1", b"GET / HTTP/1.1\r\nHost: \xff\r\n\r\n");
    assert_eq!(Some(Error::Transport), r.err());
}

#[test]
fn any_line_without_colon_ends_headers() {
    let req = parse_request("1.1.1.1:1", b"GET /a?b=c HTTP/1.0\nHost: h\nnot a header\nX: y\n\n").unwrap();
    assert_eq!(1, req.headers.len());
    assert_eq!("HTTP/1.0", req.version);
    assert_eq!(Some("b=c"), req.url.query());
}

#[test]
fn reader_steps() {
    let mut r = RequestReader::new();
    assert_eq!(ReadState::StartLine, r.state());
    assert_eq!(Ok(Next::Line), r.feed_line("PUT /up HTTP/1.1\r\n"));
    assert_eq!(ReadState::Headers, r.state());
    assert_eq!(Ok(Next::Line), r.feed_line("Host: example.com\r\n"));
    assert_eq!(Ok(Next::Line), r.feed_line("Content-Length: 2\r\n"));
    assert_eq!(Ok(Next::Body(2)), r.feed_line("\r\n"));
    assert_eq!(ReadState::Done, r.state());
    let req = r.finish(b"ok".to_vec(), "5.6.7.8:9".to_string()).unwrap();
    assert_eq!(Method::PUT, req.method);
    assert_eq!(b"ok".to_vec(), req.body);
}

#[test]
fn method_names() {
    for (name, m) in [
        ("GET", Method::GET),
        ("HEAD", Method::HEAD),
        ("POST", Method::POST),
        ("PUT", Method::PUT),
        ("DELETE", Method::DELETE),
        ("CONNECT", Method::CONNECT),
        ("OPTIONS", Method::OPTIONS),
        ("TRACE", Method::TRACE),
    ] {
        assert_eq!(Some(m), Method::from_name(name));
        assert_eq!(name, m.to_string());
    }
    assert_eq!(None, Method::from_name("PATCH"));
    assert!(Method::GET.is_bodiless());
    assert!(!Method::POST.is_bodiless());
}

#[test]
fn request_text_for_logs() {
    let req = parse_request("1.1.1.1:1", b"POST /p HTTP/1.1\r\nHost: h\r\nContent-Length: 2\r\n\r\nhi").unwrap();
    assert_eq!("POST /p HTTP/1.1\n\rHost: h\nContent-Length: 2\n\r\n\rhi", req.to_string().unwrap());
    let get = parse_request("1.1.1.1:1", b"GET / HTTP/1.1\r\nHost: h\r\n\r\n").unwrap();
    assert_eq!("GET / HTTP/1.1\n\rHost: h\n\r", get.to_string().unwrap());
    assert_eq!(Ok(Method::TRACE), "TRACE".parse::<Method>());
    assert_eq!(Err(Error::MalformedRequest), "trace".parse::<Method>());
}
