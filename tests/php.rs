use httpot::error::Error;
use httpot::php::{easter_egg, is_easter_egg, is_easter_egg_url, CREDITS_HTML};
use httpot::request::parse_request;
use httpot::uri::Url;

#[test]
fn test_php_easter_egg_hit() {
    let pos_cases = vec![
        "http://example.com/?=PHPE9568F36-D428-11d2-A769-00AA001ACF42",
        "http://example.com/?=PHPB8B5F2A0-3C92-11d3-A3A9-4C7B08C10000",
        "https://example.com/?=PHPE9568F35-D428-11d2-A769-00AA001ACF42",
        "http://192.168.1.1/?=PHPE9568F34-D428-11d2-A769-00AA001ACF42",
        "http://example.com/foobar.php?=PHPE9568F34-D428-11d2-A769-00AA001ACF42",
    ];

    for c in pos_cases {
        assert!(
            is_easter_egg_url(&Url::parse(c).unwrap()),
            "failed to match url: {}",
            c
        );
    }

    let neg_cases = vec![
        "https://google.com",
        "https://google.com/",
        "https://google.com/foobar/baz/bim?1=2&3=4&6=&=5",
        "http://brod.es/?foo=bar&biz=baz",
    ];

    for c in neg_cases {
        assert!(
            !is_easter_egg_url(&Url::parse(c).unwrap()),
            "failed to not match url: {}",
            c
        );
    }
}

fn request_for(target: &str) -> httpot::request::Request {
    let text = format!("GET {} HTTP/1.1\r\nHost: example.com\r\n\r\n", target);
    parse_request("1.2.3.4:5", text.as_bytes()).unwrap()
}

#[test]
fn image_probe_gets_the_image() {
    let req = request_for("/?=PHPE9568F36-D428-11d2-A769-00AA001ACF42");
    assert!(is_easter_egg(&req));
    let resp = easter_egg((), &req).unwrap();
    assert_eq!(Some(&vec!["PHP/4.0.1".to_string()]), resp.headers().get("X-Powered-By"));
    assert_eq!(Some(&vec!["image/gif".to_string()]), resp.headers().get("Content-Type"));
    assert_eq!(Some(&vec!["2985".to_string()]), resp.headers().get("Content-Length"));
    assert_eq!(2985, resp.len());
    assert!(resp.body().iter().all(|b| *b == b'a'));
}

#[test]
fn credits_probe_gets_the_credits_page() {
    let req = request_for("/index.php?x=1&=PHPB8B5F2A0-3C92-11d3-A3A9-4C7B08C10000");
    assert!(is_easter_egg(&req));
    let resp = easter_egg((), &req).unwrap();
    assert_eq!(Some(&vec!["text/html".to_string()]), resp.headers().get("Content-Type"));
    assert_eq!(Some(&vec!["PHP/4.0.1".to_string()]), resp.headers().get("X-Powered-By"));
    assert_eq!(CREDITS_HTML.as_bytes(), resp.body());
}

#[test]
fn unknown_probe_value_is_an_error() {
    let req = request_for("/?=PHP00000000-0000-0000-0000-000000000000");
    assert!(is_easter_egg(&req));
    assert_eq!(Some(Error::UnknownSignature), easter_egg((), &req).err());
    let plain = request_for("/?a=b");
    assert!(!is_easter_egg(&plain));
    assert_eq!(Some(Error::UnknownSignature), easter_egg((), &plain).err());
}
