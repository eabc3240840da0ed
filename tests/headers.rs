use httpot::headers::{list_delimiter, Headers};

#[test]
fn test_serialize_headers() {
    let mut h = Headers::default();
    h.add("Connection", "Close")
        .add("Cookie", "session=123")
        .add("Cookie", "foo=bar");

    let mut count = 0;
    for l in h.into_string().lines() {
        count += 1;
        match l.split_once(": ") {
            Some(("Connection", v)) => assert_eq!("Close", v),
            Some(("Cookie", values)) => {
                assert_eq!(
                    vec!["session=123", "foo=bar"],
                    values.split(";").collect::<Vec<&str>>()
                )
            }
            other => panic!("unexpected extra header: {:?}", other),
        }
    }

    assert_eq!(2, count, "expected to read both headers added");
}

#[test]
fn adding_twice_keeps_both_values_in_order() {
    let mut h = Headers::new();
    h.add("Cookie", "a=1");
    h.add("Cookie", "b=2");
    assert_eq!(Some(&vec!["a=1".to_string(), "b=2".to_string()]), h.get("Cookie"));
    assert_eq!(1, h.len());
}

#[test]
fn names_are_case_sensitive_and_absent_names_give_nothing() {
    let mut h = Headers::new();
    h.add("Host", "example.com");
    assert_eq!(None, h.get("host"));
    assert_eq!(None, h.get("Missing"));
    assert_eq!(Some(&vec!["example.com".to_string()]), h.get("Host"));
}

#[test]
fn unknown_multi_value_header_renders_one_line_per_value() {
    let mut h = Headers::new();
    h.add("X-Thing", "one").add("X-Thing", "two").add("Accept", "a").add("Accept", "b");
    assert_eq!("X-Thing: one\nX-Thing: two\nAccept: a,b", h.to_string());
}

#[test]
fn single_values_render_in_insertion_order() {
    let mut h = Headers::new();
    h.add("B", "2").add("A", "1");
    assert_eq!("B: 2\nA: 1", h.to_string());
    assert_eq!("", Headers::new().to_string());
}

#[test]
fn entry_inserts_or_appends() {
    let mut h = Headers::new();
    h.entry("Via".to_string()).push("a".to_string());
    h.entry("Via".to_string()).push("b".to_string());
    assert_eq!(Some(&vec!["a".to_string(), "b".to_string()]), h.get("Via"));
    h.entry("Empty".to_string());
    assert_eq!(Some(&Vec::<String>::new()), h.get("Empty"));
    assert_eq!("Via: a,b", h.to_string());
}

#[test]
fn get_mut_and_set_replace_values() {
    let mut h = Headers::new();
    h.add("Content-Length", "1");
    if let Some(v) = h.get_mut("Content-Length") {
        v.push("2".to_string());
    }
    assert_eq!(Some(&vec!["1".to_string(), "2".to_string()]), h.get("Content-Length"));
    h.set("Content-Length", vec!["7".to_string()]);
    assert_eq!(Some(&vec!["7".to_string()]), h.get("Content-Length"));
    assert!(h.get_mut("Nope").is_none());
    assert_eq!(1, h.iter().len());
}

#[test]
fn delimiter_table() {
    assert_eq!(Some(';'), list_delimiter("cookie"));
    assert_eq!(Some(';'), list_delimiter("content-type"));
    assert_eq!(Some(','), list_delimiter("x-forwarded-for"));
    assert_eq!(Some(','), list_delimiter("accept"));
    assert_eq!(None, list_delimiter("Cookie"));
    assert_eq!(None, list_delimiter("host"));
}
