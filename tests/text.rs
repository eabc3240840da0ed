use httpot::text::{join_strings, parse_usize, push_decimal, split_chars, to_chars, trim};

fn chars(s: &str) -> Vec<char> {
    s.chars().collect()
}

#[test]
fn decimal_parse_matches_std() {
    for s in ["0", "42", "+7", "007", "18446744073709551615"] {
        assert_eq!(s.parse::<usize>().ok(), parse_usize(&chars(s)), "{}", s);
    }
    for s in ["", "+", "-1", "1a", " 1", "18446744073709551616", "++1"] {
        assert_eq!(None, parse_usize(&chars(s)), "{}", s);
    }
}

#[test]
fn decimal_render() {
    let mut s = String::from("n=");
    push_decimal(&mut s, 0);
    push_decimal(&mut s, 2985);
    assert_eq!("n=02985", s);
}

#[test]
fn trim_and_split_match_std() {
    for s in ["  a b \r\n", "", "   ", "\u{3000}x\u{a0}", "x"] {
        let t: String = trim(&chars(s)).into_iter().collect();
        assert_eq!(s.trim(), t);
    }
    let pieces: Vec<String> = split_chars(&chars("a;b;;c"), ';')
        .into_iter()
        .map(|v| v.into_iter().collect())
        .collect();
    assert_eq!(vec!["a", "b", "", "c"], pieces);
    assert_eq!(1, split_chars(&chars(""), ';').len());
    assert_eq!(vec!['h', 'é'], to_chars("hé"));
    assert_eq!("a, b", join_strings(&vec!["a".to_string(), "b".to_string()], ", "));
}

#[test]
fn truncate_for_log_columns() {
    assert_eq!("short", httpot::text::truncate("short", 20));
    assert_eq!("curl/7.8...gent/1.0", httpot::text::truncate("curl/7.83.1 some agent/1.0", 20));
    assert_eq!("...", httpot::text::truncate("abcd", 3));
}
