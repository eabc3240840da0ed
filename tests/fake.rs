use httpot::clock::UtcDateTime;
use httpot::fake::{
    gen_fake_listing, gen_fake_listing_at, gen_fake_nodes, get_days_in_month, plausible_datetime,
    render_listing, File, Folder, Node, SeededRng,
};
use httpot::response::StatusCode;

fn fixed_now() -> UtcDateTime {
    UtcDateTime { year: 2023, month: 1, day: 16, hour: 17, minute: 19, second: 6 }
}

fn key(t: &UtcDateTime) -> (i32, u32, u32, u32, u32, u32) {
    (t.year, t.month, t.day, t.hour, t.minute, t.second)
}

fn names(ns: &[Node]) -> Vec<String> {
    ns.iter().map(|n| n.name()).collect()
}

#[test]
fn same_seed_and_path_give_the_same_listing() {
    let now = fixed_now();
    let a = gen_fake_nodes("seedv1", "/files/", &now);
    let b = gen_fake_nodes("seedv1", "/files/", &now);
    assert_eq!(names(&a), names(&b));
    let ra = gen_fake_listing_at((), "seedv1", "/files/", &now);
    let rb = gen_fake_listing_at((), "seedv1", "/files/", &now);
    assert_eq!(ra.as_bytes().unwrap(), rb.as_bytes().unwrap());
    assert_eq!(Some(&vec!["Mon, 16 Jan 2023 17:19:06 GMT".to_string()]), ra.headers().get("Date"));
}

#[test]
fn different_paths_give_different_listings() {
    let now = fixed_now();
    let a = names(&gen_fake_nodes("seedv1", "/a/", &now));
    let b = names(&gen_fake_nodes("seedv1", "/b/", &now));
    let c = names(&gen_fake_nodes("seedv2", "/a/", &now));
    assert_ne!(a, b);
    assert_ne!(a, c);
}

#[test]
fn generated_counts_names_and_times_are_in_range() {
    let now = fixed_now();
    for path in ["/", "/a/", "/deep/er/", "/x"] {
        let ns = gen_fake_nodes("seedv1", path, &now);
        let folders: Vec<&Node> = ns.iter().filter(|n| matches!(n, Node::Folder(_))).collect();
        let files = ns.len() - folders.len();
        assert!((4..=15).contains(&folders.len()));
        assert!((2..=8).contains(&files));
        for (i, n) in ns.iter().enumerate() {
            let t = match n {
                Node::Folder(d) => {
                    assert!(i < folders.len());
                    assert!((6..=15).contains(&d.name.len()));
                    assert!(d.name.chars().all(|c| c.is_ascii_alphanumeric()));
                    assert!(n.name().ends_with('/'));
                    d.modified_at
                }
                Node::File(f) => {
                    let (base, ext) = f.name.split_once('.').unwrap();
                    assert!((4..=10).contains(&base.len()));
                    assert!((1..=3).contains(&ext.len()));
                    assert!(f.size <= 32 * 1024 * 1024);
                    f.modified_at
                }
            };
            assert!(key(&t) <= key(&now));
            assert!(key(&t) >= (2000, 1, 1, 0, 0, 0));
        }
    }
}

#[test]
fn plausible_times_never_pass_now() {
    let now = UtcDateTime { year: 2000, month: 1, day: 1, hour: 0, minute: 0, second: 5 };
    let mut rng = SeededRng::new(7);
    for _ in 0..200 {
        let t = plausible_datetime(&mut rng, &now);
        assert!(key(&t) <= key(&now));
        assert_eq!((2000, 1, 1, 0, 0), (t.year, t.month, t.day, t.hour, t.minute));
    }
}

#[test]
fn days_in_month() {
    assert_eq!(Some(29), get_days_in_month(2024, 2));
    assert_eq!(Some(28), get_days_in_month(2023, 2));
    assert_eq!(Some(28), get_days_in_month(1900, 2));
    assert_eq!(Some(29), get_days_in_month(2000, 2));
    assert_eq!(Some(31), get_days_in_month(2023, 12));
    assert_eq!(Some(30), get_days_in_month(2023, 4));
    assert_eq!(None, get_days_in_month(2023, 13));
    assert_eq!(None, get_days_in_month(2023, 0));
}

#[test]
fn listing_document() {
    let t = fixed_now();
    let nodes = vec![
        Node::Folder(Folder { name: "docs".to_string(), modified_at: t }),
        Node::File(File { name: "a.txt".to_string(), modified_at: t, size: 3 }),
    ];
    let doc = render_listing("/x<y", &nodes);
    assert_eq!(
        "<!DOCTYPE html><html><head><title>Index of /x&lt;y/</title><meta name=\"description\" content=\"Generated Directory Listing\"/></head><body><h1>Index of /x&lt;y/</h1><hr/><pre><a href=\"../\">../</a>\n<span><a href=\"docs/\">docs/</a>          \n</span><span><a href=\"a.txt\">a.txt</a>          \n</span></pre><hr/></body></html>",
        doc
    );
    assert!(render_listing("", &vec![]).contains("Index of /<"));
}

#[test]
fn listing_response() {
    let resp = gen_fake_listing_at((), "seedv1", "/pub/", &fixed_now());
    assert_eq!(StatusCode::OK, resp.status_code());
    assert_eq!(Some(&vec!["text/html".to_string()]), resp.headers().get("Content-Type"));
    let body = std::str::from_utf8(resp.body()).unwrap();
    assert!(body.contains("Index of /pub/"));
    assert_eq!(Some(&vec![body.len().to_string()]), resp.headers().get("Content-Length"));
    let live = gen_fake_listing((), "seedv1", "/pub/").unwrap();
    assert!(std::str::from_utf8(live.body()).unwrap().contains("Index of /pub/"));
}

#[test]
fn same_seed_gives_the_same_times() {
    let now = fixed_now();
    let mut a = SeededRng::new(42);
    let mut b = SeededRng::new(42);
    for _ in 0..20 {
        assert_eq!(plausible_datetime(&mut a, &now), plausible_datetime(&mut b, &now));
    }
}
