//! A fake file system: a directory listing drawn from a generator seeded by
//! a caller's seed and the requested path, so that a path always lists the
//! same made-up entries.
use vstd::prelude::*;
use rand::rngs::StdRng;
use crate::clock::{days_in_month_spec, utc_now, year_in_range, UtcDateTime};
use crate::headers::{add_spec, set_spec};
use crate::response::{headers_at, render_spec, BaseResponse, BaseResponseBuilder, ResponseView, StatusCode};
use crate::text::{decimal, escape_html, push_escaped, to_chars};

verus! {

#[verifier::external_type_specification]
#[verifier::external_body]
pub struct ExStdRng(StdRng);

/// What `BuildHasher::hash_one` with std's `DefaultHasher` gives for the pair.
pub uninterp spec fn seed_hash(seed: Seq<char>, path: Seq<char>) -> u64;

/// Relies on `BuildHasher::hash_one` over `BuildHasherDefault<DefaultHasher>`,
/// whose hasher starts from fixed keys: the value depends on the pair alone.
#[verifier::external_body]
fn hash_path_seed(seed: &str, path: &str) -> (r: u64)
    ensures
        r == seed_hash(seed@, path@),
{
    std::hash::BuildHasher::hash_one(
        &std::hash::BuildHasherDefault::<std::collections::hash_map::DefaultHasher>::default(),
        (seed, path),
    )
}

/// The value `Rng::gen_range` gives on a `StdRng` seeded with `seed` after
/// the draws in `log`, for a draw of `kind` (0: `u32` over `lo..=hi`, 1:
/// `u32` over `lo..hi`, 2: `usize` over `lo..=hi`) between `lo` and `hi`.
pub uninterp spec fn rng_draw(seed: u64, log: Seq<(int, int, int)>, kind: int, lo: int, hi: int) -> int;

/// The text `DistString::sample_string` for `Alphanumeric` gives on a
/// `StdRng` seeded with `seed` after the draws in `log`, for `len` characters.
pub uninterp spec fn rng_text(seed: u64, log: Seq<(int, int, int)>, len: int) -> Seq<char>;

/// The draws made from a generator so far: kind, then the two bounds (for a
/// text, kind 3 with its length and 0).
pub type DrawLog = Seq<(int, int, int)>;

/// A `StdRng` together with its seed and the draws made from it, which fix
/// every value it gives next.
pub struct SeededRng {
    rng: StdRng,
    seed: Ghost<u64>,
    log: Ghost<DrawLog>,
}

impl SeededRng {
    pub closed spec fn seed(&self) -> u64 {
        self.seed@
    }

    pub closed spec fn log(&self) -> DrawLog {
        self.log@
    }

    /// A generator seeded with `seed`, nothing drawn yet.
    pub fn new(seed: u64) -> (r: SeededRng)
        ensures
            r.seed() == seed,
            r.log() == Seq::<(int, int, int)>::empty(),
    {
        SeededRng { rng: seeded_rng(seed), seed: Ghost(seed), log: Ghost(Seq::empty()) }
    }
}

/// Relies on `SeedableRng::seed_from_u64`: a generator seeded from the value.
#[verifier::external_body]
fn seeded_rng(seed: u64) -> StdRng {
    rand::SeedableRng::seed_from_u64(seed)
}

/// Relies on `Rng::gen_range` over `lo..=hi`: a value in the range, fixed by
/// the seed and the earlier draws; it panics only on an empty range.
#[verifier::external_body]
fn rng_range_u32(g: &mut SeededRng, lo: u32, hi: u32) -> (r: u32)
    requires
        lo <= hi,
    ensures
        lo <= r <= hi,
        r as int == rng_draw(old(g).seed(), old(g).log(), 0, lo as int, hi as int),
        final(g).seed() == old(g).seed(),
        final(g).log() == old(g).log().push((0, lo as int, hi as int)),
{
    rand::Rng::gen_range(&mut g.rng, lo..=hi)
}

/// Relies on `Rng::gen_range` over `lo..hi`: a value in the range, fixed by
/// the seed and the earlier draws; it panics only on an empty range.
#[verifier::external_body]
fn rng_below_u32(g: &mut SeededRng, lo: u32, hi: u32) -> (r: u32)
    requires
        lo < hi,
    ensures
        lo <= r < hi,
        r as int == rng_draw(old(g).seed(), old(g).log(), 1, lo as int, hi as int),
        final(g).seed() == old(g).seed(),
        final(g).log() == old(g).log().push((1, lo as int, hi as int)),
{
    rand::Rng::gen_range(&mut g.rng, lo..hi)
}

/// Relies on `Rng::gen_range` over `lo..=hi` for `usize`: a value in the
/// range, fixed by the seed and the earlier draws; it panics only on an
/// empty range.
#[verifier::external_body]
fn rng_range_usize(g: &mut SeededRng, lo: usize, hi: usize) -> (r: usize)
    requires
        lo <= hi,
    ensures
        lo <= r <= hi,
        r as int == rng_draw(old(g).seed(), old(g).log(), 2, lo as int, hi as int),
        final(g).seed() == old(g).seed(),
        final(g).log() == old(g).log().push((2, lo as int, hi as int)),
{
    rand::Rng::gen_range(&mut g.rng, lo..=hi)
}

/// ASCII letters and digits.
pub open spec fn is_alnum(c: char) -> bool {
    ('a' <= c && c <= 'z') || ('A' <= c && c <= 'Z') || ('0' <= c && c <= '9')
}

pub open spec fn all_alnum(s: Seq<char>) -> bool {
    forall|i: int| 0 <= i < s.len() ==> is_alnum(#[trigger] s[i])
}

/// Relies on `DistString::sample_string` for `Alphanumeric`: `len`
/// characters, each an ASCII letter or digit, fixed by the seed and the
/// earlier draws.
#[verifier::external_body]
fn alnum_string(g: &mut SeededRng, len: usize) -> (r: String)
    ensures
        r@.len() == len,
        all_alnum(r@),
        r@ == rng_text(old(g).seed(), old(g).log(), len as int),
        final(g).seed() == old(g).seed(),
        final(g).log() == old(g).log().push((3, len as int, 0)),
{
    rand::distributions::DistString::sample_string(&rand::distributions::Alphanumeric, &mut g.rng, len)
}

/// Relies on `NaiveDate::from_ymd_opt` and `Datelike::num_days_in_month`:
/// the length of an existing month; none for a month outside 1 to 12 or a
/// year the calendar crate does not hold.
#[verifier::external_body]
fn month_length(year: i32, month: u32) -> (r: Option<u32>)
    ensures
        r is Some <==> (1 <= month <= 12 && year_in_range(year as int)),
        r matches Some(n) ==> n == days_in_month_spec(year as int, month as int),
{
    chrono::NaiveDate::from_ymd_opt(year, month, 1).map(|d| chrono::Datelike::num_days_in_month(&d) as u32)
}

/// The number of days in a month, by the calendar crate.
pub fn get_days_in_month(year: i32, month: u32) -> (r: Option<u32>)
    ensures
        r is Some <==> (1 <= month <= 12 && year_in_range(year as int)),
        r matches Some(n) ==> n == days_in_month_spec(year as int, month as int),
{
    month_length(year, month)
}

/// One draw of `kind` between `lo` and `hi`: its value and the longer log.
pub open spec fn drawn(seed: u64, log: DrawLog, kind: int, lo: int, hi: int) -> (int, DrawLog) {
    (rng_draw(seed, log, kind, lo, hi), log.push((kind, lo, hi)))
}

/// A length drawn from `min..=max`, then a text of that length.
pub open spec fn sized_text(seed: u64, log: DrawLog, min: int, max: int) -> (Seq<char>, DrawLog) {
    let (n, l1) = drawn(seed, log, 2, min, max);
    (rng_text(seed, l1, n), l1.push((3, n, 0)))
}

/// The modification time drawn after `log`: year, month, day, hour, minute
/// and second in turn, each bounded by `now` while the coarser ones equal it.
pub open spec fn datetime_model(seed: u64, log: DrawLog, now: UtcDateTime) -> (UtcDateTime, DrawLog) {
    let (y, l1) = drawn(seed, log, 0, 2000, now.year as int);
    let year = y as i32;
    let (mo, l2) = if year == now.year {
        drawn(seed, l1, 0, 1, now.month as int)
    } else {
        drawn(seed, l1, 0, 1, 12)
    };
    let month = mo as u32;
    let (d, l3) = if year == now.year && month == now.month {
        drawn(seed, l2, 0, 1, now.day as int)
    } else {
        drawn(seed, l2, 0, 1, days_in_month_spec(year as int, month as int))
    };
    let day = d as u32;
    let (h, l4) = if year == now.year && month == now.month && day == now.day {
        drawn(seed, l3, 0, 0, now.hour as int)
    } else {
        drawn(seed, l3, 1, 0, 24)
    };
    let hour = h as u32;
    let (mi, l5) = if year == now.year && month == now.month && day == now.day && hour == now.hour {
        drawn(seed, l4, 0, 0, now.minute as int)
    } else {
        drawn(seed, l4, 1, 0, 60)
    };
    let minute = mi as u32;
    let (se, l6) = if year == now.year && month == now.month && day == now.day && hour == now.hour
        && minute == now.minute {
        drawn(seed, l5, 0, 0, now.second as int)
    } else {
        drawn(seed, l5, 1, 0, 60)
    };
    (UtcDateTime { year, month, day, hour, minute, second: se as u32 }, l6)
}

/// An entry of a listing as plain values.
pub enum NodeView {
    File(Seq<char>, UtcDateTime, usize),
    Folder(Seq<char>, UtcDateTime),
}

/// The file drawn after `log`: base name, extension, time, size.
pub open spec fn file_model(seed: u64, log: DrawLog, now: UtcDateTime) -> (NodeView, DrawLog) {
    let (base, l1) = sized_text(seed, log, 4, 10);
    let (ext, l2) = sized_text(seed, l1, 1, 3);
    let (t, l3) = datetime_model(seed, l2, now);
    let (size, l4) = drawn(seed, l3, 2, 0, MAX_FILE_SIZE as int);
    (NodeView::File(base + "."@ + ext, t, size as usize), l4)
}

/// The folder drawn after `log`: name, time.
pub open spec fn folder_model(seed: u64, log: DrawLog, now: UtcDateTime) -> (NodeView, DrawLog) {
    let (name, l1) = sized_text(seed, log, 6, 15);
    let (t, l2) = datetime_model(seed, l1, now);
    (NodeView::Folder(name, t), l2)
}

/// `k` folders drawn one after another.
pub open spec fn folders_model(seed: u64, log: DrawLog, k: nat, now: UtcDateTime) -> (Seq<NodeView>, DrawLog)
    decreases k,
{
    if k == 0 {
        (Seq::empty(), log)
    } else {
        let (ns, l1) = folders_model(seed, log, (k - 1) as nat, now);
        let (n, l2) = folder_model(seed, l1, now);
        (ns.push(n), l2)
    }
}

/// `k` files drawn one after another.
pub open spec fn files_model(seed: u64, log: DrawLog, k: nat, now: UtcDateTime) -> (Seq<NodeView>, DrawLog)
    decreases k,
{
    if k == 0 {
        (Seq::empty(), log)
    } else {
        let (ns, l1) = files_model(seed, log, (k - 1) as nat, now);
        let (n, l2) = file_model(seed, l1, now);
        (ns.push(n), l2)
    }
}

/// The listing a generator seeded with `seed` gives at `now`: the number of
/// files, the number of folders, the folders, then the files.
pub open spec fn listing_of(seed: u64, now: UtcDateTime) -> Seq<NodeView> {
    let (files, l1) = drawn(seed, Seq::empty(), 0, 2, 8);
    let (folders, l2) = drawn(seed, l1, 0, 4, 15);
    let (fs, l3) = folders_model(seed, l2, folders as nat, now);
    let (gs, l4) = files_model(seed, l3, files as nat, now);
    fs + gs
}

/// An alphanumeric string whose length is drawn from `min..=max`.
fn string_of_size(g: &mut SeededRng, min: usize, max: usize) -> (r: String)
    requires
        min <= max,
    ensures
        min <= r@.len() <= max,
        all_alnum(r@),
        (r@, final(g).log()) == sized_text(old(g).seed(), old(g).log(), min as int, max as int),
        final(g).seed() == old(g).seed(),
{
    let size = rng_range_usize(g, min, max);
    alnum_string(g, size)
}

/// A plausible modification time: from the year 2000 up to `now`, drawn
/// field by field, each finer field bounded by `now` only while all coarser
/// fields equal those of `now`.
pub fn plausible_datetime(g: &mut SeededRng, now: &UtcDateTime) -> (r: UtcDateTime)
    requires
        now.wf(),
        now.year >= 2000,
    ensures
        r.wf(),
        r.year >= 2000,
        r.not_after(now),
        (r, final(g).log()) == datetime_model(old(g).seed(), old(g).log(), *now),
        final(g).seed() == old(g).seed(),
{
    let year = rng_range_u32(g, 2000, now.year as u32) as i32;
    let month = if year == now.year {
        rng_range_u32(g, 1, now.month)
    } else {
        rng_range_u32(g, 1, 12)
    };
    let day = if year == now.year && month == now.month {
        rng_range_u32(g, 1, now.day)
    } else {
        let days = match get_days_in_month(year, month) {
            Some(d) => d,
            None => {
                vstd::pervasive::unreached()
            }
        };
        rng_range_u32(g, 1, days)
    };
    let hour = if year == now.year && month == now.month && day == now.day {
        rng_range_u32(g, 0, now.hour)
    } else {
        rng_below_u32(g, 0, 24)
    };
    let minute = if year == now.year && month == now.month && day == now.day && hour == now.hour {
        rng_range_u32(g, 0, now.minute)
    } else {
        rng_below_u32(g, 0, 60)
    };
    let second = if year == now.year && month == now.month && day == now.day && hour == now.hour
        && minute == now.minute {
        rng_range_u32(g, 0, now.second)
    } else {
        rng_below_u32(g, 0, 60)
    };
    UtcDateTime { year, month, day, hour, minute, second }
}

/// The largest fake file size: 32 MiB.
pub const MAX_FILE_SIZE: usize = 33554432;

/// A made-up file.
#[derive(Debug, Clone)]
pub struct File {
    pub name: String,
    pub modified_at: UtcDateTime,
    pub size: usize,
}

/// A made-up folder.
#[derive(Debug, Clone)]
pub struct Folder {
    pub name: String,
    pub modified_at: UtcDateTime,
}

/// One entry of a fake listing.
#[derive(Debug, Clone)]
pub enum Node {
    File(File),
    Folder(Folder),
}

pub open spec fn node_view(n: Node) -> NodeView {
    match n {
        Node::File(f) => NodeView::File(f.name@, f.modified_at, f.size),
        Node::Folder(d) => NodeView::Folder(d.name@, d.modified_at),
    }
}

pub open spec fn nodes_view(ns: Seq<Node>) -> Seq<NodeView> {
    ns.map_values(|n: Node| node_view(n))
}

/// The name a node is linked by: a folder's ends with `/`.
pub open spec fn node_name(n: NodeView) -> Seq<char> {
    match n {
        NodeView::File(name, _, _) => name,
        NodeView::Folder(name, _) => name + "/"@,
    }
}

/// A time between the start of 2000 and `now`.
pub open spec fn plausible_time(t: UtcDateTime, now: UtcDateTime) -> bool {
    t.wf() && t.year >= 2000 && t.not_after(&now)
}

/// A file name: 4 to 10 letters or digits, a dot, 1 to 3 letters or digits.
pub open spec fn is_file_name(s: Seq<char>) -> bool {
    exists|i: int|
        4 <= i <= 10 && i + 2 <= s.len() <= i + 4 && s[i] == '.' && all_alnum(#[trigger] s.subrange(0, i))
            && all_alnum(s.subrange(i + 1, s.len() as int))
}

/// A fake file drawn as the generator draws it.
pub open spec fn file_ok(n: NodeView, now: UtcDateTime) -> bool {
    match n {
        NodeView::File(name, t, size) => is_file_name(name) && plausible_time(t, now) && size <= MAX_FILE_SIZE,
        NodeView::Folder(_, _) => false,
    }
}

/// A fake folder drawn as the generator draws it: 6 to 15 letters or digits.
pub open spec fn folder_ok(n: NodeView, now: UtcDateTime) -> bool {
    match n {
        NodeView::Folder(name, t) => 6 <= name.len() <= 15 && all_alnum(name) && plausible_time(t, now),
        NodeView::File(_, _, _) => false,
    }
}

/// A listing as the generator makes it: 4 to 15 folders, then 2 to 8 files.
pub open spec fn listing_ok(ns: Seq<NodeView>, now: UtcDateTime) -> bool {
    exists|folders: int| #[trigger] listing_split(ns, now, folders)
}

/// The first `folders` entries are folders, the rest files, in the counts
/// the generator draws.
pub open spec fn listing_split(ns: Seq<NodeView>, now: UtcDateTime, folders: int) -> bool {
    &&& 4 <= folders <= 15
    &&& 2 <= ns.len() - folders <= 8
    &&& forall|i: int| 0 <= i < folders ==> folder_ok(#[trigger] ns[i], now)
    &&& forall|i: int| folders <= i < ns.len() ==> file_ok(#[trigger] ns[i], now)
}

impl Node {
    /// The name the node is linked by.
    pub fn name(&self) -> (r: String)
        ensures
            r@ == node_name(node_view(*self)),
    {
        match self {
            Node::File(f) => f.name.as_str().to_owned(),
            Node::Folder(d) => {
                let mut n = d.name.as_str().to_owned();
                n.append("/");
                n
            }
        }
    }
}

fn fake_file(g: &mut SeededRng, now: &UtcDateTime) -> (r: Node)
    requires
        now.wf(),
        now.year >= 2000,
    ensures
        file_ok(node_view(r), *now),
        (node_view(r), final(g).log()) == file_model(old(g).seed(), old(g).log(), *now),
        final(g).seed() == old(g).seed(),
{
    let base = string_of_size(g, 4, 10);
    let ext = string_of_size(g, 1, 3);
    let mut name = base.as_str().to_owned();
    name.append(".");
    name.append(ext.as_str());
    proof {
        reveal_strlit(".");
        let i = base@.len() as int;
        assert(name@.subrange(0, i) =~= base@);
        assert(name@.subrange(i + 1, name@.len() as int) =~= ext@);
        assert(name@[i] == '.');
    }
    let modified_at = plausible_datetime(g, now);
    let size = rng_range_usize(g, 0, MAX_FILE_SIZE);
    Node::File(File { name, modified_at, size })
}

fn fake_folder(g: &mut SeededRng, now: &UtcDateTime) -> (r: Node)
    requires
        now.wf(),
        now.year >= 2000,
    ensures
        folder_ok(node_view(r), *now),
        (node_view(r), final(g).log()) == folder_model(old(g).seed(), old(g).log(), *now),
        final(g).seed() == old(g).seed(),
{
    let name = string_of_size(g, 6, 15);
    let modified_at = plausible_datetime(g, now);
    Node::Folder(Folder { name, modified_at })
}

/// The entries of the fake directory at `path`: the generator is seeded by
/// the hash of `seed` and `path`; folders come first, then files. The result
/// is fixed by `seed`, `path` and `now`.
pub fn gen_fake_nodes(seed: &str, path: &str, now: &UtcDateTime) -> (r: Vec<Node>)
    requires
        now.wf(),
        now.year >= 2000,
    ensures
        nodes_view(r@) == listing_of(seed_hash(seed@, path@), *now),
        listing_ok(nodes_view(r@), *now),
{
    let ghost s = seed_hash(seed@, path@);
    let mut g = SeededRng::new(hash_path_seed(seed, path));
    let files = rng_range_u32(&mut g, 2, 8);
    let folders = rng_range_u32(&mut g, 4, 15);
    let ghost l2 = g.log();
    let mut nodes: Vec<Node> = Vec::new();
    let mut i: u32 = 0;
    assert(nodes_view(nodes@) =~= Seq::<NodeView>::empty());
    while i < folders
        invariant
            i <= folders <= 15,
            nodes@.len() == i,
            now.wf(),
            now.year >= 2000,
            g.seed() == s,
            (nodes_view(nodes@), g.log()) == folders_model(s, l2, i as nat, *now),
            forall|j: int| 0 <= j < i ==> folder_ok(#[trigger] nodes_view(nodes@)[j], *now),
        decreases folders - i,
    {
        let ghost before = nodes@;
        let n = fake_folder(&mut g, now);
        nodes.push(n);
        assert(nodes_view(nodes@) =~= nodes_view(before).push(node_view(n)));
        i = i + 1;
    }
    let ghost fs = nodes_view(nodes@);
    let ghost l3 = g.log();
    let mut k: u32 = 0;
    assert(fs + Seq::<NodeView>::empty() =~= fs);
    while k < files
        invariant
            k <= files <= 8,
            4 <= folders <= 15,
            nodes@.len() == folders + k,
            now.wf(),
            now.year >= 2000,
            g.seed() == s,
            fs.len() == folders,
            nodes_view(nodes@) == fs + files_model(s, l3, k as nat, *now).0,
            g.log() == files_model(s, l3, k as nat, *now).1,
            forall|j: int| 0 <= j < folders ==> folder_ok(#[trigger] nodes_view(nodes@)[j], *now),
            forall|j: int| folders <= j < folders + k ==> file_ok(#[trigger] nodes_view(nodes@)[j], *now),
        decreases files - k,
    {
        let ghost before = nodes@;
        let n = fake_file(&mut g, now);
        nodes.push(n);
        assert(nodes_view(nodes@) =~= nodes_view(before).push(node_view(n)));
        k = k + 1;
        assert(nodes_view(nodes@) =~= fs + files_model(s, l3, k as nat, *now).0);
    }
    assert(listing_split(nodes_view(nodes@), *now, folders as int));
    nodes
}

/// The directory a listing is titled with: the path, ending in `/`.
pub open spec fn base_path(p: Seq<char>) -> Seq<char> {
    if p.len() == 0 {
        "/"@
    } else if p.last() == '/' {
        p
    } else {
        p + "/"@
    }
}

/// One linked entry of the listing.
pub open spec fn entry_html(name: Seq<char>) -> Seq<char> {
    "<span><a href=\""@ + escape_html(name) + "\">"@ + escape_html(name) + "</a>          \n</span>"@
}

pub open spec fn entries_html(ns: Seq<NodeView>) -> Seq<char>
    decreases ns.len(),
{
    if ns.len() == 0 {
        Seq::empty()
    } else {
        entries_html(ns.drop_last()) + entry_html(node_name(ns.last()))
    }
}

/// The listing document: a title and heading naming the directory, a link
/// to the parent, then one link per entry.
pub open spec fn listing_html(path: Seq<char>, ns: Seq<NodeView>) -> Seq<char> {
    "<!DOCTYPE html><html><head><title>Index of "@ + escape_html(base_path(path))
        + "</title><meta name=\"description\" content=\"Generated Directory Listing\"/></head><body><h1>Index of "@
        + escape_html(base_path(path)) + "</h1><hr/><pre><a href=\"../\">../</a>\n"@ + entries_html(ns)
        + "</pre><hr/></body></html>"@
}

/// Renders the listing of `nodes` for the directory at `path`.
pub fn render_listing(path: &str, nodes: &Vec<Node>) -> (r: String)
    ensures
        r@ == listing_html(path@, nodes_view(nodes@)),
{
    let mut base = path.to_owned();
    let p = to_chars(path);
    if p.len() == 0 {
        base.append("/");
        proof {
            reveal_strlit("/");
        }
        assert(base@ =~= "/"@);
    } else if p[p.len() - 1] != '/' {
        base.append("/");
    }
    assert(base@ == base_path(path@));
    let mut out = "<!DOCTYPE html><html><head><title>Index of ".to_owned();
    push_escaped(&mut out, base.as_str());
    out.append("</title><meta name=\"description\" content=\"Generated Directory Listing\"/></head><body><h1>Index of ");
    push_escaped(&mut out, base.as_str());
    out.append("</h1><hr/><pre><a href=\"../\">../</a>\n");
    let ghost head = out@;
    let mut i: usize = 0;
    assert(nodes_view(nodes@).subrange(0, 0) =~= Seq::<NodeView>::empty());
    while i < nodes.len()
        invariant
            i <= nodes@.len(),
            out@ == head + entries_html(nodes_view(nodes@).subrange(0, i as int)),
        decreases nodes@.len() - i,
    {
        let name = nodes[i].name();
        out.append("<span><a href=\"");
        push_escaped(&mut out, name.as_str());
        out.append("\">");
        push_escaped(&mut out, name.as_str());
        out.append("</a>          \n</span>");
        assert(nodes_view(nodes@).subrange(0, i + 1).drop_last() =~= nodes_view(nodes@).subrange(0, i as int));
        i = i + 1;
        assert(out@ =~= head + entries_html(nodes_view(nodes@).subrange(0, i as int)));
    }
    assert(nodes_view(nodes@).subrange(0, i as int) =~= nodes_view(nodes@));
    out.append("</pre><hr/></body></html>");
    assert(out@ =~= listing_html(path@, nodes_view(nodes@)));
    out
}

/// A listing response at instant `now`: status 200, the headers of `now`
/// with `Content-Type: text/html` and the body's length, the document as
/// body.
pub open spec fn listing_response(r: ResponseView, path: Seq<char>, ns: Seq<NodeView>, now: UtcDateTime) -> bool {
    r == (ResponseView {
        status: StatusCode::OK,
        headers: set_spec(
            add_spec(headers_at(now), "Content-Type"@, "text/html"@),
            "Content-Length"@,
            seq![decimal(vstd::utf8::encode_utf8(listing_html(path, ns)).len() as nat)],
        ),
        body: vstd::utf8::encode_utf8(listing_html(path, ns)),
        version: None,
    })
}

/// The fake listing of `path` as it stands at `now`.
pub fn gen_fake_listing_at<T: Clone>(out: T, seed: &str, path: &str, now: &UtcDateTime) -> (r: BaseResponse<T>)
    requires
        now.wf(),
        now.year >= 2000,
    ensures
        listing_response(r@, path@, listing_of(seed_hash(seed@, path@), *now), *now),
        listing_ok(listing_of(seed_hash(seed@, path@), *now), *now),
{
    let nodes = gen_fake_nodes(seed, path, now);
    let doc = render_listing(path, &nodes);
    let mut b = BaseResponseBuilder::ok_at(out, now);
    b.add_header("Content-Type", "text/html").body(doc.as_str().as_bytes());
    match b.build() {
        Ok(resp) => resp,
        Err(_) => {
            vstd::pervasive::unreached()
        }
    }
}

/// The fake listing of `path` as it stands now; none while the clock cannot
/// be read or reads a time before the year 2000.
pub fn gen_fake_listing<T: Clone>(out: T, seed: &str, path: &str) -> (r: Option<BaseResponse<T>>)
    ensures
        r matches Some(resp) ==> exists|now: UtcDateTime|
            now.wf() && now.year >= 2000 && #[trigger] listing_response(
                resp@,
                path@,
                listing_of(seed_hash(seed@, path@), now),
                now,
            ),
{
    let now = match utc_now() {
        Some(t) => t,
        None => return None,
    };
    if now.year < 2000 {
        return None;
    }
    let resp = gen_fake_listing_at(out, seed, path, &now);
    assert(now.wf() && now.year >= 2000 && listing_response(resp@, path@, listing_of(seed_hash(seed@, path@), now), now));
    let r = Some(resp);
    assert(r matches Some(x) && x@ == resp@);
    r
}

/// A listing is fixed by the seed, the path and the instant: two listing
/// responses for the same three are the same response and render to the
/// same text.
pub proof fn law_listing_is_fixed(seed: Seq<char>, path: Seq<char>, now: UtcDateTime, r1: ResponseView, r2: ResponseView)
    requires
        listing_response(r1, path, listing_of(seed_hash(seed, path), now), now),
        listing_response(r2, path, listing_of(seed_hash(seed, path), now), now),
    ensures
        r1 == r2,
        render_spec(r1) == render_spec(r2),
{
}

} // verus!
