//! An ordered multi-value header map.
use vstd::prelude::*;
use crate::text::{concat3, join, join_strings, lower_of, lowercase, str_eq};

verus! {

/// The abstract content of a header map: the names in order of first
/// addition, each with its values in order of addition.
pub type HeaderEntries = Seq<(Seq<char>, Seq<Seq<char>>)>;

/// Whether `k` is among the names of `e`.
pub open spec fn has_key(e: HeaderEntries, k: Seq<char>) -> bool {
    exists|i: int| 0 <= i < e.len() && #[trigger] e[i].0 == k
}

/// The position of `k` among the names of `e`.
pub open spec fn key_index(e: HeaderEntries, k: Seq<char>) -> int
    recommends
        has_key(e, k),
{
    choose|i: int| 0 <= i < e.len() && #[trigger] e[i].0 == k
}

/// No name stands twice.
pub open spec fn keys_unique(e: HeaderEntries) -> bool {
    forall|i: int, j: int| 0 <= i < e.len() && 0 <= j < e.len() && #[trigger] e[i].0 == #[trigger] e[j].0 ==> i == j
}

/// The values stored under `k`.
pub open spec fn values_of(e: HeaderEntries, k: Seq<char>) -> Option<Seq<Seq<char>>> {
    if has_key(e, k) {
        Some(e[key_index(e, k)].1)
    } else {
        None
    }
}

/// The content after appending `v` under `k`: a known name keeps its place
/// and gains `v` at the end of its values; a new name goes last.
pub open spec fn add_spec(e: HeaderEntries, k: Seq<char>, v: Seq<char>) -> HeaderEntries {
    if has_key(e, k) {
        let i = key_index(e, k);
        e.update(i, (k, e[i].1.push(v)))
    } else {
        e.push((k, seq![v]))
    }
}

/// The content after appending each of `vs` under `k`, in order.
pub open spec fn add_all_spec(e: HeaderEntries, k: Seq<char>, vs: Seq<Seq<char>>) -> HeaderEntries
    decreases vs.len(),
{
    if vs.len() == 0 {
        e
    } else {
        add_spec(add_all_spec(e, k, vs.drop_last()), k, vs.last())
    }
}

/// The content after `k` has been given exactly the values `vs`.
pub open spec fn set_spec(e: HeaderEntries, k: Seq<char>, vs: Seq<Seq<char>>) -> HeaderEntries {
    if has_key(e, k) {
        e.update(key_index(e, k), (k, vs))
    } else {
        e.push((k, vs))
    }
}

/// The value sequence stored under `k`, or none at all.
pub open spec fn values_or_empty(e: HeaderEntries, k: Seq<char>) -> Seq<Seq<char>> {
    match values_of(e, k) {
        Some(vs) => vs,
        None => Seq::empty(),
    }
}

/// The text lines that one name and its values render to: one line per
/// value, except that a known list header joins its values on one line with
/// its delimiter. A name without values renders nothing.
pub open spec fn entry_lines(k: Seq<char>, vs: Seq<Seq<char>>) -> Seq<Seq<char>> {
    if vs.len() == 0 {
        Seq::empty()
    } else if vs.len() == 1 {
        seq![k + ": "@ + vs[0]]
    } else {
        match list_delimiter_spec(lower_of(k)) {
            Some(d) => seq![k + ": "@ + join(vs, seq![d])],
            None => vs.map_values(|v: Seq<char>| k + ": "@ + v),
        }
    }
}

/// The lines of all entries, in order.
pub open spec fn header_lines(e: HeaderEntries) -> Seq<Seq<char>>
    decreases e.len(),
{
    if e.len() == 0 {
        Seq::empty()
    } else {
        header_lines(e.drop_last()) + entry_lines(e.last().0, e.last().1)
    }
}

/// The rendered header block: the lines joined by newlines.
pub open spec fn render_spec(e: HeaderEntries) -> Seq<char> {
    join(header_lines(e), "\n"@)
}

/// The join delimiter of the known list headers, by lower-case name.
pub open spec fn list_delimiter_spec(n: Seq<char>) -> Option<char> {
    if n == "cookie"@ || n == "content-type"@ || n == "prefer"@ {
        Some(';')
    } else if n == "a-im"@ || n == "accept"@ || n == "accept-charset"@ || n == "accept-encoding"@
        || n == "accept-language"@ || n == "access-control-request-headers"@
        || n == "cache-control"@ || n == "connection"@ || n == "content-encoding"@
        || n == "expect"@ || n == "forwarded"@ || n == "if-match"@ || n == "if-none-match"@
        || n == "range"@ || n == "te"@ || n == "trailer"@ || n == "transfer-encoding"@
        || n == "upgrade"@ || n == "via"@ || n == "warning"@ || n == "x-forwarded-for"@ {
        Some(',')
    } else {
        None
    }
}

/// Looks a lower-case header name up in the table of list headers.
pub fn list_delimiter(n: &str) -> (r: Option<char>)
    ensures
        r == list_delimiter_spec(n@),
{
    if str_eq(n, "cookie") || str_eq(n, "content-type") || str_eq(n, "prefer") {
        return Some(';');
    }
    if str_eq(n, "a-im")
        || str_eq(n, "accept")
        || str_eq(n, "accept-charset")
        || str_eq(n, "accept-encoding")
        || str_eq(n, "accept-language")
        || str_eq(n, "access-control-request-headers")
        || str_eq(n, "cache-control")
        || str_eq(n, "connection")
        || str_eq(n, "content-encoding")
        || str_eq(n, "expect")
        || str_eq(n, "forwarded")
        || str_eq(n, "if-match")
        || str_eq(n, "if-none-match")
        || str_eq(n, "range")
        || str_eq(n, "te")
        || str_eq(n, "trailer")
        || str_eq(n, "transfer-encoding")
        || str_eq(n, "upgrade")
        || str_eq(n, "via")
        || str_eq(n, "warning")
        || str_eq(n, "x-forwarded-for") {
        Some(',')
    } else {
        None
    }
}

/// Headers are key-value with multiple values. Adding a value never
/// overwrites earlier ones under the same name: it is appended.
#[derive(Debug, Clone)]
pub struct Headers {
    entries: Vec<(String, Vec<String>)>,
}

pub open spec fn entries_view(v: Seq<(String, Vec<String>)>) -> HeaderEntries {
    Seq::new(v.len(), |i: int| (v[i].0@, v[i].1.deep_view()))
}

impl View for Headers {
    type V = HeaderEntries;

    closed spec fn view(&self) -> HeaderEntries {
        entries_view(self.entries@)
    }
}

/// Pushes the rendered lines of one name and its values.
pub(crate) fn push_entry_lines(lines: &mut Vec<String>, k: &str, vs: &Vec<String>)
    ensures
        final(lines).deep_view() == old(lines).deep_view() + entry_lines(k@, vs.deep_view()),
{
    let ghost start = lines.deep_view();
    let ghost vv = vs.deep_view();
    if vs.len() == 0 {
        assert(entry_lines(k@, vv) =~= Seq::<Seq<char>>::empty());
        assert(lines.deep_view() =~= start + entry_lines(k@, vv));
        return;
    }
    if vs.len() == 1 {
        lines.push(concat3(k, ": ", vs[0].as_str()));
        assert(lines.deep_view() =~= start + entry_lines(k@, vv));
        return;
    }
    let lower = lowercase(k);
    match list_delimiter(lower.as_str()) {
        Some(d) => {
            let mut sep = String::new();
            crate::text::push_char(&mut sep, d);
            assert(sep@ =~= seq![d]);
            let joined = join_strings(vs, sep.as_str());
            lines.push(concat3(k, ": ", joined.as_str()));
            assert(lines.deep_view() =~= start + entry_lines(k@, vv));
        }
        None => {
            let mut i: usize = 0;
            while i < vs.len()
                invariant
                    i <= vs@.len(),
                    vv == vs.deep_view(),
                    lines.deep_view() == start + vv.subrange(0, i as int).map_values(
                        |v: Seq<char>| k@ + ": "@ + v,
                    ),
                decreases vs@.len() - i,
            {
                let ghost prev = vv.subrange(0, i as int).map_values(|v: Seq<char>| k@ + ": "@ + v);
                let ghost before = lines.deep_view();
                let line = concat3(k, ": ", vs[i].as_str());
                let ghost lv = line@;
                lines.push(line);
                assert(lines.deep_view() =~= before.push(lv));
                i = i + 1;
                assert(vv.subrange(0, i as int).map_values(|v: Seq<char>| k@ + ": "@ + v) =~= prev.push(
                    k@ + ": "@ + vv[i - 1],
                ));
                assert(lines.deep_view() =~= start + vv.subrange(0, i as int).map_values(
                    |v: Seq<char>| k@ + ": "@ + v,
                ));
            }
            assert(vv.subrange(0, i as int) =~= vv);
        }
    }
}

impl Default for Headers {
    fn default() -> (r: Self)
        ensures
            r.wf(),
            r@ == Seq::<(Seq<char>, Seq<Seq<char>>)>::empty(),
    {
        Headers::new()
    }
}

impl Headers {
    pub open spec fn wf(&self) -> bool {
        keys_unique(self@)
    }

    pub fn new() -> (r: Self)
        ensures
            r.wf(),
            r@ == Seq::<(Seq<char>, Seq<Seq<char>>)>::empty(),
    {
        let r = Headers { entries: Vec::new() };
        assert(r@ =~= Seq::<(Seq<char>, Seq<Seq<char>>)>::empty());
        r
    }

    fn find(&self, k: &str) -> (r: Option<usize>)
        ensures
            match r {
                Some(i) => i < self@.len() && self@[i as int].0 == k@,
                None => !has_key(self@, k@),
            },
    {
        let mut i: usize = 0;
        while i < self.entries.len()
            invariant
                i <= self.entries@.len(),
                forall|j: int| 0 <= j < i ==> self@[j].0 != k@,
            decreases self.entries@.len() - i,
        {
            if str_eq(self.entries[i].0.as_str(), k) {
                return Some(i);
            }
            i = i + 1;
        }
        None
    }

    /// The values stored under `key`, in order of addition.
    pub fn get(&self, key: &str) -> (r: Option<&Vec<String>>)
        requires
            self.wf(),
        ensures
            match r {
                Some(vs) => values_of(self@, key@) == Some(vs.deep_view()),
                None => values_of(self@, key@) is None,
            },
    {
        match self.find(key) {
            Some(i) => {
                assert(self@[i as int].0 == key@);
                Some(&self.entries[i].1)
            }
            None => None,
        }
    }

    /// The number of distinct names.
    pub fn len(&self) -> (r: usize)
        ensures
            r == self@.len(),
    {
        self.entries.len()
    }

    /// Appends `v` to the values under `k`, keeping every earlier value.
    pub fn add(&mut self, k: &str, v: &str) -> (r: &mut Self)
        requires
            old(self).wf(),
        ensures
            r.wf(),
            r@ == add_spec(old(self)@, k@, v@),
            *final(self) == *final(r),
    {
        let ghost e = self@;
        match self.find(k) {
            Some(i) => {
                let ghost old_vals = self.entries@[i as int].1;
                self.entries[i].1.push(v.to_owned());
                proof {
                    assert(has_key(e, k@));
                    let j = key_index(e, k@);
                    assert(e[j].0 == k@);
                    assert(j == i);
                    assert(self.entries@[i as int].1.deep_view() =~= old_vals.deep_view().push(v@));
                    assert(self@ =~= add_spec(e, k@, v@));
                }
            }
            None => {
                let mut vs: Vec<String> = Vec::new();
                vs.push(v.to_owned());
                self.entries.push((k.to_owned(), vs));
                proof {
                    assert(vs.deep_view() =~= seq![v@]);
                    assert(self@ =~= add_spec(e, k@, v@));
                    assert forall|a: int, b: int|
                        0 <= a < self@.len() && 0 <= b < self@.len() && #[trigger] self@[a].0
                            == #[trigger] self@[b].0 implies a == b by {
                        if a < e.len() && b < e.len() {
                        } else if a < e.len() {
                            assert(e[a].0 == k@);
                        } else if b < e.len() {
                            assert(e[b].0 == k@);
                        }
                    }
                }
            }
        }
        self
    }

    /// The insert-or-append position for `key`: its values, after an empty
    /// value list has been put in place if the name was new.
    pub fn entry(&mut self, key: String) -> (r: &mut Vec<String>)
        requires
            old(self).wf(),
        ensures
            r.deep_view() == values_or_empty(old(self)@, key@),
            final(self).wf(),
            final(self)@ == set_spec(old(self)@, key@, final(r).deep_view()),
    {
        let ghost e = self@;
        let i = match self.find(key.as_str()) {
            Some(i) => {
                proof {
                    let j = key_index(e, key@);
                    assert(e[j].0 == key@);
                    assert(j == i);
                }
                i
            }
            None => {
                let ghost k = key@;
                let vs: Vec<String> = Vec::new();
                assert(vs.deep_view() =~= Seq::<Seq<char>>::empty());
                self.entries.push((key, vs));
                proof {
                    assert(self@ =~= e.push((k, Seq::<Seq<char>>::empty())));
                    assert forall|a: int, b: int|
                        0 <= a < self@.len() && 0 <= b < self@.len() && #[trigger] self@[a].0
                            == #[trigger] self@[b].0 implies a == b by {
                        if a < e.len() && b < e.len() {
                        } else if a < e.len() {
                            assert(e[a].0 == k);
                        } else if b < e.len() {
                            assert(e[b].0 == k);
                        }
                    }
                    assert(self.entries@.last().1.deep_view() =~= Seq::<Seq<char>>::empty());
                }
                self.entries.len() - 1
            }
        };
        proof {
            let ent = self.entries@;
            let cur = self@;
            assert forall|x: Vec<String>|
                #![trigger ent.update(i as int, (ent[i as int].0, x))]
                entries_view(ent.update(i as int, (ent[i as int].0, x))) =~= cur.update(
                    i as int,
                    (cur[i as int].0, x.deep_view()),
                ) by {}
        }
        &mut self.entries[i].1
    }

    /// The values under `key`, open for change in place.
    pub fn get_mut(&mut self, key: &str) -> (r: Option<&mut Vec<String>>)
        requires
            old(self).wf(),
        ensures
            final(self).wf(),
            match r {
                Some(vs) => {
                    &&& values_of(old(self)@, key@) == Some(vs.deep_view())
                    &&& final(self)@ == set_spec(old(self)@, key@, final(vs).deep_view())
                },
                None => {
                    &&& values_of(old(self)@, key@) is None
                    &&& final(self)@ == old(self)@
                },
            },
    {
        let ghost e = self@;
        match self.find(key) {
            Some(i) => {
                proof {
                    let j = key_index(e, key@);
                    assert(e[j].0 == key@);
                    assert(j == i);
                    let ent = self.entries@;
                    let cur = self@;
                    assert forall|x: Vec<String>|
                        #![trigger ent.update(i as int, (ent[i as int].0, x))]
                        entries_view(ent.update(i as int, (ent[i as int].0, x))) =~= cur.update(
                            i as int,
                            (cur[i as int].0, x.deep_view()),
                        ) by {}
                }
                Some(&mut self.entries[i].1)
            }
            None => None,
        }
    }

    /// Gives `key` exactly the values `vs`, in place of any it had.
    pub fn set(&mut self, key: &str, vs: Vec<String>)
        requires
            old(self).wf(),
        ensures
            final(self).wf(),
            final(self)@ == set_spec(old(self)@, key@, vs.deep_view()),
    {
        let slot = self.entry(key.to_owned());
        *slot = vs;
    }

    /// The entries in order: each name with its values.
    pub fn iter(&self) -> (r: &[(String, Vec<String>)])
        requires
            self.wf(),
        ensures
            entries_view(r@) == self@,
            keys_unique(entries_view(r@)),
    {
        self.entries.as_slice()
    }

    /// Renders the header block: one `Name: value` line per value, a known
    /// list header joined onto one line by its delimiter, lines separated by
    /// newlines.
    pub fn to_string(&self) -> (r: String)
        ensures
            r@ == render_spec(self@),
    {
        let mut lines: Vec<String> = Vec::new();
        let mut i: usize = 0;
        assert(lines.deep_view() =~= header_lines(self@.subrange(0, 0)));
        while i < self.entries.len()
            invariant
                i <= self.entries@.len(),
                lines.deep_view() == header_lines(self@.subrange(0, i as int)),
            decreases self.entries@.len() - i,
        {
            push_entry_lines(&mut lines, self.entries[i].0.as_str(), &self.entries[i].1);
            i = i + 1;
            assert(self@.subrange(0, i as int).drop_last() =~= self@.subrange(0, i as int - 1));
        }
        assert(self@.subrange(0, i as int) =~= self@);
        join_strings(&lines, "\n")
    }

    /// Renders the header block, consuming the map.
    pub fn into_string(self) -> (r: String)
        ensures
            r@ == render_spec(self@),
    {
        self.to_string()
    }

    /// The name and values at position `i`.
    pub fn entry_at(&self, i: usize) -> (r: (&str, &Vec<String>))
        requires
            i < self@.len(),
        ensures
            r.0@ == self@[i as int].0,
            r.1.deep_view() == self@[i as int].1,
    {
        (self.entries[i].0.as_str(), &self.entries[i].1)
    }

    /// A copy holding the same names and values.
    pub fn duplicate(&self) -> (r: Headers)
        ensures
            r@ == self@,
            r.wf() == self.wf(),
    {
        let mut entries: Vec<(String, Vec<String>)> = Vec::new();
        let mut i: usize = 0;
        while i < self.entries.len()
            invariant
                i <= self.entries@.len(),
                entries_view(entries@) == self@.subrange(0, i as int),
            decreases self.entries@.len() - i,
        {
            let vs = &self.entries[i].1;
            let mut copy: Vec<String> = Vec::new();
            let mut j: usize = 0;
            while j < vs.len()
                invariant
                    j <= vs@.len(),
                    copy.deep_view() == vs.deep_view().subrange(0, j as int),
                decreases vs@.len() - j,
            {
                let ghost before = copy.deep_view();
                let v = vs[j].as_str().to_owned();
                let ghost vv = v@;
                copy.push(v);
                assert(copy.deep_view() =~= before.push(vv));
                j = j + 1;
                assert(copy.deep_view() =~= vs.deep_view().subrange(0, j as int));
            }
            assert(vs.deep_view().subrange(0, j as int) =~= vs.deep_view());
            let ghost before = entries@;
            let name = self.entries[i].0.as_str().to_owned();
            let ghost item = (name@, copy.deep_view());
            entries.push((name, copy));
            assert(entries_view(entries@) =~= entries_view(before).push(item));
            i = i + 1;
            assert(entries_view(entries@) =~= self@.subrange(0, i as int));
        }
        assert(self@.subrange(0, i as int) =~= self@);
        Headers { entries }
    }
}

/// Adding a value never overwrites: the values under `k` gain `v` at the
/// end, every other name keeps its values, and names stay unique.
pub proof fn law_add_never_overwrites(e: HeaderEntries, k: Seq<char>, v: Seq<char>)
    requires
        keys_unique(e),
    ensures
        keys_unique(add_spec(e, k, v)),
        values_of(add_spec(e, k, v), k) == Some(values_or_empty(e, k).push(v)),
        forall|o: Seq<char>| o != k ==> values_of(add_spec(e, k, v), o) == values_of(e, o),
{
    let a = add_spec(e, k, v);
    if has_key(e, k) {
        let i = key_index(e, k);
        assert(a[i].0 == k);
        assert(has_key(a, k));
        let j = key_index(a, k);
        assert(a[j].0 == k);
        assert(e[j].0 == k);
        assert(j == i);
        assert forall|o: Seq<char>| o != k implies values_of(a, o) == values_of(e, o) by {
            if has_key(e, o) {
                let p = key_index(e, o);
                assert(a[p].0 == o);
                assert(has_key(a, o));
                let q = key_index(a, o);
                assert(e[q].0 == o);
            } else {
                if has_key(a, o) {
                    let q = key_index(a, o);
                    assert(e[q].0 == o);
                }
            }
        }
    } else {
        assert(a[e.len() as int].0 == k);
        assert(has_key(a, k));
        let j = key_index(a, k);
        if j < e.len() {
            assert(e[j].0 == k);
        }
        assert(values_or_empty(e, k) =~= Seq::<Seq<char>>::empty());
        assert(seq![v] =~= Seq::<Seq<char>>::empty().push(v));
        assert forall|x: int, y: int|
            0 <= x < a.len() && 0 <= y < a.len() && #[trigger] a[x].0 == #[trigger] a[y].0 implies x == y by {
            if x < e.len() && y < e.len() {
            } else if x < e.len() {
                assert(e[x].0 == k);
            } else if y < e.len() {
                assert(e[y].0 == k);
            }
        }
        assert forall|o: Seq<char>| o != k implies values_of(a, o) == values_of(e, o) by {
            if has_key(e, o) {
                let p = key_index(e, o);
                assert(a[p].0 == o);
                assert(has_key(a, o));
                let q = key_index(a, o);
                if q < e.len() {
                    assert(e[q].0 == o);
                }
            } else {
                if has_key(a, o) {
                    let q = key_index(a, o);
                    assert(e[q].0 == o);
                }
            }
        }
    }
}

/// Two values added under a new name are both kept, in order.
pub proof fn law_two_adds_keep_both(e: HeaderEntries, k: Seq<char>, v1: Seq<char>, v2: Seq<char>)
    requires
        keys_unique(e),
        !has_key(e, k),
    ensures
        values_of(add_spec(add_spec(e, k, v1), k, v2), k) == Some(seq![v1, v2]),
{
    law_add_never_overwrites(e, k, v1);
    law_add_never_overwrites(add_spec(e, k, v1), k, v2);
    assert(values_or_empty(e, k) =~= Seq::<Seq<char>>::empty());
    assert(Seq::<Seq<char>>::empty().push(v1).push(v2) =~= seq![v1, v2]);
}

/// Setting the values of a name gives exactly those values, and names stay
/// unique.
pub proof fn lemma_set_values(e: HeaderEntries, k: Seq<char>, vs: Seq<Seq<char>>)
    requires
        keys_unique(e),
    ensures
        keys_unique(set_spec(e, k, vs)),
        values_of(set_spec(e, k, vs), k) == Some(vs),
{
    let a = set_spec(e, k, vs);
    if has_key(e, k) {
        let i = key_index(e, k);
        assert(a[i].0 == k);
        let j = key_index(a, k);
        assert(e[j].0 == k);
    } else {
        assert(a[e.len() as int].0 == k);
        let j = key_index(a, k);
        if j < e.len() {
            assert(e[j].0 == k);
        }
        assert forall|x: int, y: int|
            0 <= x < a.len() && 0 <= y < a.len() && #[trigger] a[x].0 == #[trigger] a[y].0 implies x == y by {
            if x < e.len() && y < e.len() {
            } else if x < e.len() {
                assert(e[x].0 == k);
            } else if y < e.len() {
                assert(e[y].0 == k);
            }
        }
    }
}

/// A name with exactly one value renders to the line `Name: value`.
pub proof fn lemma_single_value_line(e: HeaderEntries, i: int)
    requires
        0 <= i < e.len(),
        e[i].1.len() == 1,
    ensures
        header_lines(e).contains(e[i].0 + ": "@ + e[i].1[0]),
    decreases e.len(),
{
    let line = e[i].0 + ": "@ + e[i].1[0];
    let prev = header_lines(e.drop_last());
    if i == e.len() - 1 {
        assert(entry_lines(e.last().0, e.last().1) == seq![line]);
        assert(header_lines(e)[prev.len() as int] == line);
    } else {
        lemma_single_value_line(e.drop_last(), i);
        let j = choose|j: int| 0 <= j < prev.len() && prev[j] == line;
        assert(header_lines(e)[j] == line);
    }
}

/// The names after an addition: the old ones and the added one.
pub proof fn lemma_keys_after_add(e: HeaderEntries, k: Seq<char>, v: Seq<char>, o: Seq<char>)
    ensures
        has_key(add_spec(e, k, v), o) <==> (has_key(e, o) || o == k),
{
    let a = add_spec(e, k, v);
    if has_key(e, k) {
        let i = key_index(e, k);
        if has_key(e, o) {
            let p = key_index(e, o);
            assert(a[p].0 == o);
        }
        if has_key(a, o) {
            let q = key_index(a, o);
            assert(e[q].0 == o || q == i);
        }
        assert(a[i].0 == k);
    } else {
        if has_key(e, o) {
            let p = key_index(e, o);
            assert(a[p].0 == o);
        }
        if has_key(a, o) {
            let q = key_index(a, o);
            if q < e.len() {
                assert(e[q].0 == o);
            }
        }
        assert(a[e.len() as int].0 == k);
    }
}

/// The names after setting the values of one: the old ones and that one.
pub proof fn lemma_keys_after_set(e: HeaderEntries, k: Seq<char>, vs: Seq<Seq<char>>, o: Seq<char>)
    ensures
        has_key(set_spec(e, k, vs), o) <==> (has_key(e, o) || o == k),
{
    let a = set_spec(e, k, vs);
    if has_key(e, k) {
        let i = key_index(e, k);
        if has_key(e, o) {
            let p = key_index(e, o);
            assert(a[p].0 == o);
        }
        if has_key(a, o) {
            let q = key_index(a, o);
            assert(e[q].0 == o || q == i);
        }
        assert(a[i].0 == k);
    } else {
        if has_key(e, o) {
            let p = key_index(e, o);
            assert(a[p].0 == o);
        }
        if has_key(a, o) {
            let q = key_index(a, o);
            if q < e.len() {
                assert(e[q].0 == o);
            }
        }
        assert(a[e.len() as int].0 == k);
    }
}

} // verus!
