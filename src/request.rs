//! Reading a request: a three-state reader (start line, headers, body)
//! that is fed one line at a time, and a driver that runs it over bytes.
use vstd::prelude::*;
use vstd::utf8::{decode_utf8, valid_utf8};
use crate::error::Error;
use crate::headers::{add_all_spec, list_delimiter, list_delimiter_spec, values_of, HeaderEntries, Headers};
use crate::text::{
    concat3, find_char, join, join_strings, find_spec, from_chars, lower_of, lowercase, parse_usize, parse_usize_spec,
    split_chars, split_either, split_either_spec, split_spec, str_eq, sub_chars, to_chars, trim, trim_spec, utf8_text,
};
use crate::uri::{opt_view, parse_url_spec, Url, UrlView};

verus! {

/// The request methods this reader knows.
#[derive(Debug, Clone, Copy, PartialEq, Eq, Structural)]
pub enum Method {
    GET,
    HEAD,
    POST,
    PUT,
    DELETE,
    CONNECT,
    OPTIONS,
    TRACE,
}

/// The method a token names, if any; the match is exact.
pub open spec fn method_spec(s: Seq<char>) -> Option<Method> {
    if s == "GET"@ { Some(Method::GET) }
    else if s == "HEAD"@ { Some(Method::HEAD) }
    else if s == "POST"@ { Some(Method::POST) }
    else if s == "PUT"@ { Some(Method::PUT) }
    else if s == "DELETE"@ { Some(Method::DELETE) }
    else if s == "CONNECT"@ { Some(Method::CONNECT) }
    else if s == "OPTIONS"@ { Some(Method::OPTIONS) }
    else if s == "TRACE"@ { Some(Method::TRACE) }
    else { None }
}

pub open spec fn method_name(m: Method) -> Seq<char> {
    match m {
        Method::GET => "GET"@,
        Method::HEAD => "HEAD"@,
        Method::POST => "POST"@,
        Method::PUT => "PUT"@,
        Method::DELETE => "DELETE"@,
        Method::CONNECT => "CONNECT"@,
        Method::OPTIONS => "OPTIONS"@,
        Method::TRACE => "TRACE"@,
    }
}

/// The methods whose requests never carry a body.
pub open spec fn is_bodiless(m: Method) -> bool {
    m == Method::GET || m == Method::HEAD || m == Method::DELETE || m == Method::CONNECT
        || m == Method::OPTIONS || m == Method::TRACE
}

impl Method {
    /// The method an exact token names.
    pub fn from_name(s: &str) -> (r: Option<Method>)
        ensures
            r == method_spec(s@),
    {
        if str_eq(s, "GET") { Some(Method::GET) }
        else if str_eq(s, "HEAD") { Some(Method::HEAD) }
        else if str_eq(s, "POST") { Some(Method::POST) }
        else if str_eq(s, "PUT") { Some(Method::PUT) }
        else if str_eq(s, "DELETE") { Some(Method::DELETE) }
        else if str_eq(s, "CONNECT") { Some(Method::CONNECT) }
        else if str_eq(s, "OPTIONS") { Some(Method::OPTIONS) }
        else if str_eq(s, "TRACE") { Some(Method::TRACE) }
        else { None }
    }

    /// The method's token.
    pub fn to_string(&self) -> (r: String)
        ensures
            r@ == method_name(*self),
    {
        let s = match self {
            Method::GET => "GET",
            Method::HEAD => "HEAD",
            Method::POST => "POST",
            Method::PUT => "PUT",
            Method::DELETE => "DELETE",
            Method::CONNECT => "CONNECT",
            Method::OPTIONS => "OPTIONS",
            Method::TRACE => "TRACE",
        };
        s.to_owned()
    }

    /// Whether requests with this method never carry a body.
    pub fn is_bodiless(&self) -> (r: bool)
        ensures
            r == is_bodiless(*self),
    {
        match self {
            Method::GET | Method::HEAD | Method::DELETE | Method::CONNECT | Method::OPTIONS
            | Method::TRACE => true,
            _ => false,
        }
    }
}

/// Where the reader stands.
#[derive(Debug, Clone, Copy, PartialEq, Eq, Structural)]
pub enum ReadState {
    StartLine,
    Headers,
    Done,
}

/// What the reader needs next: another line, a body of the given length,
/// or nothing more.
#[derive(Debug, Clone, Copy, PartialEq, Eq, Structural)]
pub enum Next {
    Line,
    Body(usize),
    Finished,
}

/// The abstract content of a reader.
pub struct ReaderView {
    pub state: ReadState,
    pub method: Option<Method>,
    pub path: Option<Seq<char>>,
    pub version: Option<Seq<char>>,
    pub headers: HeaderEntries,
    pub body_len: Option<usize>,
}

pub open spec fn initial_reader() -> ReaderView {
    ReaderView {
        state: ReadState::StartLine,
        method: None,
        path: None,
        version: None,
        headers: Seq::empty(),
        body_len: None,
    }
}

/// The start line: exactly three space-separated tokens, the first a known
/// method.
pub open spec fn start_line_spec(r: ReaderView, line: Seq<char>) -> Result<(ReaderView, Next), Error> {
    let f = split_spec(line, ' ');
    if f.len() != 3 {
        Err(Error::MalformedRequest)
    } else {
        match method_spec(f[0]) {
            None => Err(Error::MalformedRequest),
            Some(m) => Ok((
                ReaderView {
                    state: ReadState::Headers,
                    method: Some(m),
                    path: Some(f[1]),
                    version: Some(f[2]),
                    ..r
                },
                Next::Line,
            )),
        }
    }
}

/// The values one header line contributes: a known list header is split on
/// its delimiter and each piece trimmed; any other value stays whole.
pub open spec fn header_values_spec(name: Seq<char>, val: Seq<char>) -> Seq<Seq<char>> {
    match list_delimiter_spec(lower_of(name)) {
        Some(d) => split_spec(val, d).map_values(|p: Seq<char>| trim_spec(p)),
        None => seq![val],
    }
}

/// What follows the header block: nothing for a bodiless method, else the
/// declared body length if there is one.
pub open spec fn body_next(r: ReaderView) -> Next {
    match r.method {
        Some(m) => if is_bodiless(m) {
            Next::Finished
        } else {
            match r.body_len {
                Some(n) => Next::Body(n),
                None => Next::Finished,
            }
        },
        None => Next::Finished,
    }
}

/// The body length that `finish` expects.
pub open spec fn expected_body_len(r: ReaderView) -> nat {
    match body_next(r) {
        Next::Body(n) => n as nat,
        _ => 0,
    }
}

/// A header line: a line without `:` ends the block; otherwise the name is
/// what precedes the first `:`, the value what follows it, trimmed.
/// `Content-Length`, in any case, must be a decimal number.
pub open spec fn header_line_spec(r: ReaderView, line: Seq<char>) -> Result<(ReaderView, Next), Error> {
    match find_spec(line, ':') {
        None => Ok((ReaderView { state: ReadState::Done, ..r }, body_next(r))),
        Some(i) => {
            let name = line.subrange(0, i);
            let val = trim_spec(line.subrange(i + 1, line.len() as int));
            if lower_of(name) == "content-length"@ && parse_usize_spec(val) is None {
                Err(Error::MalformedRequest)
            } else {
                let body_len = if lower_of(name) == "content-length"@ {
                    parse_usize_spec(val)
                } else {
                    r.body_len
                };
                Ok((
                    ReaderView {
                        headers: add_all_spec(r.headers, name, header_values_spec(name, val)),
                        body_len,
                        ..r
                    },
                    Next::Line,
                ))
            }
        },
    }
}

/// One step of the reader on one line.
pub open spec fn step_spec(r: ReaderView, line: Seq<char>) -> Result<(ReaderView, Next), Error> {
    match r.state {
        ReadState::StartLine => start_line_spec(r, line),
        ReadState::Headers => header_line_spec(r, line),
        ReadState::Done => Err(Error::MalformedRequest),
    }
}

/// The abstract content of a request.
pub struct RequestView {
    pub headers: HeaderEntries,
    pub size: usize,
    pub body: Seq<u8>,
    pub method: Method,
    pub url: UrlView,
    pub version: Seq<char>,
    pub remote_ip: Seq<char>,
}

/// The text the URL is parsed from: `http://`, the first `Host` value, the path.
pub open spec fn url_text(host: Seq<char>, path: Seq<char>) -> Seq<char> {
    "http://"@ + host + path
}

/// Completes a request from a reader whose header block ended and the body
/// read for it. A missing `Host` header or a URL the `url` crate refuses
/// makes the request malformed.
pub open spec fn finish_spec(r: ReaderView, body: Seq<u8>, remote_ip: Seq<char>) -> Result<RequestView, Error> {
    if r.method is None || r.path is None {
        Err(Error::MalformedRequest)
    } else {
        match values_of(r.headers, "Host"@) {
            Some(vs) => if vs.len() == 0 {
                Err(Error::MalformedRequest)
            } else {
                match parse_url_spec(url_text(vs[0], r.path->0)) {
                    None => Err(Error::MalformedRequest),
                    Some(u) => Ok(RequestView {
                        headers: r.headers,
                        size: match r.body_len {
                            Some(n) => n,
                            None => 0,
                        },
                        body,
                        method: r.method->0,
                        url: u,
                        version: trim_spec(match r.version {
                            Some(v) => v,
                            None => Seq::empty(),
                        }),
                        remote_ip,
                    }),
                }
            },
            None => Err(Error::MalformedRequest),
        }
    }
}

/// Reads a request line by line.
pub struct RequestReader {
    state: ReadState,
    method: Option<Method>,
    path: Option<String>,
    version: Option<String>,
    headers: Headers,
    body_len: Option<usize>,
}

impl View for RequestReader {
    type V = ReaderView;

    closed spec fn view(&self) -> ReaderView {
        ReaderView {
            state: self.state,
            method: self.method,
            path: opt_view(self.path),
            version: opt_view(self.version),
            headers: self.headers@,
            body_len: self.body_len,
        }
    }
}

impl RequestReader {
    pub closed spec fn wf(&self) -> bool {
        &&& self.headers.wf()
        &&& self.state != ReadState::StartLine ==> self.method is Some && self.path is Some
    }

    /// A reader waiting for the start line.
    pub fn new() -> (r: Self)
        ensures
            r.wf(),
            r@ == initial_reader(),
    {
        RequestReader {
            state: ReadState::StartLine,
            method: None,
            path: None,
            version: None,
            headers: Headers::new(),
            body_len: None,
        }
    }

    /// Where the reader stands.
    pub fn state(&self) -> (r: ReadState)
        ensures
            r == self@.state,
    {
        self.state
    }

    fn next_after_headers(&self) -> (r: Next)
        ensures
            r == body_next(self@),
    {
        match self.method {
            Some(m) => if m.is_bodiless() {
                Next::Finished
            } else {
                match self.body_len {
                    Some(n) => Next::Body(n),
                    None => Next::Finished,
                }
            },
            None => Next::Finished,
        }
    }

    fn read_start_line(&mut self, line: &str) -> (r: Result<Next, Error>)
        requires
            old(self).wf(),
            old(self)@.state == ReadState::StartLine,
        ensures
            match r {
                Ok(n) => final(self).wf() && start_line_spec(old(self)@, line@) == Ok::<(ReaderView, Next), Error>((final(self)@, n)),
                Err(e) => start_line_spec(old(self)@, line@) == Err::<(ReaderView, Next), Error>(e),
            },
    {
        let chars = to_chars(line);
        let frags = split_chars(chars.as_slice(), ' ');
        let ghost f = split_spec(line@, ' ');
        if frags.len() != 3 {
            return Err(Error::MalformedRequest);
        }
        proof {
            assert(frags@[0].deep_view() =~= frags@[0]@);
            assert(frags@[1].deep_view() =~= frags@[1]@);
            assert(frags@[2].deep_view() =~= frags@[2]@);
            assert(f[0] == frags@[0]@);
        }
        let m = from_chars(frags[0].as_slice());
        let method = match Method::from_name(m.as_str()) {
            Some(method) => method,
            None => return Err(Error::MalformedRequest),
        };
        self.method = Some(method);
        self.path = Some(from_chars(frags[1].as_slice()));
        self.version = Some(from_chars(frags[2].as_slice()));
        self.state = ReadState::Headers;
        Ok(Next::Line)
    }

    fn read_header_line(&mut self, line: &str) -> (r: Result<Next, Error>)
        requires
            old(self).wf(),
            old(self)@.state == ReadState::Headers,
        ensures
            match r {
                Ok(n) => final(self).wf() && header_line_spec(old(self)@, line@) == Ok::<(ReaderView, Next), Error>((final(self)@, n)),
                Err(e) => header_line_spec(old(self)@, line@) == Err::<(ReaderView, Next), Error>(e),
            },
    {
        let chars = to_chars(line);
        let n = chars.len();
        let i = match find_char(chars.as_slice(), ':') {
            None => {
                let next = self.next_after_headers();
                self.state = ReadState::Done;
                return Ok(next);
            }
            Some(i) => i,
        };
        let ghost r0 = self@;
        let name_chars = sub_chars(chars.as_slice(), 0, i);
        let rest = sub_chars(chars.as_slice(), i + 1, n);
        let val = trim(rest.as_slice());
        let name = from_chars(name_chars.as_slice());
        let lower = lowercase(name.as_str());
        let is_length = str_eq(lower.as_str(), "content-length");
        if is_length {
            match parse_usize(val.as_slice()) {
                Some(len) => {
                    self.body_len = Some(len);
                }
                None => return Err(Error::MalformedRequest),
            }
        }
        let ghost vals = header_values_spec(name@, val@);
        let mut values: Vec<String> = Vec::new();
        match list_delimiter(lower.as_str()) {
            Some(d) => {
                let pieces = split_chars(val.as_slice(), d);
                let ghost ps = split_spec(val@, d);
                let mut j: usize = 0;
                while j < pieces.len()
                    invariant
                        j <= pieces@.len(),
                        pieces.deep_view() == ps,
                        values.deep_view() == ps.subrange(0, j as int).map_values(|p: Seq<char>| trim_spec(p)),
                    decreases pieces@.len() - j,
                {
                    let ghost before = values.deep_view();
                    let t = trim(pieces[j].as_slice());
                    let piece = from_chars(t.as_slice());
                    proof {
                        assert(pieces@[j as int].deep_view() =~= pieces@[j as int]@);
                    }
                    let ghost pv = piece@;
                    values.push(piece);
                    assert(values.deep_view() =~= before.push(pv));
                    j = j + 1;
                    assert(ps.subrange(0, j as int).map_values(|p: Seq<char>| trim_spec(p)) =~= ps.subrange(0, j - 1).map_values(|p: Seq<char>| trim_spec(p)).push(trim_spec(ps[j - 1])));
                }
                assert(ps.subrange(0, j as int) =~= ps);
            }
            None => {
                values.push(from_chars(val.as_slice()));
                assert(values.deep_view() =~= seq![val@]);
            }
        }
        assert(values.deep_view() == vals);
        let mut k: usize = 0;
        let ghost h0 = self.headers@;
        let ghost r1 = self@;
        while k < values.len()
            invariant
                k <= values@.len(),
                values.deep_view() == vals,
                self.headers.wf(),
                self.headers@ == add_all_spec(h0, name@, vals.subrange(0, k as int)),
                self.state == r1.state,
                self.method == r1.method,
                self.body_len == r1.body_len,
                opt_view(self.path) == r1.path,
                opt_view(self.version) == r1.version,
                self.method is Some && self.path is Some,
            decreases values@.len() - k,
        {
            self.headers.add(name.as_str(), values[k].as_str());
            assert(vals.subrange(0, k + 1).drop_last() =~= vals.subrange(0, k as int));
            k = k + 1;
        }
        assert(vals.subrange(0, k as int) =~= vals);
        proof {
            let body_len = if lower_of(name@) == "content-length"@ {
                parse_usize_spec(val@)
            } else {
                r0.body_len
            };
            assert(self@.body_len == body_len);
            assert(self@ == (ReaderView {
                headers: add_all_spec(r0.headers, name@, header_values_spec(name@, val@)),
                body_len,
                ..r0
            }));
        }
        Ok(Next::Line)
    }

    /// Feeds one line (with its line ending, if any) to the reader.
    pub fn feed_line(&mut self, line: &str) -> (r: Result<Next, Error>)
        requires
            old(self).wf(),
        ensures
            match r {
                Ok(n) => final(self).wf() && step_spec(old(self)@, line@) == Ok::<(ReaderView, Next), Error>((final(self)@, n)),
                Err(e) => step_spec(old(self)@, line@) == Err::<(ReaderView, Next), Error>(e),
            },
    {
        match self.state {
            ReadState::StartLine => self.read_start_line(line),
            ReadState::Headers => self.read_header_line(line),
            ReadState::Done => Err(Error::MalformedRequest),
        }
    }
}

/// A parsed request.
#[derive(Debug, Clone)]
pub struct Request {
    pub headers: Headers,
    pub size: usize,
    pub body: Vec<u8>,
    pub method: Method,
    pub url: Url,
    pub version: String,
    pub remote_ip: String,
}

impl View for Request {
    type V = RequestView;

    open spec fn view(&self) -> RequestView {
        RequestView {
            headers: self.headers@,
            size: self.size,
            body: self.body@,
            method: self.method,
            url: self.url@,
            version: self.version@,
            remote_ip: self.remote_ip@,
        }
    }
}

impl RequestReader {
    /// Completes the request once the header block has ended, with the body
    /// read for it and the peer address in text form.
    pub fn finish(self, body: Vec<u8>, remote_ip: String) -> (r: Result<Request, Error>)
        requires
            self.wf(),
            self@.state == ReadState::Done,
            body@.len() == expected_body_len(self@),
        ensures
            match r {
                Ok(req) => req.headers.wf() && finish_spec(self@, body@, remote_ip@) == Ok::<RequestView, Error>(req@),
                Err(e) => finish_spec(self@, body@, remote_ip@) == Err::<RequestView, Error>(e),
            },
    {
        let method = match self.method {
            Some(m) => m,
            None => return Err(Error::MalformedRequest),
        };
        let path = match &self.path {
            Some(p) => p,
            None => return Err(Error::MalformedRequest),
        };
        let host = match self.headers.get("Host") {
            Some(vs) => {
                if vs.len() == 0 {
                    return Err(Error::MalformedRequest);
                }
                assert(vs.deep_view()[0] == vs@[0]@);
                vs[0].as_str()
            }
            None => return Err(Error::MalformedRequest),
        };
        let text = concat3("http://", host, path.as_str());
        let url = match Url::parse(text.as_str()) {
            Some(u) => u,
            None => return Err(Error::MalformedRequest),
        };
        let version = match &self.version {
            Some(v) => {
                let t = trim(to_chars(v.as_str()).as_slice());
                from_chars(t.as_slice())
            }
            None => {
                proof {
                    assert(trim_spec(Seq::<char>::empty()) =~= Seq::<char>::empty());
                }
                String::new()
            }
        };
        let size = match self.body_len {
            Some(n) => n,
            None => 0,
        };
        Ok(Request { headers: self.headers, size, body, method, url, version, remote_ip })
    }
}

/// The end of the line that starts at `pos`: just past the first newline
/// byte, or the end of the input.
pub open spec fn line_end(input: Seq<u8>, pos: int) -> int
    decreases input.len() - pos,
{
    if pos >= input.len() {
        input.len() as int
    } else if input[pos] == 10u8 {
        pos + 1
    } else {
        line_end(input, pos + 1)
    }
}

proof fn lemma_line_end_bounds(input: Seq<u8>, pos: int)
    requires
        0 <= pos <= input.len(),
    ensures
        pos <= line_end(input, pos) <= input.len(),
        pos < input.len() ==> pos < line_end(input, pos),
    decreases input.len() - pos,
{
    if pos < input.len() && input[pos] != 10u8 {
        lemma_line_end_bounds(input, pos + 1);
    }
}

/// Runs the reader over the lines of `input` from `pos` until it asks for
/// something other than a line: the reader then, what it asks for, and
/// where the body starts. A line that is not UTF-8 is a transport failure,
/// as is input that ends while another line is wanted.
pub open spec fn drive_spec(input: Seq<u8>, pos: int, r: ReaderView) -> Result<(ReaderView, Next, int), Error>
    decreases input.len() - pos,
{
    if pos < 0 || pos > input.len() {
        Err(Error::Transport)
    } else {
        let end = line_end(input, pos);
        let bytes = input.subrange(pos, end);
        if !valid_utf8(bytes) {
            Err(Error::Transport)
        } else {
            match step_spec(r, decode_utf8(bytes)) {
                Err(e) => Err(e),
                Ok((r2, next)) => match next {
                    Next::Line => if pos < end && end <= input.len() {
                        drive_spec(input, end, r2)
                    } else {
                        Err(Error::Transport)
                    },
                    _ => Ok((r2, next, end)),
                },
            }
        }
    }
}

/// The request that `input`, the whole of what the peer sent, reads as:
/// the reader runs line by line, then exactly the declared body length is
/// taken; input that ends before the body does is a transport failure.
pub open spec fn parse_spec(input: Seq<u8>, remote_ip: Seq<char>) -> Result<RequestView, Error> {
    match drive_spec(input, 0, initial_reader()) {
        Err(e) => Err(e),
        Ok((r, next, end)) => match next {
            Next::Body(n) => if end + n > input.len() {
                Err(Error::Transport)
            } else {
                finish_spec(r, input.subrange(end, end + n), remote_ip)
            },
            _ => finish_spec(r, Seq::empty(), remote_ip),
        },
    }
}

fn find_line_end(input: &[u8], pos: usize) -> (r: usize)
    requires
        pos <= input@.len(),
    ensures
        r == line_end(input@, pos as int),
{
    let mut i = pos;
    while i < input.len() && input[i] != 10u8
        invariant
            pos <= i <= input@.len(),
            line_end(input@, pos as int) == line_end(input@, i as int),
        decreases input@.len() - i,
    {
        i = i + 1;
    }
    if i < input.len() {
        i + 1
    } else {
        i
    }
}

/// Reads a request from `input`, the bytes the peer sent up to the end of
/// the connection; `remote_ip` is the peer's address in text form.
pub fn parse_request(remote_ip: &str, input: &[u8]) -> (r: Result<Request, Error>)
    ensures
        match r {
            Ok(req) => req.headers.wf() && parse_spec(input@, remote_ip@) == Ok::<RequestView, Error>(req@),
            Err(e) => parse_spec(input@, remote_ip@) == Err::<RequestView, Error>(e),
        },
{
    let mut reader = RequestReader::new();
    let mut pos: usize = 0;
    let mut next = Next::Finished;
    loop
        invariant_except_break
            pos <= input@.len(),
            reader.wf(),
            drive_spec(input@, 0, initial_reader()) == drive_spec(input@, pos as int, reader@),
        ensures
            pos <= input@.len(),
            reader.wf(),
            reader@.state == ReadState::Done,
            next != Next::Line,
            next == body_next(reader@),
            drive_spec(input@, 0, initial_reader()) == Ok::<(ReaderView, Next, int), Error>((reader@, next, pos as int)),
        decreases input@.len() - pos,
    {
        let end = find_line_end(input, pos);
        proof {
            lemma_line_end_bounds(input@, pos as int);
        }
        let line = match utf8_text(vstd::slice::slice_subrange(input, pos, end)) {
            Some(t) => t,
            None => return Err(Error::Transport),
        };
        let ghost before = reader@;
        match reader.feed_line(line) {
            Err(e) => return Err(e),
            Ok(Next::Line) => {
                if pos == end {
                    return Err(Error::Transport);
                }
                pos = end;
            }
            Ok(n) => {
                next = n;
                pos = end;
                break;
            }
        }
    }
    let body = match next {
        Next::Body(n) => {
            if n > input.len() - pos {
                return Err(Error::Transport);
            }
            vstd::slice::slice_to_vec(vstd::slice::slice_subrange(input, pos, pos + n))
        }
        _ => Vec::new(),
    };
    reader.finish(body, remote_ip.to_owned())
}

/// The `for=` value of one `Forwarded` element, compared and returned in
/// lower case, trimmed.
pub open spec fn for_value(p: Seq<char>) -> Option<Seq<char>> {
    let lp = lower_of(p);
    match find_spec(lp, '=') {
        None => None,
        Some(i) => if trim_spec(lp.subrange(0, i)) == "for"@ {
            Some(trim_spec(lp.subrange(i + 1, lp.len() as int)))
        } else {
            None
        },
    }
}

/// The first `for=` value among the elements.
pub open spec fn first_for_value(ps: Seq<Seq<char>>) -> Option<Seq<char>>
    decreases ps.len(),
{
    if ps.len() == 0 {
        None
    } else {
        match for_value(ps[0]) {
            Some(v) => Some(v),
            None => first_for_value(ps.drop_first()),
        }
    }
}

/// The first value stored under `k`, if any.
pub open spec fn first_value(h: HeaderEntries, k: Seq<char>) -> Option<Seq<char>> {
    match values_of(h, k) {
        Some(vs) => if vs.len() > 0 { Some(vs[0]) } else { None },
        None => None,
    }
}

/// The address a request is attributed to: the first `for=` of the first
/// `Forwarded` value, else the first entry of the first `X-Forwarded-For`
/// value, else the peer address. Nothing is validated.
pub open spec fn requester_spec(h: HeaderEntries, remote_ip: Seq<char>) -> Seq<char> {
    let fwd = match first_value(h, "Forwarded"@) {
        Some(v) => first_for_value(split_either_spec(v, ',', ';')),
        None => None,
    };
    match fwd {
        Some(f) => f,
        None => match first_value(h, "X-Forwarded-For"@) {
            Some(v) => trim_spec(split_spec(v, ',')[0]),
            None => remote_ip,
        },
    }
}

fn first_header_value<'a>(h: &'a Headers, k: &str) -> (r: Option<&'a String>)
    requires
        h.wf(),
    ensures
        match r {
            Some(v) => first_value(h@, k@) == Some(v@),
            None => first_value(h@, k@) is None,
        },
{
    match h.get(k) {
        Some(vs) => {
            if vs.len() > 0 {
                assert(vs.deep_view()[0] == vs@[0]@);
                Some(&vs[0])
            } else {
                None
            }
        }
        None => None,
    }
}

fn for_value_of(p: &[char]) -> (r: Option<Vec<char>>)
    ensures
        match r {
            Some(v) => for_value(p@) == Some(v@),
            None => for_value(p@) is None,
        },
{
    let lower = lowercase(from_chars(p).as_str());
    let lp = to_chars(lower.as_str());
    match find_char(lp.as_slice(), '=') {
        None => None,
        Some(i) => {
            let k = trim(sub_chars(lp.as_slice(), 0, i).as_slice());
            let kt = from_chars(k.as_slice());
            if str_eq(kt.as_str(), "for") {
                let n = lp.len();
                Some(trim(sub_chars(lp.as_slice(), i + 1, n).as_slice()))
            } else {
                None
            }
        }
    }
}

impl Request {
    /// The proxy-aware address of the requester: `for=` in `Forwarded`,
    /// else `X-Forwarded-For`, else the peer address.
    pub fn requester(&self) -> (r: String)
        requires
            self.headers.wf(),
        ensures
            r@ == requester_spec(self.headers@, self.remote_ip@),
    {
        if let Some(v) = first_header_value(&self.headers, "Forwarded") {
            let pieces = split_either(to_chars(v.as_str()).as_slice(), ',', ';');
            let ghost ps = pieces.deep_view();
            let mut j: usize = 0;
            assert(ps.subrange(0, ps.len() as int) =~= ps);
            while j < pieces.len()
                invariant
                    j <= pieces@.len(),
                    ps == pieces.deep_view(),
                    ps == split_either_spec(v@, ',', ';'),
                    first_value(self.headers@, "Forwarded"@) == Some(v@),
                    first_for_value(ps) == first_for_value(ps.subrange(j as int, ps.len() as int)),
                decreases pieces@.len() - j,
            {
                proof {
                    assert(pieces@[j as int].deep_view() =~= pieces@[j as int]@);
                    let rest = ps.subrange(j as int, ps.len() as int);
                    assert(rest.drop_first() =~= ps.subrange(j + 1, ps.len() as int));
                }
                match for_value_of(pieces[j].as_slice()) {
                    Some(f) => return from_chars(f.as_slice()),
                    None => {}
                }
                j = j + 1;
            }
        }
        if let Some(v) = first_header_value(&self.headers, "X-Forwarded-For") {
            let pieces = split_chars(to_chars(v.as_str()).as_slice(), ',');
            proof {
                assert(pieces@[0].deep_view() =~= pieces@[0]@);
            }
            let t = trim(pieces[0].as_slice());
            return from_chars(t.as_slice());
        }
        self.remote_ip.as_str().to_owned()
    }
}

/// A `for=` in the first `Forwarded` value decides the requester, whatever
/// `X-Forwarded-For` says; without either header the peer address does.
pub proof fn law_requester_precedence(h: HeaderEntries, remote_ip: Seq<char>)
    ensures
        first_value(h, "Forwarded"@) matches Some(v) ==> (first_for_value(split_either_spec(v, ',', ';')) matches Some(f)
            ==> requester_spec(h, remote_ip) == f),
        first_value(h, "Forwarded"@) is None && first_value(h, "X-Forwarded-For"@) is None
            ==> requester_spec(h, remote_ip) == remote_ip,
{
}

proof fn lemma_drive_next(input: Seq<u8>, pos: int, r: ReaderView)
    ensures
        drive_spec(input, pos, r) matches Ok(t) ==> t.1 == body_next(t.0),
    decreases input.len() - pos,
{
    if 0 <= pos <= input.len() {
        let end = line_end(input, pos);
        let bytes = input.subrange(pos, end);
        if valid_utf8(bytes) {
            if let Ok((r2, next)) = step_spec(r, decode_utf8(bytes)) {
                if next == Next::Line {
                    if pos < end && end <= input.len() {
                        lemma_drive_next(input, end, r2);
                    }
                }
            }
        }
    }
}

/// Bodiless methods never get a body, whatever `Content-Length` says.
pub proof fn law_bodiless_requests_have_no_body(input: Seq<u8>, remote_ip: Seq<char>)
    ensures
        parse_spec(input, remote_ip) matches Ok(req) ==> (is_bodiless(req.method) ==> req.body.len() == 0),
{
    lemma_drive_next(input, 0, initial_reader());
    match drive_spec(input, 0, initial_reader()) {
        Err(_) => {},
        Ok((r, next, end)) => {
            match next {
                Next::Body(n) => {
                    if end + n <= input.len() {
                        if let Ok(req) = finish_spec(r, input.subrange(end, end + n), remote_ip) {
                            assert(req.method == r.method->0);
                        }
                    }
                },
                _ => {},
            }
        },
    }
}

/// The request written out for logs: `METHOD path version`, the header
/// block and an empty line, then the body text when the declared size is
/// not zero, joined by `\n\r`. A body that is not text cannot be written.
pub open spec fn request_text_spec(r: RequestView) -> Result<Seq<char>, Error> {
    let head = seq![
        method_name(r.method) + " "@ + r.url.path + " "@ + r.version,
        crate::headers::render_spec(r.headers),
        Seq::<char>::empty()
    ];
    if r.size == 0 {
        Ok(join(head, "\n\r"@))
    } else if valid_utf8(r.body) {
        Ok(join(head.push(decode_utf8(r.body)), "\n\r"@))
    } else {
        Err(Error::BodyEncoding)
    }
}

impl Request {
    /// The request written out for logs.
    pub fn to_string(&self) -> (r: Result<String, Error>)
        ensures
            match r {
                Ok(s) => request_text_spec(self@) == Ok::<Seq<char>, Error>(s@),
                Err(e) => request_text_spec(self@) == Err::<Seq<char>, Error>(e),
            },
    {
        let mut first = self.method.to_string();
        first.append(" ");
        first.append(self.url.path());
        first.append(" ");
        first.append(self.version.as_str());
        let ghost fv = first@;
        assert(fv =~= method_name(self@.method) + " "@ + self@.url.path + " "@ + self@.version);
        let mut lines: Vec<String> = Vec::new();
        lines.push(first);
        let hs = self.headers.to_string();
        let ghost hv = hs@;
        lines.push(hs);
        let empty = String::new();
        lines.push(empty);
        let ghost head = lines.deep_view();
        assert(head =~= seq![fv, hv, Seq::<char>::empty()]);
        if self.size > 0 {
            match utf8_text(self.body.as_slice()) {
                Some(t) => {
                    lines.push(t.to_owned());
                    assert(lines.deep_view() =~= head.push(decode_utf8(self@.body)));
                }
                None => return Err(Error::BodyEncoding),
            }
        }
        Ok(join_strings(&lines, "\n\r"))
    }
}

impl std::str::FromStr for Method {
    type Err = Error;

    fn from_str(s: &str) -> (r: Result<Method, Error>)
        ensures
            r == (match method_spec(s@) {
                Some(m) => Ok::<Method, Error>(m),
                None => Err(Error::MalformedRequest),
            }),
    {
        match Method::from_name(s) {
            Some(m) => Ok(m),
            None => Err(Error::MalformedRequest),
        }
    }
}

} // verus!
