//! The response model: status codes, a builder, and the wire rendering.
use vstd::prelude::*;
use crate::clock::{epoch, http_date, http_date_of, utc_now, UtcDateTime};
use crate::headers::{lemma_single_value_line, header_lines, push_entry_lines, add_all_spec, add_spec, has_key, key_index, keys_unique, lemma_set_values, values_of, list_delimiter, list_delimiter_spec, HeaderEntries, Headers, set_spec};
use crate::error::{BuildError, Error};
use crate::text::{law_decimal_round_trip, parse_usize_spec, utf8_text, concat3, join, join_strings, lower_of, lowercase, push_decimal, decimal};
use vstd::utf8::{decode_utf8, valid_utf8};

verus! {

/// The status codes this server answers with.
#[derive(Debug, Clone, Copy, PartialEq, Eq, Structural)]
pub enum StatusCode {
    OK,
    Created,
    Accepted,
    NoContent,
    MovedPermanently,
    Found,
    SeeOther,
    TemporaryRedirect,
    PermanentRedirect,
    BadRequest,
    Unauthorized,
    Forbidden,
    NotFound,
    MethodNotAllowed,
    RequestTimeout,
    Gone,
    LengthRequired,
    PayloadTooLarge,
    ImATeapot,
    InternalServerError,
    NotImplemented,
    HTTPVersionNotSupported,
}

/// The numeric code of each status.
pub open spec fn code_spec(s: StatusCode) -> u16 {
    match s {
        StatusCode::OK => 200,
        StatusCode::Created => 201,
        StatusCode::Accepted => 202,
        StatusCode::NoContent => 204,
        StatusCode::MovedPermanently => 301,
        StatusCode::Found => 302,
        StatusCode::SeeOther => 303,
        StatusCode::TemporaryRedirect => 307,
        StatusCode::PermanentRedirect => 308,
        StatusCode::BadRequest => 400,
        StatusCode::Unauthorized => 401,
        StatusCode::Forbidden => 403,
        StatusCode::NotFound => 404,
        StatusCode::MethodNotAllowed => 405,
        StatusCode::RequestTimeout => 408,
        StatusCode::Gone => 410,
        StatusCode::LengthRequired => 411,
        StatusCode::PayloadTooLarge => 413,
        StatusCode::ImATeapot => 418,
        StatusCode::InternalServerError => 500,
        StatusCode::NotImplemented => 501,
        StatusCode::HTTPVersionNotSupported => 505,
    }
}

/// The status with numeric code `c`, if there is one.
pub open spec fn from_code_spec(c: int) -> Option<StatusCode> {
    if c == 200 { Some(StatusCode::OK) }
    else if c == 201 { Some(StatusCode::Created) }
    else if c == 202 { Some(StatusCode::Accepted) }
    else if c == 204 { Some(StatusCode::NoContent) }
    else if c == 301 { Some(StatusCode::MovedPermanently) }
    else if c == 302 { Some(StatusCode::Found) }
    else if c == 303 { Some(StatusCode::SeeOther) }
    else if c == 307 { Some(StatusCode::TemporaryRedirect) }
    else if c == 308 { Some(StatusCode::PermanentRedirect) }
    else if c == 400 { Some(StatusCode::BadRequest) }
    else if c == 401 { Some(StatusCode::Unauthorized) }
    else if c == 403 { Some(StatusCode::Forbidden) }
    else if c == 404 { Some(StatusCode::NotFound) }
    else if c == 405 { Some(StatusCode::MethodNotAllowed) }
    else if c == 408 { Some(StatusCode::RequestTimeout) }
    else if c == 410 { Some(StatusCode::Gone) }
    else if c == 411 { Some(StatusCode::LengthRequired) }
    else if c == 413 { Some(StatusCode::PayloadTooLarge) }
    else if c == 418 { Some(StatusCode::ImATeapot) }
    else if c == 500 { Some(StatusCode::InternalServerError) }
    else if c == 501 { Some(StatusCode::NotImplemented) }
    else if c == 505 { Some(StatusCode::HTTPVersionNotSupported) }
    else { None }
}

/// The reason phrase of each status.
pub open spec fn reason_spec(s: StatusCode) -> Seq<char> {
    match s {
        StatusCode::OK => "OK"@,
        StatusCode::Created => "Created"@,
        StatusCode::Accepted => "Accepted"@,
        StatusCode::NoContent => "No Content"@,
        StatusCode::MovedPermanently => "Moved Permanently"@,
        StatusCode::Found => "Found"@,
        StatusCode::SeeOther => "See Other"@,
        StatusCode::TemporaryRedirect => "Temporary Redirect"@,
        StatusCode::PermanentRedirect => "Permanent Redirect"@,
        StatusCode::BadRequest => "BadRequest"@,
        StatusCode::Unauthorized => "Unauthorized"@,
        StatusCode::Forbidden => "Forbidden"@,
        StatusCode::NotFound => "Not Found"@,
        StatusCode::MethodNotAllowed => "Method Not Allowed"@,
        StatusCode::RequestTimeout => "Request Timeout"@,
        StatusCode::Gone => "Gone"@,
        StatusCode::LengthRequired => "Length Required"@,
        StatusCode::PayloadTooLarge => "Payload Too Large"@,
        StatusCode::ImATeapot => "Im A Teapot"@,
        StatusCode::InternalServerError => "Internal Server Error"@,
        StatusCode::NotImplemented => "Not Implemented"@,
        StatusCode::HTTPVersionNotSupported => "HTTP Version not Supported"@,
    }
}

impl Default for StatusCode {
    fn default() -> (r: Self)
        ensures
            r == StatusCode::OK,
    {
        StatusCode::OK
    }
}

impl StatusCode {
    /// The numeric code.
    pub fn code(&self) -> (r: u16)
        ensures
            r == code_spec(*self),
    {
        match self {
            StatusCode::OK => 200,
            StatusCode::Created => 201,
            StatusCode::Accepted => 202,
            StatusCode::NoContent => 204,
            StatusCode::MovedPermanently => 301,
            StatusCode::Found => 302,
            StatusCode::SeeOther => 303,
            StatusCode::TemporaryRedirect => 307,
            StatusCode::PermanentRedirect => 308,
            StatusCode::BadRequest => 400,
            StatusCode::Unauthorized => 401,
            StatusCode::Forbidden => 403,
            StatusCode::NotFound => 404,
            StatusCode::MethodNotAllowed => 405,
            StatusCode::RequestTimeout => 408,
            StatusCode::Gone => 410,
            StatusCode::LengthRequired => 411,
            StatusCode::PayloadTooLarge => 413,
            StatusCode::ImATeapot => 418,
            StatusCode::InternalServerError => 500,
            StatusCode::NotImplemented => 501,
            StatusCode::HTTPVersionNotSupported => 505,
        }
    }

    /// The status with numeric code `c`; none for a code outside the set.
    pub fn from_code(c: i64) -> (r: Option<StatusCode>)
        ensures
            r == from_code_spec(c as int),
    {
        if c == 200 { Some(StatusCode::OK) }
        else if c == 201 { Some(StatusCode::Created) }
        else if c == 202 { Some(StatusCode::Accepted) }
        else if c == 204 { Some(StatusCode::NoContent) }
        else if c == 301 { Some(StatusCode::MovedPermanently) }
        else if c == 302 { Some(StatusCode::Found) }
        else if c == 303 { Some(StatusCode::SeeOther) }
        else if c == 307 { Some(StatusCode::TemporaryRedirect) }
        else if c == 308 { Some(StatusCode::PermanentRedirect) }
        else if c == 400 { Some(StatusCode::BadRequest) }
        else if c == 401 { Some(StatusCode::Unauthorized) }
        else if c == 403 { Some(StatusCode::Forbidden) }
        else if c == 404 { Some(StatusCode::NotFound) }
        else if c == 405 { Some(StatusCode::MethodNotAllowed) }
        else if c == 408 { Some(StatusCode::RequestTimeout) }
        else if c == 410 { Some(StatusCode::Gone) }
        else if c == 411 { Some(StatusCode::LengthRequired) }
        else if c == 413 { Some(StatusCode::PayloadTooLarge) }
        else if c == 418 { Some(StatusCode::ImATeapot) }
        else if c == 500 { Some(StatusCode::InternalServerError) }
        else if c == 501 { Some(StatusCode::NotImplemented) }
        else if c == 505 { Some(StatusCode::HTTPVersionNotSupported) }
        else { None }
    }

    /// The reason phrase.
    pub fn to_string(&self) -> (r: String)
        ensures
            r@ == reason_spec(*self),
    {
        let s = match self {
            StatusCode::OK => "OK",
            StatusCode::Created => "Created",
            StatusCode::Accepted => "Accepted",
            StatusCode::NoContent => "No Content",
            StatusCode::MovedPermanently => "Moved Permanently",
            StatusCode::Found => "Found",
            StatusCode::SeeOther => "See Other",
            StatusCode::TemporaryRedirect => "Temporary Redirect",
            StatusCode::PermanentRedirect => "Permanent Redirect",
            StatusCode::BadRequest => "BadRequest",
            StatusCode::Unauthorized => "Unauthorized",
            StatusCode::Forbidden => "Forbidden",
            StatusCode::NotFound => "Not Found",
            StatusCode::MethodNotAllowed => "Method Not Allowed",
            StatusCode::RequestTimeout => "Request Timeout",
            StatusCode::Gone => "Gone",
            StatusCode::LengthRequired => "Length Required",
            StatusCode::PayloadTooLarge => "Payload Too Large",
            StatusCode::ImATeapot => "Im A Teapot",
            StatusCode::InternalServerError => "Internal Server Error",
            StatusCode::NotImplemented => "Not Implemented",
            StatusCode::HTTPVersionNotSupported => "HTTP Version not Supported",
        };
        s.to_owned()
    }
}

/// The abstract content of a built response.
pub struct ResponseView {
    pub status: StatusCode,
    pub headers: HeaderEntries,
    pub body: Seq<u8>,
    pub version: Option<Seq<char>>,
}

/// The protocol version written on the status line.
pub open spec fn version_text(v: Option<Seq<char>>) -> Seq<char> {
    match v {
        Some(t) => t,
        None => "HTTP/1.1"@,
    }
}

/// `<version> <code> <reason>`.
pub open spec fn status_line(v: Option<Seq<char>>, s: StatusCode) -> Seq<char> {
    version_text(v) + " "@ + decimal(code_spec(s) as nat) + " "@ + reason_spec(s)
}

/// The header lines on the wire: the header map's own rendering, one line
/// per value except that a known list header joins its values with its
/// delimiter.
pub open spec fn wire_header_lines(e: HeaderEntries) -> Seq<Seq<char>> {
    header_lines(e)
}

/// The whole response text: status line, header lines, an empty line and
/// the body, joined by CRLF.
pub open spec fn wire_text(r: ResponseView, body: Seq<char>) -> Seq<char> {
    join(
        seq![status_line(r.version, r.status)] + wire_header_lines(r.headers) + seq![""@, body],
        "\r\n"@,
    )
}

/// What rendering gives: the text, or a body-encoding failure when the body
/// is not UTF-8.
pub open spec fn render_spec(r: ResponseView) -> Result<Seq<char>, Error> {
    if valid_utf8(r.body) {
        Ok(wire_text(r, decode_utf8(r.body)))
    } else {
        Err(Error::BodyEncoding)
    }
}

/// A response that was built: status, headers, body and an optional
/// protocol version, with the connection it goes out on.
#[derive(Debug, Clone)]
pub struct BaseResponse<T> {
    output: T,
    status_code: StatusCode,
    body: Vec<u8>,
    headers: Headers,
    version: Option<String>,
}

impl<T> View for BaseResponse<T> {
    type V = ResponseView;

    closed spec fn view(&self) -> ResponseView {
        ResponseView {
            status: self.status_code,
            headers: self.headers@,
            body: self.body@,
            version: match self.version {
                Some(v) => Some(v@),
                None => None,
            },
        }
    }
}

impl<T> BaseResponse<T> {
    /// No header name stands twice.
    pub open spec fn wf(&self) -> bool {
        keys_unique(self@.headers)
    }

    /// Renders the response for the wire.
    pub fn to_string(&self) -> (r: Result<String, Error>)
        ensures
            match r {
                Ok(s) => render_spec(self@) == Ok::<Seq<char>, Error>(s@),
                Err(e) => render_spec(self@) == Err::<Seq<char>, Error>(e),
            },
    {
        let text = match utf8_text(self.body.as_slice()) {
            Some(t) => t,
            None => return Err(Error::BodyEncoding),
        };
        let mut lines: Vec<String> = Vec::new();
        let mut status = match &self.version {
            Some(v) => v.as_str().to_owned(),
            None => "HTTP/1.1".to_owned(),
        };
        status.append(" ");
        push_decimal(&mut status, self.status_code.code() as usize);
        status.append(" ");
        let reason = self.status_code.to_string();
        status.append(reason.as_str());
        lines.push(status);
        let ghost e = self.headers@;
        let entries = &self.headers;
        assert(lines.deep_view() =~= seq![status_line(self@.version, self@.status)]);
        let mut i: usize = 0;
        assert(e.subrange(0, 0) =~= Seq::<(Seq<char>, Seq<Seq<char>>)>::empty());
        while i < entries.len()
            invariant
                i <= e.len(),
                e == self@.headers,
                entries@ == e,
                lines.deep_view() == seq![status_line(self@.version, self@.status)]
                    + header_lines(e.subrange(0, i as int)),
            decreases e.len() - i,
        {
            let (k, vs) = entries.entry_at(i);
            let ghost before = lines.deep_view();
            push_entry_lines(&mut lines, k, vs);
            assert(e.subrange(0, i + 1).drop_last() =~= e.subrange(0, i as int));
            i = i + 1;
            assert(lines.deep_view() =~= seq![status_line(self@.version, self@.status)]
                + header_lines(e.subrange(0, i as int)));
        }
        assert(e.subrange(0, i as int) =~= e);
        let ghost before = lines.deep_view();
        let empty = String::new();
        proof {
            reveal_strlit("");
        }
        assert(empty@ =~= ""@);
        lines.push(empty);
        let body_text = text.to_owned();
        let ghost bv = body_text@;
        lines.push(body_text);
        assert(lines.deep_view() =~= before.push(""@).push(bv));
        assert(lines.deep_view() =~= seq![status_line(self@.version, self@.status)]
            + wire_header_lines(e) + seq![""@, decode_utf8(self@.body)]);
        Ok(join_strings(&lines, "\r\n"))
    }

    /// Renders the response for the wire, consuming it.
    pub fn into_string(self) -> (r: Result<String, Error>)
        ensures
            match r {
                Ok(s) => render_spec(self@) == Ok::<Seq<char>, Error>(s@),
                Err(e) => render_spec(self@) == Err::<Seq<char>, Error>(e),
            },
    {
        self.to_string()
    }

    /// The rendered response as UTF-8 bytes.
    pub fn as_bytes(&self) -> (r: Result<Vec<u8>, Error>)
        ensures
            match r {
                Ok(b) => render_spec(self@) matches Ok(s) && b@ == vstd::utf8::encode_utf8(s),
                Err(e) => render_spec(self@) == Err::<Seq<char>, Error>(e),
            },
    {
        match self.to_string() {
            Ok(s) => Ok(s.as_str().as_bytes_vec()),
            Err(e) => Err(e),
        }
    }

    /// The status.
    pub fn status_code(&self) -> (r: StatusCode)
        ensures
            r == self@.status,
    {
        self.status_code
    }

    /// The body length in bytes.
    pub fn len(&self) -> (r: usize)
        ensures
            r == self@.body.len(),
    {
        self.body.len()
    }

    /// The headers.
    pub fn headers(&self) -> (r: &Headers)
        ensures
            r@ == self@.headers,
            self.wf() ==> r.wf(),
    {
        &self.headers
    }

    /// The body bytes.
    pub fn body(&self) -> (r: &[u8])
        ensures
            r@ == self@.body,
    {
        self.body.as_slice()
    }

    /// The connection the response goes out on.
    pub fn output(&self) -> &T {
        &self.output
    }
}

/// The abstract content of a response builder.
pub struct BuilderView {
    pub has_output: bool,
    pub status: Option<StatusCode>,
    pub body: Option<Seq<u8>>,
    pub headers: HeaderEntries,
    pub version: Option<Seq<char>>,
}

/// The headers a response starts with at instant `t`: the server name,
/// then the date in the HTTP date format.
pub open spec fn headers_at(t: UtcDateTime) -> HeaderEntries {
    seq![("Server"@, seq!["httpot"@]), ("Date"@, seq![http_date_of(t)])]
}

/// The headers every response starts with, at some valid instant.
pub open spec fn default_headers_spec(h: HeaderEntries) -> bool {
    exists|t: UtcDateTime| t.wf() && h == #[trigger] headers_at(t)
}

/// The server identification and the date of `now`.
fn default_headers_at(now: &UtcDateTime) -> (h: Headers)
    ensures
        h.wf(),
        h@ == headers_at(*now),
{
    let mut h = Headers::new();
    h.add("Server", "httpot");
    let date = http_date(now);
    proof {
        reveal_strlit("Server");
        reveal_strlit("Date");
        assert(!has_key(Seq::<(Seq<char>, Seq<Seq<char>>)>::empty(), "Server"@));
        assert(h@ =~= seq![("Server"@, seq!["httpot"@])]);
        assert("Server"@.len() != "Date"@.len());
        assert(!has_key(h@, "Date"@));
    }
    h.add("Date", date.as_str());
    assert(h@ =~= headers_at(*now));
    h
}

/// The instant the clock reads, or the start of 1970 where it cannot be read.
fn clock_or_epoch() -> (r: UtcDateTime)
    ensures
        r.wf(),
{
    match utc_now() {
        Some(t) => t,
        None => epoch(),
    }
}

/// Stages a response: fields are set one by one, then checked by `build`.
pub struct BaseResponseBuilder<T> {
    output: Option<T>,
    status_code: Option<StatusCode>,
    body: Option<Vec<u8>>,
    headers: Headers,
    version: Option<String>,
}

impl<T> View for BaseResponseBuilder<T> {
    type V = BuilderView;

    closed spec fn view(&self) -> BuilderView {
        BuilderView {
            has_output: self.output is Some,
            status: self.status_code,
            body: match self.body {
                Some(b) => Some(b@),
                None => None,
            },
            headers: self.headers@,
            version: match self.version {
                Some(v) => Some(v@),
                None => None,
            },
        }
    }
}

/// What `build` gives for a builder with content `b`.
pub open spec fn build_spec(b: BuilderView) -> Result<ResponseView, Error> {
    if !b.has_output {
        Err(Error::Build(BuildError::MissingOutput))
    } else if b.status is None {
        Err(Error::Build(BuildError::MissingStatusCode))
    } else if b.body is None {
        Err(Error::Build(BuildError::MissingBody))
    } else {
        Ok(
            ResponseView {
                status: b.status->0,
                headers: b.headers,
                body: b.body->0,
                version: b.version,
            },
        )
    }
}

impl<T> BaseResponseBuilder<T> {
    pub open spec fn wf(&self) -> bool {
        keys_unique(self@.headers)
    }

    /// A builder for `out` with the headers of instant `now` and nothing
    /// else set.
    pub fn default_at(out: T, now: &UtcDateTime) -> (r: Self)
        ensures
            r.wf(),
            r@.has_output,
            r@.status is None,
            r@.body is None,
            r@.version is None,
            r@.headers == headers_at(*now),
    {
        BaseResponseBuilder {
            output: Some(out),
            status_code: None,
            body: None,
            headers: default_headers_at(now),
            version: None,
        }
    }

    /// A builder with status 200 and the headers of instant `now`.
    pub fn ok_at(out: T, now: &UtcDateTime) -> (r: Self)
        ensures
            r.wf(),
            r@.has_output,
            r@.status == Some(StatusCode::OK),
            r@.body is None,
            r@.version is None,
            r@.headers == headers_at(*now),
    {
        let mut s = Self::default_at(out, now);
        s.status_code = Some(StatusCode::OK);
        s
    }

    /// A builder for `out` with the default headers, dated by the clock, and
    /// nothing else set.
    pub fn default(out: T) -> (r: Self)
        ensures
            r.wf(),
            r@.has_output,
            r@.status is None,
            r@.body is None,
            r@.version is None,
            default_headers_spec(r@.headers),
    {
        let now = clock_or_epoch();
        let r = Self::default_at(out, &now);
        assert(default_headers_spec(r@.headers));
        r
    }

    /// A builder with status 200.
    pub fn ok(out: T) -> (r: Self)
        ensures
            r.wf(),
            r@.has_output,
            r@.status == Some(StatusCode::OK),
            r@.body is None,
            r@.version is None,
            default_headers_spec(r@.headers),
    {
        let mut s = Self::default(out);
        s.status_code = Some(StatusCode::OK);
        s
    }

    /// A builder with status 404.
    pub fn not_found(out: T) -> (r: Self)
        ensures
            r.wf(),
            r@.has_output,
            r@.status == Some(StatusCode::NotFound),
            r@.body is None,
            r@.version is None,
            default_headers_spec(r@.headers),
    {
        let mut s = Self::default(out);
        s.status_code = Some(StatusCode::NotFound);
        s
    }

    /// Sets the connection the response goes out on.
    pub fn output(&mut self, out: T) -> (r: &mut Self)
        requires
            old(self).wf(),
        ensures
            r.wf(),
            r@ == (BuilderView { has_output: true, ..old(self)@ }),
            *final(self) == *final(r),
    {
        self.output = Some(out);
        self
    }

    /// Appends `value` to the header `name`.
    pub fn add_header(&mut self, name: &str, value: &str) -> (r: &mut Self)
        requires
            old(self).wf(),
        ensures
            r.wf(),
            r@ == (BuilderView { headers: add_spec(old(self)@.headers, name@, value@), ..old(self)@ }),
            *final(self) == *final(r),
    {
        self.headers.add(name, value);
        self
    }

    /// Appends each of `values` to the header `name`, in order.
    pub fn add_headers(&mut self, name: &str, values: Vec<&str>) -> (r: &mut Self)
        requires
            old(self).wf(),
        ensures
            r.wf(),
            r@ == (BuilderView {
                headers: add_all_spec(old(self)@.headers, name@, values@.map_values(|v: &str| v@)),
                ..old(self)@
            }),
            *final(self) == *final(r),
    {
        let ghost vs = values@.map_values(|v: &str| v@);
        let mut i: usize = 0;
        while i < values.len()
            invariant
                i <= values@.len(),
                vs == values@.map_values(|v: &str| v@),
                self.wf(),
                self@ == (BuilderView {
                    headers: add_all_spec(old(self)@.headers, name@, vs.subrange(0, i as int)),
                    ..old(self)@
                }),
            decreases values@.len() - i,
        {
            self.headers.add(name, values[i]);
            assert(vs.subrange(0, i + 1).drop_last() =~= vs.subrange(0, i as int));
            i = i + 1;
        }
        assert(vs.subrange(0, i as int) =~= vs);
        self
    }

    /// Sets the status by its numeric code; an unknown code leaves the
    /// status unset, so that `build` fails.
    pub fn status_code(&mut self, status: i64) -> (r: &mut Self)
        requires
            old(self).wf(),
        ensures
            r.wf(),
            r@ == (BuilderView { status: from_code_spec(status as int), ..old(self)@ }),
            *final(self) == *final(r),
    {
        self.status_code = StatusCode::from_code(status);
        self
    }

    /// Sets the protocol version written on the status line.
    pub fn version(&mut self, v: &str) -> (r: &mut Self)
        requires
            old(self).wf(),
        ensures
            r.wf(),
            r@ == (BuilderView { version: Some(v@), ..old(self)@ }),
            *final(self) == *final(r),
    {
        self.version = Some(v.to_owned());
        self
    }

    /// Sets the body, and `Content-Length` to exactly its length in bytes.
    pub fn body(&mut self, body: &[u8]) -> (r: &mut Self)
        requires
            old(self).wf(),
        ensures
            r.wf(),
            r@ == (BuilderView {
                body: Some(body@),
                headers: set_spec(
                    old(self)@.headers,
                    "Content-Length"@,
                    seq![decimal(body@.len() as nat)],
                ),
                ..old(self)@
            }),
            *final(self) == *final(r),
    {
        let b = vstd::slice::slice_to_vec(body);
        let len = b.len();
        self.body = Some(b);
        let mut n = String::new();
        push_decimal(&mut n, len);
        let mut vs: Vec<String> = Vec::new();
        vs.push(n);
        assert(vs.deep_view() =~= seq![decimal(body@.len() as nat)]);
        self.headers.set("Content-Length", vs);
        self
    }

    /// Checks that output, status and body were given, in that order, and
    /// makes the response.
    pub fn build(&self) -> (r: Result<BaseResponse<T>, Error>)
        where
            T: Clone,
        requires
            self.wf(),
        ensures
            match r {
                Ok(resp) => build_spec(self@) == Ok::<ResponseView, Error>(resp@) && resp.wf(),
                Err(e) => build_spec(self@) == Err::<ResponseView, Error>(e),
            },
    {
        let output = match &self.output {
            Some(o) => o.clone(),
            None => return Err(Error::Build(BuildError::MissingOutput)),
        };
        let status_code = match self.status_code {
            Some(s) => s,
            None => return Err(Error::Build(BuildError::MissingStatusCode)),
        };
        let body = match &self.body {
            Some(b) => vstd::slice::slice_to_vec(b.as_slice()),
            None => return Err(Error::Build(BuildError::MissingBody)),
        };
        let version = match &self.version {
            Some(v) => Some(v.as_str().to_owned()),
            None => None,
        };
        let resp = BaseResponse { output, status_code, body, headers: self.headers.duplicate(), version };
        assert(resp@.version == self@.version);
        Ok(resp)
    }
}

/// Every status reads back from its own numeric code.
pub proof fn lemma_code_round_trip(s: StatusCode)
    ensures
        from_code_spec(code_spec(s) as int) == Some(s),
{
}

/// What one write attempt on the connection reported.
#[derive(Debug, Clone, Copy, PartialEq, Eq, Structural)]
pub enum WriteOutcome {
    /// This many bytes were taken.
    Wrote(usize),
    /// The connection was not ready; wait until it is writable.
    WouldBlock,
    /// Any other failure.
    Failed,
}

/// What the write loop does next.
#[derive(Debug, Clone, Copy, PartialEq, Eq, Structural)]
pub enum SendStep {
    /// Wait until writable, then write from this offset.
    Continue(usize),
    /// Everything was written.
    Done,
    /// Give up with this error.
    Abort(Error),
}

/// The write loop's decision after an attempt at `offset` of `total` bytes.
pub open spec fn send_step_spec(total: usize, offset: usize, outcome: WriteOutcome) -> SendStep {
    match outcome {
        WriteOutcome::Wrote(n) => if offset + n < total {
            SendStep::Continue((offset + n) as usize)
        } else {
            SendStep::Done
        },
        WriteOutcome::WouldBlock => if offset < total {
            SendStep::Continue(offset)
        } else {
            SendStep::Done
        },
        WriteOutcome::Failed => SendStep::Abort(Error::Transport),
    }
}

/// Decides the next move of the write loop: advance past what was written,
/// retry from the same offset when the write would block, stop when all is
/// written, abort on any other failure.
pub fn send_step(total: usize, offset: usize, outcome: WriteOutcome) -> (r: SendStep)
    requires
        offset <= total,
    ensures
        r == send_step_spec(total, offset, outcome),
        r matches SendStep::Continue(o) ==> offset <= o < total,
{
    match outcome {
        WriteOutcome::Wrote(n) => {
            if n < total - offset {
                SendStep::Continue(offset + n)
            } else {
                SendStep::Done
            }
        }
        WriteOutcome::WouldBlock => {
            if offset < total {
                SendStep::Continue(offset)
            } else {
                SendStep::Done
            }
        }
        WriteOutcome::Failed => SendStep::Abort(Error::Transport),
    }
}

/// The builder content after `body(b)`.
pub open spec fn with_body(v: BuilderView, b: Seq<u8>) -> BuilderView {
    BuilderView {
        body: Some(b),
        headers: set_spec(v.headers, "Content-Length"@, seq![decimal(b.len() as nat)]),
        ..v
    }
}

/// A response built with body `b` has one `Content-Length` value, the
/// decimal length of `b`; that value reads back as the length; the wire
/// text carries it on a `Content-Length: ` line; and rendering succeeds
/// whenever `b` is text.
pub proof fn law_content_length_round_trip(v: BuilderView, b: Seq<u8>)
    requires
        keys_unique(v.headers),
        v.has_output,
        v.status is Some,
        b.len() <= usize::MAX,
    ensures
        build_spec(with_body(v, b)) is Ok,
        values_of(build_spec(with_body(v, b))->Ok_0.headers, "Content-Length"@) == Some(seq![decimal(b.len() as nat)]),
        parse_usize_spec(decimal(b.len() as nat)) == Some(b.len() as usize),
        wire_header_lines(build_spec(with_body(v, b))->Ok_0.headers).contains("Content-Length: "@ + decimal(b.len() as nat)),
        valid_utf8(b) ==> render_spec(build_spec(with_body(v, b))->Ok_0) is Ok,
{
    let n = decimal(b.len() as nat);
    let h = set_spec(v.headers, "Content-Length"@, seq![n]);
    lemma_set_values(v.headers, "Content-Length"@, seq![n]);
    law_decimal_round_trip(b.len() as usize);
    assert(has_key(h, "Content-Length"@));
    let i = key_index(h, "Content-Length"@);
    assert(0 <= i < h.len() && h[i].0 == "Content-Length"@);
    assert(h[i].1 == seq![n]);
    reveal_strlit("Content-Length");
    reveal_strlit(": ");
    reveal_strlit("Content-Length: ");
    assert("Content-Length"@ + ": "@ =~= "Content-Length: "@);
    lemma_single_value_line(h, i);
    assert(h[i].0 + ": "@ + h[i].1[0] =~= "Content-Length: "@ + n);
}

} // verus!
