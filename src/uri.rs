//! Absolute URLs as the parts the honeypot reads, parsed by the `url` crate.
use vstd::prelude::*;

verus! {

/// Whether `url::Url::parse` accepts the text.
pub uninterp spec fn url_accepts(s: Seq<char>) -> bool;

/// `Url::path` of the URL parsed from the text.
pub uninterp spec fn url_path(s: Seq<char>) -> Seq<char>;

/// `Url::query` of the URL parsed from the text.
pub uninterp spec fn url_query(s: Seq<char>) -> Option<Seq<char>>;

/// `Url::host_str` of the URL parsed from the text.
pub uninterp spec fn url_host(s: Seq<char>) -> Option<Seq<char>>;

/// `Url::port` of the URL parsed from the text.
pub uninterp spec fn url_port(s: Seq<char>) -> Option<u16>;

/// The name/value pairs that `form_urlencoded::parse` decodes from a query.
pub uninterp spec fn form_pairs(q: Seq<char>) -> Seq<(Seq<char>, Seq<char>)>;

/// The parts of a parsed URL.
pub struct UrlView {
    pub path: Seq<char>,
    pub query: Option<Seq<char>>,
    pub host: Option<Seq<char>>,
    pub port: Option<u16>,
}

/// The URL parsed from `s`, if the `url` crate accepts it.
pub open spec fn parse_url_spec(s: Seq<char>) -> Option<UrlView> {
    if url_accepts(s) {
        Some(UrlView { path: url_path(s), query: url_query(s), host: url_host(s), port: url_port(s) })
    } else {
        None
    }
}

/// An absolute URL: path, query, host and port.
#[derive(Debug, Clone)]
pub struct Url {
    path: String,
    query: Option<String>,
    host: Option<String>,
    port: Option<u16>,
}

pub open spec fn opt_view(o: Option<String>) -> Option<Seq<char>> {
    match o {
        Some(s) => Some(s@),
        None => None,
    }
}

impl View for Url {
    type V = UrlView;

    closed spec fn view(&self) -> UrlView {
        UrlView {
            path: self.path@,
            query: opt_view(self.query),
            host: opt_view(self.host),
            port: self.port,
        }
    }
}

/// Relies on `url::Url::parse` and the accessors `path`, `query`, `host_str`
/// and `port`: each part depends on the text alone; no URL where `parse`
/// fails.
#[verifier::external_body]
fn parse_with_url_crate(s: &str) -> (r: Option<Url>)
    ensures
        r is Some <==> url_accepts(s@),
        r matches Some(u) ==> u@ == (UrlView {
            path: url_path(s@),
            query: url_query(s@),
            host: url_host(s@),
            port: url_port(s@),
        }),
{
    let u = url::Url::parse(s).ok()?;
    Some(Url {
        path: u.path().to_string(),
        query: u.query().map(|q| q.to_string()),
        host: u.host_str().map(|h| h.to_string()),
        port: u.port(),
    })
}

/// Relies on `url::form_urlencoded::parse`: the decoded pairs depend on the
/// query text alone.
#[verifier::external_body]
fn decode_query_pairs(q: &str) -> (r: Vec<(String, String)>)
    ensures
        r@.map_values(|p: (String, String)| (p.0@, p.1@)) == form_pairs(q@),
{
    url::form_urlencoded::parse(q.as_bytes())
        .map(|(k, v)| (k.into_owned(), v.into_owned()))
        .collect()
}

impl Url {
    /// Parses an absolute URL.
    pub fn parse(s: &str) -> (r: Option<Url>)
        ensures
            match r {
                Some(u) => parse_url_spec(s@) == Some(u@),
                None => parse_url_spec(s@) is None,
            },
    {
        parse_with_url_crate(s)
    }

    pub fn path(&self) -> (r: &str)
        ensures
            r@ == self@.path,
    {
        self.path.as_str()
    }

    pub fn query(&self) -> (r: Option<&str>)
        ensures
            match r {
                Some(q) => self@.query == Some(q@),
                None => self@.query is None,
            },
    {
        match &self.query {
            Some(q) => Some(q.as_str()),
            None => None,
        }
    }

    pub fn host_str(&self) -> (r: Option<&str>)
        ensures
            match r {
                Some(h) => self@.host == Some(h@),
                None => self@.host is None,
            },
    {
        match &self.host {
            Some(h) => Some(h.as_str()),
            None => None,
        }
    }

    pub fn port(&self) -> (r: Option<u16>)
        ensures
            r == self@.port,
    {
        self.port
    }

    /// The decoded name/value pairs of the query; none without a query.
    pub fn query_pairs(&self) -> (r: Vec<(String, String)>)
        ensures
            r@.map_values(|p: (String, String)| (p.0@, p.1@)) == query_pairs_spec(self@),
    {
        match &self.query {
            Some(q) => decode_query_pairs(q.as_str()),
            None => decode_query_pairs(""),
        }
    }
}

/// The decoded query pairs of a URL; the empty query stands for a missing one.
pub open spec fn query_pairs_spec(u: UrlView) -> Seq<(Seq<char>, Seq<char>)> {
    match u.query {
        Some(q) => form_pairs(q),
        None => form_pairs(""@),
    }
}

} // verus!
