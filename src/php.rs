//! Legacy PHP probe queries: recognising them and answering with the canned
//! responses an old PHP server gave.
use vstd::prelude::*;
use vstd::string::StringSliceAdditionalSpecFns;
use crate::error::Error;
use crate::headers::{add_spec, set_spec, HeaderEntries};
use crate::request::Request;
use crate::response::{default_headers_spec, BaseResponse, BaseResponseBuilder, ResponseView, StatusCode};
use crate::text::{decimal, str_eq};
use crate::uri::{query_pairs_spec, Url};

verus! {

/// The shape of the probe tokens: `PHP` and a GUID of hex digits.
pub const PROBE_PATTERN: &'static str = "PHP[a-fA-F0-9]{8}-[a-fA-F0-9]{4}-[a-fA-F0-9]{4}-[a-fA-F0-9]{4}-[a-fA-F0-9]{12}";

/// The tokens that PHP answered with its logo image.
pub const IMAGE_PROBE_36: &'static str = "PHPE9568F36-D428-11d2-A769-00AA001ACF42";

pub const IMAGE_PROBE_34: &'static str = "PHPE9568F34-D428-11d2-A769-00AA001ACF42";

pub const IMAGE_PROBE_35: &'static str = "PHPE9568F35-D428-11d2-A769-00AA001ACF42";

/// The token that PHP answered with its credits page.
pub const CREDITS_PROBE: &'static str = "PHPB8B5F2A0-3C92-11d3-A3A9-4C7B08C10000";

/// The number of bytes in the canned image body.
pub const IMAGE_LEN: usize = 2985;

/// Whether the `regex` crate finds a match of the pattern in the text.
pub uninterp spec fn regex_match(pattern: Seq<char>, hay: Seq<char>) -> bool;

/// An ASCII hex digit, as the class `[a-fA-F0-9]` admits it.
pub open spec fn is_hex(c: char) -> bool {
    ('a' <= c && c <= 'f') || ('A' <= c && c <= 'F') || ('0' <= c && c <= '9')
}

/// `n` hex digits from position `start` of `s`.
pub open spec fn hex_run(s: Seq<char>, start: int, n: int) -> bool {
    forall|j: int| start <= j < start + n ==> is_hex(#[trigger] s[j])
}

/// A match of `PROBE_PATTERN` starting at position `i` of `s`: `PHP`, then
/// 8, 4, 4, 4 and 12 hex digits separated by `-`.
pub open spec fn probe_token_at(s: Seq<char>, i: int) -> bool {
    &&& 0 <= i && i + 39 <= s.len()
    &&& s[i] == 'P' && s[i + 1] == 'H' && s[i + 2] == 'P'
    &&& hex_run(s, i + 3, 8) && s[i + 11] == '-'
    &&& hex_run(s, i + 12, 4) && s[i + 16] == '-'
    &&& hex_run(s, i + 17, 4) && s[i + 21] == '-'
    &&& hex_run(s, i + 22, 4) && s[i + 26] == '-'
    &&& hex_run(s, i + 27, 12)
}

/// Whether `PROBE_PATTERN` matches somewhere in `s`.
pub open spec fn has_probe_token(s: Seq<char>) -> bool {
    exists|i: int| #[trigger] probe_token_at(s, i)
}

/// Relies on `regex::Regex::new` and `Regex::is_match`: whether the pattern
/// matches somewhere in the text, which depends on the two strings alone; a
/// pattern the crate refuses matches nothing. For `PROBE_PATTERN`, by the
/// crate's syntax (an unanchored search; `[a-fA-F0-9]{n}` is `n` ASCII hex
/// digits), a match is a probe token anywhere in the text.
#[verifier::external_body]
fn regex_is_match(pattern: &str, hay: &str) -> (r: bool)
    ensures
        r == regex_match(pattern@, hay@),
        pattern@ == PROBE_PATTERN@ ==> (r <==> has_probe_token(hay@)),
{
    match regex::Regex::new(pattern) {
        Ok(re) => re.is_match(hay),
        Err(_) => false,
    }
}

/// A query pair that carries a probe: an empty name and a value of the
/// probe shape.
pub open spec fn is_probe_pair(p: (Seq<char>, Seq<char>)) -> bool {
    p.0.len() == 0 && has_probe_token(p.1)
}

/// The value of the first probe pair, if any.
pub open spec fn first_probe(ps: Seq<(Seq<char>, Seq<char>)>) -> Option<Seq<char>>
    decreases ps.len(),
{
    if ps.len() == 0 {
        None
    } else if is_probe_pair(ps[0]) {
        Some(ps[0].1)
    } else {
        first_probe(ps.drop_first())
    }
}

/// A first probe pair exists exactly when some pair is a probe.
pub proof fn lemma_first_probe_exists(ps: Seq<(Seq<char>, Seq<char>)>)
    ensures
        first_probe(ps) is Some <==> exists|i: int| 0 <= i < ps.len() && is_probe_pair(#[trigger] ps[i]),
    decreases ps.len(),
{
    if ps.len() > 0 {
        lemma_first_probe_exists(ps.drop_first());
        if !is_probe_pair(ps[0]) {
            if exists|i: int| 0 <= i < ps.len() && is_probe_pair(#[trigger] ps[i]) {
                let i = choose|i: int| 0 <= i < ps.len() && is_probe_pair(#[trigger] ps[i]);
                assert(ps.drop_first()[i - 1] == ps[i]);
            }
            if exists|i: int| 0 <= i < ps.drop_first().len() && is_probe_pair(#[trigger] ps.drop_first()[i]) {
                let i = choose|i: int| 0 <= i < ps.drop_first().len() && is_probe_pair(#[trigger] ps.drop_first()[i]);
                assert(ps[i + 1] == ps.drop_first()[i]);
            }
        }
    }
}

/// Which canned answer a probe token gets.
pub enum Egg {
    Image,
    Credits,
}

pub open spec fn egg_of(v: Seq<char>) -> Option<Egg> {
    if v == IMAGE_PROBE_36@ || v == IMAGE_PROBE_34@ || v == IMAGE_PROBE_35@ {
        Some(Egg::Image)
    } else if v == CREDITS_PROBE@ {
        Some(Egg::Credits)
    } else {
        None
    }
}

fn find_probe(pairs: &Vec<(String, String)>) -> (r: Option<&String>)
    ensures
        match r {
            Some(v) => first_probe(pairs@.map_values(|p: (String, String)| (p.0@, p.1@))) == Some(v@),
            None => first_probe(pairs@.map_values(|p: (String, String)| (p.0@, p.1@))) is None,
        },
{
    let ghost ps = pairs@.map_values(|p: (String, String)| (p.0@, p.1@));
    let mut i: usize = 0;
    assert(ps.subrange(0, ps.len() as int) =~= ps);
    while i < pairs.len()
        invariant
            i <= pairs@.len(),
            ps == pairs@.map_values(|p: (String, String)| (p.0@, p.1@)),
            first_probe(ps) == first_probe(ps.subrange(i as int, ps.len() as int)),
        decreases pairs@.len() - i,
    {
        let ghost rest = ps.subrange(i as int, ps.len() as int);
        assert(rest.drop_first() =~= ps.subrange(i + 1, ps.len() as int));
        assert(rest[0] == ps[i as int]);
        let k = &pairs[i].0;
        let v = &pairs[i].1;
        if k.as_str().unicode_len() == 0 && regex_is_match(PROBE_PATTERN, v.as_str()) {
            return Some(v);
        }
        i = i + 1;
    }
    None
}

/// Whether the URL's query carries a probe: a pair with an empty name and a
/// value of the probe shape.
pub fn is_easter_egg_url(url: &Url) -> (r: bool)
    ensures
        r == exists|i: int| 0 <= i < query_pairs_spec(url@).len() && is_probe_pair(#[trigger] query_pairs_spec(url@)[i]),
{
    let pairs = url.query_pairs();
    let found = find_probe(&pairs);
    proof {
        lemma_first_probe_exists(query_pairs_spec(url@));
    }
    found.is_some()
}

/// Whether the request's URL carries a probe.
pub fn is_easter_egg(req: &Request) -> (r: bool)
    ensures
        r == exists|i: int| 0 <= i < query_pairs_spec(req.url@).len() && is_probe_pair(#[trigger] query_pairs_spec(req.url@)[i]),
{
    is_easter_egg_url(&req.url)
}

/// The credits page served for the credits token.
pub const CREDITS_HTML: &'static str = "<!DOCTYPE html PUBLIC \"-//W3C//DTD XHTML 1.0 Transitional//EN\" \"DTD/xhtml1-transitional.dtd\">\n<html><head>\n<title>PHP Credits</title>\n</head>\n<body><div class=\"center\">\n<h1>PHP Credits</h1>\n<table border=\"0\" cellpadding=\"3\" width=\"600\">\n<tr class=\"h\"><th>PHP Group</th></tr>\n<tr><td class=\"e\">Thies C. Arntzen, Stig Bakken, Shane Caraveo, Andi Gutmans, Rasmus Lerdorf, Sam Ruby, Sascha Schumann, Zeev Suraski, Jim Winstead, Andrei Zmievski</td></tr>\n</table>\n<table border=\"0\" cellpadding=\"3\" width=\"600\">\n<tr class=\"h\"><th>Language Design &amp; Concept</th></tr>\n<tr><td class=\"e\">Andi Gutmans, Rasmus Lerdorf, Zeev Suraski</td></tr>\n</table>\n</div></body></html>\n";

/// The header value that marks the canned answers as coming from old PHP.
pub const POWERED_BY: &'static str = "PHP/4.0.1";

/// The canned image body: `IMAGE_LEN` bytes of `a`.
pub open spec fn image_body() -> Seq<u8> {
    Seq::new(IMAGE_LEN as nat, |i: int| 97u8)
}

/// A canned answer: status 200, the default headers with the body's length,
/// the content type and the PHP marker, in that order, and the body.
pub open spec fn is_canned(r: ResponseView, body: Seq<u8>, content_type: Seq<char>) -> bool {
    exists|d: HeaderEntries|
        default_headers_spec(d) && r == (ResponseView {
            status: StatusCode::OK,
            headers: add_spec(
                add_spec(
                    set_spec(d, "Content-Length"@, seq![decimal(body.len() as nat)]),
                    "Content-Type"@,
                    content_type,
                ),
                "X-Powered-By"@,
                POWERED_BY@,
            ),
            body,
            version: None,
        })
}

/// The answer to a probe token, if one is kept for it.
pub open spec fn egg_response(v: Seq<char>, r: ResponseView) -> bool {
    match egg_of(v) {
        Some(Egg::Image) => is_canned(r, image_body(), "image/gif"@),
        Some(Egg::Credits) => is_canned(r, CREDITS_HTML.spec_bytes(), "text/html"@),
        None => false,
    }
}

fn canned<T: Clone>(out: T, body: &[u8], content_type: &str) -> (r: BaseResponse<T>)
    ensures
        is_canned(r@, body@, content_type@),
{
    let mut b = BaseResponseBuilder::ok(out);
    b.body(body).add_header("Content-Type", content_type).add_header("X-Powered-By", POWERED_BY);
    match b.build() {
        Ok(resp) => resp,
        Err(_) => {
            vstd::pervasive::unreached()
        }
    }
}

fn php_image_resp<T: Clone>(out: T) -> (r: BaseResponse<T>)
    ensures
        is_canned(r@, image_body(), "image/gif"@),
{
    let body: Vec<u8> = vec![97u8; IMAGE_LEN];
    assert(body@ =~= image_body());
    canned(out, body.as_slice(), "image/gif")
}

fn php_credits<T: Clone>(out: T) -> (r: BaseResponse<T>)
    ensures
        is_canned(r@, CREDITS_HTML.spec_bytes(), "text/html"@),
{
    canned(out, CREDITS_HTML.as_bytes(), "text/html")
}

/// The canned answer for the request's probe token. A request without a
/// probe, or with a token of the right shape that no answer is kept for, is
/// an internal inconsistency: callers check `is_easter_egg` first.
pub fn easter_egg<T: Clone>(out: T, req: &Request) -> (r: Result<BaseResponse<T>, Error>)
    ensures
        match r {
            Ok(resp) => first_probe(query_pairs_spec(req.url@)) matches Some(v) && egg_response(v, resp@),
            Err(e) => e == Error::UnknownSignature && match first_probe(query_pairs_spec(req.url@)) {
                Some(v) => egg_of(v) is None,
                None => true,
            },
        },
{
    let pairs = req.url.query_pairs();
    let v = match find_probe(&pairs) {
        Some(v) => v.as_str(),
        None => return Err(Error::UnknownSignature),
    };
    if str_eq(v, IMAGE_PROBE_36) || str_eq(v, IMAGE_PROBE_34) || str_eq(v, IMAGE_PROBE_35) {
        Ok(php_image_resp(out))
    } else if str_eq(v, CREDITS_PROBE) {
        Ok(php_credits(out))
    } else {
        Err(Error::UnknownSignature)
    }
}

/// Every token with a canned answer has the probe shape, so a query pair
/// with an empty name and one of them as value is detected.
pub proof fn law_canned_tokens_are_probes()
    ensures
        has_probe_token(IMAGE_PROBE_36@),
        has_probe_token(IMAGE_PROBE_34@),
        has_probe_token(IMAGE_PROBE_35@),
        has_probe_token(CREDITS_PROBE@),
        forall|v: Seq<char>| #[trigger] egg_of(v) is Some ==> has_probe_token(v),
{
    reveal_strlit("PHPE9568F36-D428-11d2-A769-00AA001ACF42");
    assert(IMAGE_PROBE_36@ == "PHPE9568F36-D428-11d2-A769-00AA001ACF42"@);
    assert(probe_token_at(IMAGE_PROBE_36@, 0));
    reveal_strlit("PHPE9568F34-D428-11d2-A769-00AA001ACF42");
    assert(IMAGE_PROBE_34@ == "PHPE9568F34-D428-11d2-A769-00AA001ACF42"@);
    assert(probe_token_at(IMAGE_PROBE_34@, 0));
    reveal_strlit("PHPE9568F35-D428-11d2-A769-00AA001ACF42");
    assert(IMAGE_PROBE_35@ == "PHPE9568F35-D428-11d2-A769-00AA001ACF42"@);
    assert(probe_token_at(IMAGE_PROBE_35@, 0));
    reveal_strlit("PHPB8B5F2A0-3C92-11d3-A3A9-4C7B08C10000");
    assert(CREDITS_PROBE@ == "PHPB8B5F2A0-3C92-11d3-A3A9-4C7B08C10000"@);
    assert(probe_token_at(CREDITS_PROBE@, 0));
}

} // verus!
