//! Choosing the answer to a request.
use vstd::prelude::*;
use crate::error::Error;
use crate::fake::{gen_fake_listing, listing_of, listing_response, seed_hash};
use crate::headers::{add_all_spec, add_spec, has_key, key_index, keys_unique, law_two_adds_keep_both, lemma_keys_after_add, lemma_keys_after_set, values_of, HeaderEntries};
use crate::response::{default_headers_spec, headers_at};
use crate::text::decimal;
use crate::clock::UtcDateTime;
use crate::php::{easter_egg, egg_of, egg_response, first_probe, is_easter_egg, is_probe_pair, lemma_first_probe_exists};
use crate::request::{Method, Request, RequestView};
use crate::response::{BaseResponse, ResponseView, StatusCode};
use crate::stock::{generic_status, heading_html, hello_world, not_found, page_headers, page_html, page_response};
use crate::text::{str_eq, to_chars};
use crate::uri::query_pairs_spec;

verus! {

/// The seed of the fake file system.
pub const SEED: &'static str = "seedv1";

/// Where a request is sent.
pub enum Route {
    MethodNotAllowed,
    Probe,
    Hello,
    Favicon,
    Listing,
    NotFound,
}

/// Only GET and OPTIONS are served; probes come before the paths; a path
/// ending in `/` is a directory.
pub open spec fn route_spec(r: RequestView) -> Route {
    if r.method != Method::GET && r.method != Method::OPTIONS {
        Route::MethodNotAllowed
    } else if exists|i: int| 0 <= i < query_pairs_spec(r.url).len() && is_probe_pair(#[trigger] query_pairs_spec(r.url)[i]) {
        Route::Probe
    } else if r.url.path == "/hello"@ {
        Route::Hello
    } else if r.url.path == "/favicon.ico"@ {
        Route::Favicon
    } else if r.url.path.len() > 0 && r.url.path.last() == '/' {
        Route::Listing
    } else {
        Route::NotFound
    }
}

proof fn lemma_allow_values(t: UtcDateTime, body: Seq<u8>)
    ensures
        keys_unique(page_headers(headers_at(t), body)) ==> values_of(
            add_all_spec(page_headers(headers_at(t), body), "Allow"@, seq!["GET"@, "OPTIONS"@]),
            "Allow"@,
        ) == Some(seq!["GET"@, "OPTIONS"@]),
{
    let d = headers_at(t);
    let h1 = add_spec(d, "Content-Type"@, "text/html"@);
    let h = page_headers(d, body);
    reveal_strlit("Allow");
    reveal_strlit("Server");
    reveal_strlit("Date");
    reveal_strlit("Content-Type");
    reveal_strlit("Content-Length");
    assert("Allow"@.len() == 5);
    assert("Server"@.len() == 6);
    assert("Date"@.len() == 4);
    assert("Content-Type"@.len() == 12);
    assert("Content-Length"@.len() == 14);
    if has_key(d, "Allow"@) {
        let i = key_index(d, "Allow"@);
        assert(d[i].0 == "Allow"@);
        assert(false);
    }
    lemma_keys_after_add(d, "Content-Type"@, "text/html"@, "Allow"@);
    lemma_keys_after_set(h1, "Content-Length"@, seq![decimal(body.len() as nat)], "Allow"@);
    assert(!has_key(h, "Allow"@));
    if keys_unique(h) {
        let vs = seq!["GET"@, "OPTIONS"@];
        assert(vs.drop_last() =~= seq!["GET"@]);
        assert(seq!["GET"@].drop_last() =~= Seq::<Seq<char>>::empty());
        assert(add_all_spec(h, "Allow"@, Seq::<Seq<char>>::empty()) == h);
        assert(add_all_spec(h, "Allow"@, seq!["GET"@]) == add_spec(add_all_spec(h, "Allow"@, Seq::<Seq<char>>::empty()), "Allow"@, "GET"@));
        assert(add_all_spec(h, "Allow"@, vs) == add_spec(add_all_spec(h, "Allow"@, seq!["GET"@]), "Allow"@, "OPTIONS"@));
        law_two_adds_keep_both(h, "Allow"@, "GET"@, "OPTIONS"@);
    }
}

/// A fake listing of `path` under the fake file system's seed, at some
/// instant from 2000 on.
pub open spec fn is_listing_of(r: ResponseView, path: Seq<char>) -> bool {
    exists|now: UtcDateTime|
        now.wf() && now.year >= 2000 && #[trigger] listing_response(r, path, listing_of(seed_hash(SEED@, path), now), now)
}

pub open spec fn not_found_page() -> Seq<char> {
    page_html("Not Found"@, heading_html("Not Found"@))
}

/// The fake listing of the request's path, or the not-found page while
/// the clock reads a time before the year 2000.
pub fn fake_directory_tree<T: Clone>(out: T, req: &Request) -> (r: BaseResponse<T>)
    ensures
        is_listing_of(r@, req.url@.path) || page_response(r@, StatusCode::NotFound, not_found_page()),
{
    match gen_fake_listing(out.clone(), SEED, req.url.path()) {
        Some(resp) => resp,
        None => not_found(out),
    }
}

/// Answers a request: 405 with `Allow: GET, OPTIONS` for other methods, the
/// canned answer for a probe, the greeting at `/hello`, not-found for
/// `/favicon.ico`, a fake listing for a directory path, not-found otherwise.
pub fn router<T: Clone>(out: T, r: &Request) -> (res: Result<BaseResponse<T>, Error>)
    ensures
        match route_spec(r@) {
            Route::MethodNotAllowed => res matches Ok(resp) && resp@.status == StatusCode::MethodNotAllowed
                && values_of(resp@.headers, "Allow"@) == Some(seq!["GET"@, "OPTIONS"@]),
            Route::Probe => first_probe(query_pairs_spec(r.url@)) matches Some(v) && match res {
                Ok(resp) => egg_response(v, resp@),
                Err(e) => e == Error::UnknownSignature && egg_of(v) is None,
            },
            Route::Hello => res matches Ok(resp)
                && page_response(resp@, StatusCode::OK, page_html("Hello World!"@, heading_html("Hello, World!"@))),
            Route::Favicon | Route::NotFound => res matches Ok(resp)
                && page_response(resp@, StatusCode::NotFound, not_found_page()),
            Route::Listing => res matches Ok(resp) && (is_listing_of(resp@, r.url@.path)
                || page_response(resp@, StatusCode::NotFound, not_found_page())),
        },
{
    match r.method {
        Method::GET | Method::OPTIONS => {},
        _ => {
            let mut b = generic_status(out, StatusCode::MethodNotAllowed);
            let ghost h = b@.headers;
            proof {
                let d = choose|d: HeaderEntries| #[trigger] default_headers_spec(d) && b@.headers == page_headers(
                    d,
                    b@.body->0,
                );
                let t = choose|t: UtcDateTime| t.wf() && d == #[trigger] headers_at(t);
                lemma_allow_values(t, b@.body->0);
            }
            let allowed = vec!["GET", "OPTIONS"];
            assert(allowed@.map_values(|v: &str| v@) =~= seq!["GET"@, "OPTIONS"@]);
            b.add_headers("Allow", allowed);
            return match b.build() {
                Ok(resp) => Ok(resp),
                Err(_) => {
                    vstd::pervasive::unreached()
                }
            };
        }
    }
    proof {
        lemma_first_probe_exists(query_pairs_spec(r.url@));
    }
    if is_easter_egg(r) {
        return easter_egg(out, r);
    }
    let path = r.url.path();
    if str_eq(path, "/hello") {
        return Ok(hello_world(out));
    }
    if str_eq(path, "/favicon.ico") {
        return Ok(not_found(out));
    }
    let p = to_chars(path);
    if p.len() > 0 && p[p.len() - 1] == '/' {
        return Ok(fake_directory_tree(out, r));
    }
    Ok(not_found(out))
}

} // verus!
