//! Stock responses: a greeting, not-found, and a page for any status.
use vstd::prelude::*;
use vstd::utf8::encode_utf8;
use crate::headers::{add_spec, set_spec, HeaderEntries};
use crate::response::{
    default_headers_spec, reason_spec, BaseResponse, BaseResponseBuilder, BuilderView, ResponseView,
    StatusCode,
};
use crate::text::{decimal, escape_html, push_escaped};

verus! {

/// A minimal HTML page with a title and a body.
pub open spec fn page_html(title: Seq<char>, inner: Seq<char>) -> Seq<char> {
    "<!DOCTYPE html><html><head><title>"@ + escape_html(title)
        + "</title><meta name=\"description\" content=\"httpot\"/></head><body>"@ + inner
        + "</body></html>"@
}

/// A heading holding `text`.
pub open spec fn heading_html(text: Seq<char>) -> Seq<char> {
    "<h1>"@ + escape_html(text) + "</h1>"@
}

/// The headers of a stock page: the defaults, `Content-Type: text/html`,
/// and the body length.
pub open spec fn page_headers(d: HeaderEntries, body: Seq<u8>) -> HeaderEntries {
    set_spec(
        add_spec(d, "Content-Type"@, "text/html"@),
        "Content-Length"@,
        seq![decimal(body.len() as nat)],
    )
}

/// A stock page response with the given status and document.
pub open spec fn page_response(r: ResponseView, status: StatusCode, doc: Seq<char>) -> bool {
    exists|d: HeaderEntries|
        #[trigger] default_headers_spec(d) && r == (ResponseView {
            status,
            headers: page_headers(d, encode_utf8(doc)),
            body: encode_utf8(doc),
            version: None,
        })
}

fn page(title: &str, text: &str) -> (r: String)
    ensures
        r@ == page_html(title@, heading_html(text@)),
{
    let mut out = "<!DOCTYPE html><html><head><title>".to_owned();
    push_escaped(&mut out, title);
    out.append("</title><meta name=\"description\" content=\"httpot\"/></head><body>");
    out.append("<h1>");
    push_escaped(&mut out, text);
    out.append("</h1>");
    out.append("</body></html>");
    assert(out@ =~= page_html(title@, heading_html(text@)));
    out
}

fn page_response_for<T: Clone>(b: &mut BaseResponseBuilder<T>, doc: &str) -> (r: BaseResponse<T>)
    requires
        old(b).wf(),
        old(b)@.has_output,
        old(b)@.status is Some,
        old(b)@.version is None,
        default_headers_spec(old(b)@.headers),
    ensures
        page_response(r@, old(b)@.status->0, doc@),
{
    b.add_header("Content-Type", "text/html").body(doc.as_bytes());
    match b.build() {
        Ok(resp) => resp,
        Err(_) => {
            vstd::pervasive::unreached()
        }
    }
}

/// The greeting page, status 200.
pub fn hello_world<T: Clone>(out: T) -> (r: BaseResponse<T>)
    ensures
        page_response(r@, StatusCode::OK, page_html("Hello World!"@, heading_html("Hello, World!"@))),
{
    let doc = page("Hello World!", "Hello, World!");
    let mut b = BaseResponseBuilder::ok(out);
    page_response_for(&mut b, doc.as_str())
}

/// The not-found page, status 404.
pub fn not_found<T: Clone>(out: T) -> (r: BaseResponse<T>)
    ensures
        page_response(r@, StatusCode::NotFound, page_html("Not Found"@, heading_html("Not Found"@))),
{
    let doc = page("Not Found", "Not Found");
    let mut b = BaseResponseBuilder::not_found(out);
    page_response_for(&mut b, doc.as_str())
}

/// A builder holding a page that names `status`, with that status set; the
/// caller may add headers before building.
pub fn generic_status<T>(out: T, status: StatusCode) -> (r: BaseResponseBuilder<T>)
    ensures
        r.wf(),
        exists|d: HeaderEntries|
            #[trigger] default_headers_spec(d) && r@ == (BuilderView {
                has_output: true,
                status: Some(status),
                body: Some(encode_utf8(page_html(reason_spec(status), heading_html(reason_spec(status))))),
                headers: page_headers(
                    d,
                    encode_utf8(page_html(reason_spec(status), heading_html(reason_spec(status)))),
                ),
                version: None,
            }),
{
    let reason = status.to_string();
    let doc = page(reason.as_str(), reason.as_str());
    let mut b = BaseResponseBuilder::default(out);
    b.add_header("Content-Type", "text/html").body(doc.as_str().as_bytes()).status_code(status.code() as i64);
    proof {
        crate::response::lemma_code_round_trip(status);
    }
    b
}

} // verus!
