//! Construction of responses with the standard headers: `Content-Type`,
//! `Content-Length`, `Connection` and `Date`.

use vstd::prelude::*;
use vstd::utf8::encode_utf8;

use crate::clock::{http_date, http_date_text, utc_now, CivilTime};
use crate::response::{distinct_names, lookup, HeaderView, HttpResponse, ResponseView};
use crate::text::{decimal, decimal_text};

verus! {

/// The number of bytes in the UTF-8 encoding of `s`.
pub open spec fn byte_length(s: Seq<char>) -> nat {
    encode_utf8(s).len()
}

/// The headers of every constructed response, in this order.
pub open spec fn standard_headers(body: Seq<char>, date: CivilTime) -> Seq<HeaderView> {
    seq![
        ("Content-Type"@, "text/plain"@),
        ("Content-Length"@, decimal(byte_length(body))),
        ("Connection"@, "close"@),
        ("Date"@, http_date_text(date)),
    ]
}

/// A response with the given status and body, stamped with `date`.
pub open spec fn response_at(
    status_code: i32,
    status_text: Seq<char>,
    body: Seq<char>,
    date: CivilTime,
) -> ResponseView {
    ResponseView { status_code, status_text, headers: standard_headers(body, date), body }
}

/// A `200 OK` response with the given body, stamped with `date`.
pub open spec fn text_response(body: Seq<char>, date: CivilTime) -> ResponseView {
    response_at(200, "OK"@, body, date)
}

/// The standard headers name each header once, and `Content-Length` holds
/// the body's length in bytes.
pub proof fn lemma_standard_headers(body: Seq<char>, date: CivilTime)
    ensures
        distinct_names(standard_headers(body, date)),
        lookup(standard_headers(body, date), "Content-Length"@) == Some(
            decimal(byte_length(body)),
        ),
{
    reveal_strlit("Content-Type");
    reveal_strlit("Content-Length");
    reveal_strlit("Connection");
    reveal_strlit("Date");
    assert("Content-Type"@.len() == 12);
    assert("Content-Length"@.len() == 14);
    assert("Connection"@.len() == 10);
    assert("Date"@.len() == 4);
    let h = standard_headers(body, date);
    assert(h[0].0 != "Content-Length"@);
    assert(h.drop_first()[0] == h[1]);
    assert(lookup(h.drop_first(), "Content-Length"@) == Some(decimal(byte_length(body))));
    assert forall|i: int, j: int| 0 <= i < j < h.len() implies h[i].0 != h[j].0 by {
        assert(h[i].0.len() != h[j].0.len());
    }
}

/// The current UTC time as an HTTP-date.
pub fn get_http_date() -> (r: String)
    ensures
        exists|t: CivilTime| t.wf() && r@ == http_date_text(t),
{
    let now = utc_now();
    http_date(&now)
}

/// A response with the given status and body, stamped with `date`.
pub fn create_error_response_at(
    status_code: i32,
    status_text: String,
    status_body: String,
    date: &CivilTime,
) -> (r: HttpResponse)
    ensures
        r@ == response_at(status_code, status_text@, status_body@, *date),
        r.wf(),
{
    let n = status_body.as_str().as_bytes().len();
    let mut headers: Vec<(String, String)> = Vec::new();
    headers.push((String::from_str("Content-Type"), String::from_str("text/plain")));
    headers.push((String::from_str("Content-Length"), decimal_text(n as u64)));
    headers.push((String::from_str("Connection"), String::from_str("close")));
    headers.push((String::from_str("Date"), http_date(date)));
    let r = HttpResponse { status_code, status_text, headers, body: status_body };
    assert(r@.headers =~= standard_headers(status_body@, *date));
    proof {
        lemma_standard_headers(status_body@, *date);
    }
    r
}

/// A `200 OK` response with the given body, stamped with `date`.
pub fn create_text_response_at(body: String, date: &CivilTime) -> (r: HttpResponse)
    ensures
        r@ == text_response(body@, *date),
        r.wf(),
{
    create_error_response_at(200, String::from_str("OK"), body, date)
}

/// A `200 OK` response with the given body, stamped with the current time.
pub fn create_text_response(body: String) -> (r: HttpResponse)
    ensures
        exists|t: CivilTime| t.wf() && r@ == text_response(body@, t),
        lookup(r@.headers, "Content-Length"@) == Some(decimal(byte_length(body@))),
        r.wf(),
{
    let now = utc_now();
    let r = create_text_response_at(body, &now);
    proof {
        lemma_standard_headers(body@, now);
    }
    r
}

/// A response with the given status and body, stamped with the current
/// time.
pub fn create_error_response(status_code: i32, status_text: String, status_body: String) -> (r:
    HttpResponse)
    ensures
        exists|t: CivilTime| t.wf() && r@ == response_at(status_code, status_text@, status_body@, t),
        lookup(r@.headers, "Content-Length"@) == Some(decimal(byte_length(status_body@))),
        r.wf(),
{
    let now = utc_now();
    let r = create_error_response_at(status_code, status_text, status_body, &now);
    proof {
        lemma_standard_headers(status_body@, now);
    }
    r
}

} // verus!
