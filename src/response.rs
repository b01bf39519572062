//! The response model and its wire form.

use vstd::prelude::*;

use crate::text::{same_text, signed_decimal, signed_decimal_text};

verus! {

/// A response header: name, then value.
pub type HeaderView = (Seq<char>, Seq<char>);

/// An outgoing HTTP response.
///
/// `headers` is a mapping from name to value kept as a list of pairs: a
/// response is well formed (`wf`) when no name occurs twice.
pub struct HttpResponse {
    pub status_code: i32,
    pub status_text: String,
    pub headers: Vec<(String, String)>,
    pub body: String,
}

/// The model of an `HttpResponse`: every string seen as its characters.
pub struct ResponseView {
    pub status_code: i32,
    pub status_text: Seq<char>,
    pub headers: Seq<HeaderView>,
    pub body: Seq<char>,
}

pub open spec fn headers_view(h: Seq<(String, String)>) -> Seq<HeaderView> {
    h.map_values(|p: (String, String)| (p.0@, p.1@))
}

impl View for HttpResponse {
    type V = ResponseView;

    open spec fn view(&self) -> ResponseView {
        ResponseView {
            status_code: self.status_code,
            status_text: self.status_text@,
            headers: headers_view(self.headers@),
            body: self.body@,
        }
    }
}

/// No header name occurs twice.
pub open spec fn distinct_names(h: Seq<HeaderView>) -> bool {
    forall|i: int, j: int| 0 <= i < j < h.len() ==> h[i].0 != h[j].0
}

impl ResponseView {
    pub open spec fn wf(&self) -> bool {
        distinct_names(self.headers)
    }
}

impl HttpResponse {
    pub open spec fn wf(&self) -> bool {
        self@.wf()
    }
}

/// The value of the first header named `name`, if any.
pub open spec fn lookup(h: Seq<HeaderView>, name: Seq<char>) -> Option<Seq<char>>
    decreases h.len(),
{
    if h.len() == 0 {
        None
    } else if h[0].0 == name {
        Some(h[0].1)
    } else {
        lookup(h.drop_first(), name)
    }
}

/// `Name: Value` and a line break.
pub open spec fn header_line(name: Seq<char>, value: Seq<char>) -> Seq<char> {
    name + seq![':', ' '] + value + seq!['\r', '\n']
}

/// The header line for `name` where the response has such a header.
pub open spec fn line_if_present(h: Seq<HeaderView>, name: Seq<char>) -> Seq<char> {
    match lookup(h, name) {
        Some(v) => header_line(name, v),
        None => Seq::empty(),
    }
}

/// The headers emitted first, in this order, when present.
pub open spec fn is_priority_name(name: Seq<char>) -> bool {
    name == "Content-Type"@ || name == "Content-Length"@ || name == "Connection"@ || name
        == "Date"@ || name == "Server"@
}

pub open spec fn priority_block(h: Seq<HeaderView>) -> Seq<char> {
    line_if_present(h, "Content-Type"@) + line_if_present(h, "Content-Length"@) + line_if_present(
        h,
        "Connection"@,
    ) + line_if_present(h, "Date"@) + line_if_present(h, "Server"@)
}

/// The lines of every other header, in list order.
pub open spec fn other_block(h: Seq<HeaderView>) -> Seq<char>
    decreases h.len(),
{
    if h.len() == 0 {
        Seq::empty()
    } else {
        let last = h.last();
        other_block(h.drop_last()) + if is_priority_name(last.0) {
            Seq::empty()
        } else {
            header_line(last.0, last.1)
        }
    }
}

/// `HTTP/1.1 <code> <reason>` and a line break.
pub open spec fn status_line(r: ResponseView) -> Seq<char> {
    "HTTP/1.1 "@ + signed_decimal(r.status_code as int) + seq![' '] + r.status_text + seq![
        '\r',
        '\n',
    ]
}

/// The wire form of a response: status line, headers, a blank line, the
/// body, and three closing line breaks.
pub open spec fn wire(r: ResponseView) -> Seq<char> {
    status_line(r) + priority_block(r.headers) + other_block(r.headers) + seq!['\r', '\n'] + r.body
        + seq!['\r', '\n', '\r', '\n', '\r', '\n']
}

/// The value of the first header of `headers` named `name`, if any.
pub fn find_header<'a>(headers: &'a Vec<(String, String)>, name: &str) -> (r: Option<&'a String>)
    ensures
        match r {
            Some(v) => lookup(headers_view(headers@), name@) == Some(v@),
            None => lookup(headers_view(headers@), name@) is None,
        },
{
    let ghost h = headers_view(headers@);
    assert(h.skip(0) =~= h);
    let mut i: usize = 0;
    while i < headers.len()
        invariant
            i <= headers@.len(),
            h == headers_view(headers@),
            lookup(h, name@) == lookup(h.skip(i as int), name@),
        decreases headers@.len() - i,
    {
        assert(h.skip(i as int)[0] == h[i as int]);
        if same_text(headers[i].0.as_str(), name) {
            return Some(&headers[i].1);
        }
        assert(h.skip(i as int).drop_first() =~= h.skip(i + 1));
        i = i + 1;
    }
    assert(h.skip(i as int) =~= Seq::<HeaderView>::empty());
    None
}

fn push_header_line(out: &mut String, name: &str, value: &str)
    ensures
        final(out)@ == old(out)@ + header_line(name@, value@),
{
    proof {
        reveal_strlit(": ");
        reveal_strlit("\r\n");
    }
    out.append(name);
    out.append(": ");
    out.append(value);
    out.append("\r\n");
    assert(final(out)@ =~= old(out)@ + header_line(name@, value@));
}

fn push_if_present(out: &mut String, headers: &Vec<(String, String)>, name: &str)
    ensures
        final(out)@ == old(out)@ + line_if_present(headers_view(headers@), name@),
{
    match find_header(headers, name) {
        Some(v) => push_header_line(out, name, v.as_str()),
        None => {
            assert(old(out)@ + Seq::<char>::empty() =~= old(out)@);
        },
    }
}

fn is_priority(name: &str) -> (r: bool)
    ensures
        r == is_priority_name(name@),
{
    same_text(name, "Content-Type") || same_text(name, "Content-Length") || same_text(
        name,
        "Connection",
    ) || same_text(name, "Date") || same_text(name, "Server")
}

/// Serialises a response to its wire form.
pub fn format_response(response: HttpResponse) -> (r: String)
    ensures
        r@ == wire(response@),
{
    let ghost h = headers_view(response.headers@);
    proof {
        reveal_strlit("HTTP/1.1 ");
        reveal_strlit(" ");
        reveal_strlit("\r\n");
        reveal_strlit("\r\n\r\n\r\n");
    }
    let mut out = String::from_str("HTTP/1.1 ");
    out.append(signed_decimal_text(response.status_code).as_str());
    out.append(" ");
    out.append(response.status_text.as_str());
    out.append("\r\n");
    assert(out@ =~= status_line(response@));
    push_if_present(&mut out, &response.headers, "Content-Type");
    push_if_present(&mut out, &response.headers, "Content-Length");
    push_if_present(&mut out, &response.headers, "Connection");
    push_if_present(&mut out, &response.headers, "Date");
    push_if_present(&mut out, &response.headers, "Server");
    assert(out@ =~= status_line(response@) + priority_block(h));
    let ghost before = out@;
    let mut i: usize = 0;
    while i < response.headers.len()
        invariant
            i <= response.headers@.len(),
            h == headers_view(response.headers@),
            out@ == before + other_block(h.take(i as int)),
        decreases response.headers@.len() - i,
    {
        let name = response.headers[i].0.as_str();
        let ghost prev = out@;
        assert(h.take(i + 1).drop_last() =~= h.take(i as int));
        if !is_priority(name) {
            push_header_line(&mut out, name, response.headers[i].1.as_str());
        }
        assert(out@ =~= before + other_block(h.take(i + 1)));
        i = i + 1;
    }
    assert(h.take(h.len() as int) =~= h);
    out.append("\r\n");
    out.append(response.body.as_str());
    out.append("\r\n\r\n\r\n");
    assert(out@ =~= wire(response@));
    out
}

/// The wire form of every response begins with its status line:
/// `HTTP/1.1 <code> <reason>` and a line break.
pub proof fn lemma_wire_starts_with_status_line(r: ResponseView)
    ensures
        wire(r).subrange(0, status_line(r).len() as int) == status_line(r),
{
    assert(wire(r).subrange(0, status_line(r).len() as int) =~= status_line(r));
}

/// Formatting depends on the response alone: equal responses give the same
/// text.
pub proof fn lemma_wire_deterministic(a: ResponseView, b: ResponseView)
    requires
        a == b,
    ensures
        wire(a) == wire(b),
{
}

} // verus!
