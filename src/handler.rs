//! Parsing of the request line and the whole request-to-response pipeline.

use vstd::prelude::*;

use crate::clock::{local_now, utc_now, CivilTime};
use crate::create_responses::{create_error_response_at, response_at};
use crate::response::{format_response, wire};
use crate::router::{route_at, routed};
use crate::text::{has_prefix, starts_with};

verus! {

/// Unicode white space, as `char::is_whitespace` classifies it.
pub open spec fn is_space(c: char) -> bool {
    let u = c as u32;
    ||| 9 <= u <= 13
    ||| u == 32
    ||| u == 0x85
    ||| u == 0xa0
    ||| u == 0x1680
    ||| 0x2000 <= u <= 0x200a
    ||| u == 0x2028
    ||| u == 0x2029
    ||| u == 0x202f
    ||| u == 0x205f
    ||| u == 0x3000
}

/// The position of the first line feed in `s`, or its length if there is
/// none.
pub open spec fn line_end(s: Seq<char>) -> nat
    decreases s.len(),
{
    if s.len() == 0 || s[0] == '\n' {
        0
    } else {
        1 + line_end(s.drop_first())
    }
}

/// The first line of a request (empty for an empty request). A carriage
/// return before the line feed stays, as white space.
pub open spec fn first_line(s: Seq<char>) -> Seq<char> {
    s.take(line_end(s) as int)
}

/// The maximal runs of non-space characters of `s`, left to right.
pub open spec fn words(s: Seq<char>) -> Seq<Seq<char>>
    decreases s.len(),
{
    if s.len() == 0 {
        Seq::empty()
    } else {
        let prev = words(s.drop_last());
        let c = s.last();
        if is_space(c) {
            prev
        } else if s.len() == 1 || is_space(s[s.len() - 2]) {
            prev.push(seq![c])
        } else {
            prev.drop_last().push(prev.last().push(c))
        }
    }
}

/// The body of the response to a request line without three tokens.
pub open spec fn bad_line_message() -> Seq<char> {
    "Invalid HTTP request line format. Expected: METHOD PATH HTTP/VERSION."@
}

/// The body of the response to a version token without the `HTTP/` prefix.
pub open spec fn bad_version_message() -> Seq<char> {
    "The request is not a valid \"HTTP\" request."@
}

/// The wire response to `raw`, stamped with `date`; `local` is the local
/// time that the clock route reports.
pub open spec fn handled(raw: Seq<char>, date: CivilTime, local: CivilTime) -> Seq<char> {
    let tokens = words(first_line(raw));
    if tokens.len() != 3 {
        wire(response_at(400, "Bad Request"@, bad_line_message(), date))
    } else if !has_prefix(tokens[2], "HTTP/"@) {
        wire(response_at(400, "Bad Request"@, bad_version_message(), date))
    } else {
        wire(routed(tokens[0], tokens[1], date, local))
    }
}

proof fn lemma_line_end(s: Seq<char>, i: int)
    requires
        0 <= i <= s.len(),
        forall|j: int| 0 <= j < i ==> s[j] != '\n',
        i == s.len() || s[i] == '\n',
    ensures
        line_end(s) == i,
    decreases i,
{
    if i > 0 {
        lemma_line_end(s.drop_first(), i - 1);
    }
}

pub(crate) fn is_space_char(c: char) -> (r: bool)
    ensures
        r == is_space(c),
{
    let u = c as u32;
    (9 <= u && u <= 13) || u == 32 || u == 0x85 || u == 0xa0 || u == 0x1680 || (0x2000 <= u && u
        <= 0x200a) || u == 0x2028 || u == 0x2029 || u == 0x202f || u == 0x205f || u == 0x3000
}

pub open spec fn texts_view(v: Seq<String>) -> Seq<Seq<char>> {
    v.map_values(|s: String| s@)
}

/// The white-space separated tokens of the first line of `raw`.
pub fn request_tokens(raw: &str) -> (r: Vec<String>)
    ensures
        texts_view(r@) == words(first_line(raw@)),
{
    let n = raw.unicode_len();
    let mut tokens: Vec<String> = Vec::new();
    let mut current = String::new();
    let mut in_word = false;
    let mut i: usize = 0;
    while i < n && raw.get_char(i) != '\n'
        invariant
            n == raw@.len(),
            i <= n,
            forall|j: int| 0 <= j < i ==> raw@[j] != '\n',
            in_word == (i > 0 && !is_space(raw@[i - 1])),
            !in_word ==> current@.len() == 0,
            words(raw@.take(i as int)) == texts_view(tokens@) + if in_word {
                seq![current@]
            } else {
                Seq::empty()
            },
        decreases n - i,
    {
        let c = raw.get_char(i);
        let ghost s = raw@.take(i + 1);
        assert(s.drop_last() =~= raw@.take(i as int));
        assert(s.last() == c);
        if is_space_char(c) {
            if in_word {
                tokens.push(current);
                current = String::new();
                in_word = false;
                assert(texts_view(tokens@) =~= words(raw@.take(i as int)));
            }
        } else {
            let one = raw.substring_char(i, i + 1);
            assert(one@ =~= seq![c]);
            if in_word {
                assert(s[s.len() - 2] == raw@[i - 1]);
                let ghost prev = words(raw@.take(i as int));
                let ghost old_current = current@;
                current.append(one);
                assert(prev.drop_last() =~= texts_view(tokens@));
                assert(prev.last() == old_current);
                assert(current@ =~= old_current.push(c));
                assert(!is_space(s[s.len() - 2]) && s.len() != 1);
                assert(words(s) =~= texts_view(tokens@) + seq![current@]);
            } else {
                current.append(one);
                in_word = true;
                assert(current@ =~= seq![c]);
                assert(i > 0 ==> s[s.len() - 2] == raw@[i - 1]);
                assert(words(s) =~= texts_view(tokens@) + seq![current@]);
            }
        }
        i = i + 1;
    }
    proof {
        lemma_line_end(raw@, i as int);
    }
    if in_word {
        tokens.push(current);
    }
    assert(texts_view(tokens@) =~= words(first_line(raw@)));
    tokens
}

/// Answers the raw request `raw_request`, stamping the response with
/// `date`; `local` is the local time that the clock route reports.
pub fn handle_request_at(raw_request: &str, date: &CivilTime, local: &CivilTime) -> (r: String)
    ensures
        r@ == handled(raw_request@, *date, *local),
{
    let tokens = request_tokens(raw_request);
    proof {
        assert(texts_view(tokens@).len() == tokens@.len());
    }
    if tokens.len() != 3 {
        let bad_request = create_error_response_at(
            400,
            String::from_str("Bad Request"),
            String::from_str("Invalid HTTP request line format. Expected: METHOD PATH HTTP/VERSION."),
            date,
        );
        return format_response(bad_request);
    }
    assert(texts_view(tokens@)[2] == tokens@[2]@);
    if !starts_with(tokens[2].as_str(), "HTTP/") {
        let bad_request = create_error_response_at(
            400,
            String::from_str("Bad Request"),
            String::from_str("The request is not a valid \"HTTP\" request."),
            date,
        );
        return format_response(bad_request);
    }
    assert(texts_view(tokens@)[0] == tokens@[0]@);
    assert(texts_view(tokens@)[1] == tokens@[1]@);
    let http_response = route_at(tokens[0].as_str(), tokens[1].as_str(), date, local);
    format_response(http_response)
}

/// Answers the raw request `raw_request`, stamping the response with the
/// current time.
pub fn handle_request(raw_request: &str) -> (r: String)
    ensures
        exists|d: CivilTime, l: CivilTime|
            d.wf() && l.wf() && r@ == handled(raw_request@, d, l),
{
    let local = local_now();
    let now = utc_now();
    handle_request_at(raw_request, &now, &local)
}

} // verus!
