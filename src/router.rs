//! Dispatch of a method and a path to a route handler.

use vstd::prelude::*;

use crate::clock::{clock_text, fits, lemma_clock_text_shape, local_now, utc_now, CivilTime};
use crate::create_responses::{create_error_response_at, response_at, text_response};
use crate::response::{HttpResponse, ResponseView};
use crate::routes::{echo, hello, time};
use crate::text::{has_prefix, same_text, starts_with};

verus! {

/// The response to `method` and `path`, stamped with `date`; `local` is
/// the local time that the clock route reports.
pub open spec fn routed(
    method: Seq<char>,
    path: Seq<char>,
    date: CivilTime,
    local: CivilTime,
) -> ResponseView {
    if method == "GET"@ && path == "/hello"@ {
        text_response("Hello World!"@, date)
    } else if method == "GET"@ && path == "/time"@ {
        text_response(clock_text(local), date)
    } else if method == "GET"@ && has_prefix(path, "/echo/"@) {
        text_response(path.skip("/echo/"@.len() as int), date)
    } else {
        response_at(404, "Not Found"@, "The entered path doesn't exist."@, date)
    }
}

/// Two responses that differ at most in the value of their `Date` header.
pub open spec fn agree_but_date(a: ResponseView, b: ResponseView) -> bool {
    &&& a.status_code == b.status_code
    &&& a.status_text == b.status_text
    &&& a.body == b.body
    &&& a.headers.len() == b.headers.len()
    &&& forall|i: int|
        0 <= i < a.headers.len() ==> a.headers[i].0 == b.headers[i].0 && (a.headers[i].0
            != "Date"@ ==> a.headers[i].1 == b.headers[i].1)
}

/// Routing keeps no state: the same method and path always give the same
/// status, and, but for the clock route's body, the same response up to
/// the `Date` header.
pub proof fn lemma_route_repeatable(
    method: Seq<char>,
    path: Seq<char>,
    date1: CivilTime,
    local1: CivilTime,
    date2: CivilTime,
    local2: CivilTime,
)
    ensures
        routed(method, path, date1, local1).status_code == routed(
            method,
            path,
            date2,
            local2,
        ).status_code,
        routed(method, path, date1, local1).status_text == routed(
            method,
            path,
            date2,
            local2,
        ).status_text,
        !(method == "GET"@ && path == "/time"@) ==> agree_but_date(
            routed(method, path, date1, local1),
            routed(method, path, date2, local2),
        ),
{
}

/// `GET /time` answers `200 OK` with the local time as `DD/MM/YYYY
/// HH:MM:SS`, each letter a decimal digit, whenever the year has four digits.
pub proof fn lemma_time_route_shape(date: CivilTime, local: CivilTime)
    requires
        local.wf(),
        0 <= local.year <= 9999,
    ensures
        routed("GET"@, "/time"@, date, local).status_code == 200,
        routed("GET"@, "/time"@, date, local).status_text == "OK"@,
        fits(routed("GET"@, "/time"@, date, local).body, "##/##/#### ##:##:##"@),
{
    reveal_strlit("/time");
    reveal_strlit("/hello");
    assert("/time"@.len() != "/hello"@.len());
    lemma_clock_text_shape(local);
}

/// Routes `method` and `path`, stamping the response with `date`; `local`
/// is the local time that the clock route reports.
pub fn route_at(http_method: &str, http_path: &str, date: &CivilTime, local: &CivilTime) -> (r:
    HttpResponse)
    ensures
        r@ == routed(http_method@, http_path@, *date, *local),
        r.wf(),
{
    if same_text(http_method, "GET") {
        if same_text(http_path, "/hello") {
            return hello::handle_at(date);
        } else if same_text(http_path, "/time") {
            return time::handle_at(date, local);
        }
        if starts_with(http_path, "/echo/") {
            let n = http_path.unicode_len();
            let prefix_len = "/echo/".unicode_len();
            let text = http_path.substring_char(prefix_len, n);
            assert(text@ =~= http_path@.skip("/echo/"@.len() as int));
            return echo::handle_at(text, date);
        }
    }
    create_error_response_at(
        404,
        String::from_str("Not Found"),
        String::from_str("The entered path doesn't exist."),
        date,
    )
}

/// Routes `method` and `path`, stamping the response with the current
/// time.
pub fn route(http_method: &str, http_path: &str) -> (r: HttpResponse)
    ensures
        exists|d: CivilTime, l: CivilTime|
            d.wf() && l.wf() && r@ == routed(http_method@, http_path@, d, l),
        r.wf(),
{
    let local = local_now();
    let now = utc_now();
    route_at(http_method, http_path, &now, &local)
}

} // verus!
