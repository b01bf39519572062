//! `GET /echo/<text>`: the text back.

use vstd::prelude::*;

use crate::clock::{utc_now, CivilTime};
use crate::create_responses::{create_text_response_at, text_response};
use crate::response::HttpResponse;

verus! {

/// `text` as the body, stamped with `date`.
pub fn handle_at(text: &str, date: &CivilTime) -> (r: HttpResponse)
    ensures
        r@ == text_response(text@, *date),
        r.wf(),
{
    create_text_response_at(text.to_owned(), date)
}

/// `text` as the body, stamped with the current time.
pub fn handle(text: &str) -> (r: HttpResponse)
    ensures
        exists|t: CivilTime| t.wf() && r@ == text_response(text@, t),
        r.wf(),
{
    let now = utc_now();
    handle_at(text, &now)
}

} // verus!
