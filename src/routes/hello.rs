//! `GET /hello`: a fixed greeting.

use vstd::prelude::*;

use crate::clock::{utc_now, CivilTime};
use crate::create_responses::{create_text_response_at, text_response};
use crate::response::HttpResponse;

verus! {

/// The greeting, stamped with `date`.
pub fn handle_at(date: &CivilTime) -> (r: HttpResponse)
    ensures
        r@ == text_response("Hello World!"@, *date),
        r.wf(),
{
    create_text_response_at(String::from_str("Hello World!"), date)
}

/// The greeting, stamped with the current time.
pub fn handle() -> (r: HttpResponse)
    ensures
        exists|t: CivilTime| t.wf() && r@ == text_response("Hello World!"@, t),
        r.wf(),
{
    let now = utc_now();
    handle_at(&now)
}

} // verus!
