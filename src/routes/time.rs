//! `GET /time`: the local time as `DD/MM/YYYY HH:MM:SS`.

use vstd::prelude::*;

use crate::clock::{clock_text, clock_text_of, local_now, utc_now, CivilTime};
use crate::create_responses::{create_text_response_at, text_response};
use crate::response::HttpResponse;

verus! {

/// The local time `local` as the body, stamped with `date`.
pub fn handle_at(date: &CivilTime, local: &CivilTime) -> (r: HttpResponse)
    ensures
        r@ == text_response(clock_text(*local), *date),
        r.wf(),
{
    create_text_response_at(clock_text_of(local), date)
}

/// The current local time as the body, stamped with the current time.
pub fn handle() -> (r: HttpResponse)
    ensures
        exists|d: CivilTime, l: CivilTime|
            d.wf() && l.wf() && r@ == text_response(clock_text(l), d),
        r.wf(),
{
    let local = local_now();
    let now = utc_now();
    handle_at(&now, &local)
}

} // verus!
