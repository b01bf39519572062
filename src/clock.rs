//! Wall-clock readings as plain calendar fields, and their two textual
//! forms: the HTTP-date of the `Date` header and the `DD/MM/YYYY HH:MM:SS`
//! body of the clock route.

use chrono::{Datelike, Timelike};
use vstd::prelude::*;

use crate::text::{decimal, digit_chars, is_digit, padded, padded_text, zeros};

verus! {

/// A calendar date and time of day, as read from a clock.
///
/// `weekday` counts days from Monday (Monday is 0, Sunday is 6).
#[derive(Clone, Copy, Debug, PartialEq, Eq, Structural)]
pub struct CivilTime {
    pub year: i32,
    pub month: u32,
    pub day: u32,
    pub hour: u32,
    pub minute: u32,
    pub second: u32,
    pub weekday: u32,
}

impl CivilTime {
    /// Every field lies in its calendar range.
    pub open spec fn wf(&self) -> bool {
        &&& 1 <= self.month <= 12
        &&& 1 <= self.day <= 31
        &&& self.hour < 24
        &&& self.minute < 60
        &&& self.second < 60
        &&& self.weekday < 7
    }
}

/// Relies on chrono's `Utc::now` and the `Datelike` / `Timelike` accessors of
/// its result: the current UTC time, each field within its calendar range
/// (`Utc::now` panics only when the system clock lies before 1970).
#[verifier::external_body]
pub(crate) fn utc_now() -> (r: CivilTime)
    ensures
        r.wf(),
{
    let now = chrono::Utc::now();
    CivilTime {
        year: now.year(),
        month: now.month(),
        day: now.day(),
        hour: now.hour(),
        minute: now.minute(),
        second: now.second(),
        weekday: now.weekday().num_days_from_monday(),
    }
}

/// Relies on chrono's `Local::now` and the `Datelike` / `Timelike` accessors
/// of its result: the current local time, each field within its calendar
/// range.
#[verifier::external_body]
pub(crate) fn local_now() -> (r: CivilTime)
    ensures
        r.wf(),
{
    let now = chrono::Local::now();
    CivilTime {
        year: now.year(),
        month: now.month(),
        day: now.day(),
        hour: now.hour(),
        minute: now.minute(),
        second: now.second(),
        weekday: now.weekday().num_days_from_monday(),
    }
}

/// The English three-letter abbreviation of a weekday (Monday is 0).
pub open spec fn weekday_name(w: u32) -> Seq<char> {
    if w == 0 {
        "Mon"@
    } else if w == 1 {
        "Tue"@
    } else if w == 2 {
        "Wed"@
    } else if w == 3 {
        "Thu"@
    } else if w == 4 {
        "Fri"@
    } else if w == 5 {
        "Sat"@
    } else {
        "Sun"@
    }
}

/// The English three-letter abbreviation of a month (January is 1).
pub open spec fn month_name(m: u32) -> Seq<char> {
    if m == 1 {
        "Jan"@
    } else if m == 2 {
        "Feb"@
    } else if m == 3 {
        "Mar"@
    } else if m == 4 {
        "Apr"@
    } else if m == 5 {
        "May"@
    } else if m == 6 {
        "Jun"@
    } else if m == 7 {
        "Jul"@
    } else if m == 8 {
        "Aug"@
    } else if m == 9 {
        "Sep"@
    } else if m == 10 {
        "Oct"@
    } else if m == 11 {
        "Nov"@
    } else {
        "Dec"@
    }
}

/// A year: four zero-padded digits within 0..=9999, otherwise an explicit
/// sign before at least four digits.
pub open spec fn year_text(y: i32) -> Seq<char> {
    if 0 <= y <= 9999 {
        padded(y as nat, 4)
    } else if y < 0 {
        seq!['-'] + padded((-(y as int)) as nat, 4)
    } else {
        seq!['+'] + padded(y as nat, 4)
    }
}

/// `HH:MM:SS`.
pub open spec fn time_of_day_text(t: CivilTime) -> Seq<char> {
    padded(t.hour as nat, 2) + seq![':'] + padded(t.minute as nat, 2) + seq![':'] + padded(
        t.second as nat,
        2,
    )
}

/// The HTTP-date form: `Sun, 06 Nov 1994 08:49:37 GMT`.
pub open spec fn http_date_text(t: CivilTime) -> Seq<char> {
    weekday_name(t.weekday) + seq![',', ' '] + padded(t.day as nat, 2) + seq![' '] + month_name(
        t.month,
    ) + seq![' '] + year_text(t.year) + seq![' '] + time_of_day_text(t) + seq![' ', 'G', 'M', 'T']
}

/// The clock route's form: `DD/MM/YYYY HH:MM:SS`.
pub open spec fn clock_text(t: CivilTime) -> Seq<char> {
    padded(t.day as nat, 2) + seq!['/'] + padded(t.month as nat, 2) + seq!['/'] + year_text(t.year)
        + seq![' '] + time_of_day_text(t)
}

fn weekday_label(w: u32) -> (r: &'static str)
    ensures
        r@ == weekday_name(w),
{
    if w == 0 {
        "Mon"
    } else if w == 1 {
        "Tue"
    } else if w == 2 {
        "Wed"
    } else if w == 3 {
        "Thu"
    } else if w == 4 {
        "Fri"
    } else if w == 5 {
        "Sat"
    } else {
        "Sun"
    }
}

fn month_label(m: u32) -> (r: &'static str)
    ensures
        r@ == month_name(m),
{
    if m == 1 {
        "Jan"
    } else if m == 2 {
        "Feb"
    } else if m == 3 {
        "Mar"
    } else if m == 4 {
        "Apr"
    } else if m == 5 {
        "May"
    } else if m == 6 {
        "Jun"
    } else if m == 7 {
        "Jul"
    } else if m == 8 {
        "Aug"
    } else if m == 9 {
        "Sep"
    } else if m == 10 {
        "Oct"
    } else if m == 11 {
        "Nov"
    } else {
        "Dec"
    }
}

/// Appends `t` to `out`.
fn push_text(out: &mut String, t: &str)
    ensures
        final(out)@ == old(out)@ + t@,
{
    out.append(t);
}

fn push_year(out: &mut String, y: i32)
    ensures
        final(out)@ == old(out)@ + year_text(y),
{
    if 0 <= y && y <= 9999 {
        push_text(out, padded_text(y as u64, 4).as_str());
    } else if y < 0 {
        push_text(out, "-");
        proof {
            reveal_strlit("-");
        }
        let magnitude: u64 = (0i64 - y as i64) as u64;
        push_text(out, padded_text(magnitude, 4).as_str());
        assert(final(out)@ =~= old(out)@ + year_text(y));
    } else {
        push_text(out, "+");
        proof {
            reveal_strlit("+");
        }
        push_text(out, padded_text(y as u64, 4).as_str());
        assert(final(out)@ =~= old(out)@ + year_text(y));
    }
}

fn push_time_of_day(out: &mut String, t: &CivilTime)
    ensures
        final(out)@ == old(out)@ + time_of_day_text(*t),
{
    proof {
        reveal_strlit(":");
    }
    push_text(out, padded_text(t.hour as u64, 2).as_str());
    push_text(out, ":");
    push_text(out, padded_text(t.minute as u64, 2).as_str());
    push_text(out, ":");
    push_text(out, padded_text(t.second as u64, 2).as_str());
    assert(final(out)@ =~= old(out)@ + time_of_day_text(*t));
}

/// Renders `t` as an HTTP-date.
pub fn http_date(t: &CivilTime) -> (r: String)
    ensures
        r@ == http_date_text(*t),
{
    proof {
        reveal_strlit(", ");
        reveal_strlit(" ");
        reveal_strlit(" GMT");
    }
    let mut r = String::new();
    push_text(&mut r, weekday_label(t.weekday));
    push_text(&mut r, ", ");
    push_text(&mut r, padded_text(t.day as u64, 2).as_str());
    push_text(&mut r, " ");
    push_text(&mut r, month_label(t.month));
    push_text(&mut r, " ");
    push_year(&mut r, t.year);
    push_text(&mut r, " ");
    push_time_of_day(&mut r, t);
    push_text(&mut r, " GMT");
    assert(r@ =~= http_date_text(*t));
    r
}

/// Renders `t` as `DD/MM/YYYY HH:MM:SS`.
pub fn clock_text_of(t: &CivilTime) -> (r: String)
    ensures
        r@ == clock_text(*t),
{
    proof {
        reveal_strlit("/");
        reveal_strlit(" ");
    }
    let mut r = String::new();
    push_text(&mut r, padded_text(t.day as u64, 2).as_str());
    push_text(&mut r, "/");
    push_text(&mut r, padded_text(t.month as u64, 2).as_str());
    push_text(&mut r, "/");
    push_year(&mut r, t.year);
    push_text(&mut r, " ");
    push_time_of_day(&mut r, t);
    assert(r@ =~= clock_text(*t));
    r
}

/// `s` has the shape of `pattern`: a `#` there stands for any decimal
/// digit, every other character for itself.
pub open spec fn fits(s: Seq<char>, pattern: Seq<char>) -> bool {
    &&& s.len() == pattern.len()
    &&& forall|i: int|
        0 <= i < s.len() ==> if pattern[i] == '#' {
            is_digit(s[i])
        } else {
            s[i] == pattern[i]
        }
}

/// `width` digit placeholders.
pub open spec fn digit_slots(width: nat) -> Seq<char> {
    Seq::new(width, |i: int| '#')
}

proof fn lemma_fits_concat(a: Seq<char>, p: Seq<char>, b: Seq<char>, q: Seq<char>)
    requires
        fits(a, p),
        fits(b, q),
    ensures
        fits(a + b, p + q),
{
    assert forall|i: int| 0 <= i < (a + b).len() implies if (p + q)[i] == '#' {
        is_digit((a + b)[i])
    } else {
        (a + b)[i] == (p + q)[i]
    } by {
        if i >= a.len() {
            assert((a + b)[i] == b[i - a.len()]);
            assert((p + q)[i] == q[i - p.len()]);
        }
    }
}

proof fn lemma_decimal_digits(n: nat)
    ensures
        forall|i: int| 0 <= i < decimal(n).len() ==> is_digit(#[trigger] decimal(n)[i]),
        n < 10 ==> decimal(n).len() == 1,
        n < 100 ==> decimal(n).len() <= 2,
        n < 1000 ==> decimal(n).len() <= 3,
        n < 10000 ==> decimal(n).len() <= 4,
    decreases n,
{
    assert(forall|k: int| 0 <= k < 10 ==> is_digit(#[trigger] digit_chars()[k]));
    if n >= 10 {
        lemma_decimal_digits(n / 10);
        assert forall|i: int| 0 <= i < decimal(n).len() implies is_digit(
            #[trigger] decimal(n)[i],
        ) by {
            if i < decimal(n / 10).len() {
                assert(decimal(n)[i] == decimal(n / 10)[i]);
            }
        }
    }
}

proof fn lemma_padded_fits(n: nat, width: nat)
    requires
        decimal(n).len() <= width,
    ensures
        fits(padded(n, width), digit_slots(width)),
{
    lemma_decimal_digits(n);
    let z = zeros((width - decimal(n).len()) as nat);
    assert(fits(z, digit_slots(z.len())));
    assert(fits(decimal(n), digit_slots(decimal(n).len())));
    if decimal(n).len() < width {
        lemma_fits_concat(z, digit_slots(z.len()), decimal(n), digit_slots(decimal(n).len()));
        assert(digit_slots(z.len()) + digit_slots(decimal(n).len()) =~= digit_slots(width));
    } else {
        assert(digit_slots(decimal(n).len()) =~= digit_slots(width));
    }
}

/// The clock route's text of every time whose year lies in 0..=9999 has
/// the shape `DD/MM/YYYY HH:MM:SS`, each letter a decimal digit.
pub proof fn lemma_clock_text_shape(t: CivilTime)
    requires
        t.wf(),
        0 <= t.year <= 9999,
    ensures
        fits(clock_text(t), "##/##/#### ##:##:##"@),
{
    lemma_decimal_digits(t.day as nat);
    lemma_decimal_digits(t.month as nat);
    lemma_decimal_digits(t.year as nat);
    lemma_decimal_digits(t.hour as nat);
    lemma_decimal_digits(t.minute as nat);
    lemma_decimal_digits(t.second as nat);
    lemma_padded_fits(t.day as nat, 2);
    lemma_padded_fits(t.month as nat, 2);
    lemma_padded_fits(t.year as nat, 4);
    lemma_padded_fits(t.hour as nat, 2);
    lemma_padded_fits(t.minute as nat, 2);
    lemma_padded_fits(t.second as nat, 2);
    let d2 = digit_slots(2);
    let slash = seq!['/'];
    let space = seq![' '];
    let colon = seq![':'];
    assert(fits(slash, slash));
    assert(fits(space, space));
    assert(fits(colon, colon));
    let pd = padded(t.day as nat, 2);
    let pm = padded(t.month as nat, 2);
    let py = padded(t.year as nat, 4);
    let ph = padded(t.hour as nat, 2);
    let pi = padded(t.minute as nat, 2);
    let ps = padded(t.second as nat, 2);
    lemma_fits_concat(ph, d2, colon, colon);
    lemma_fits_concat(ph + colon, d2 + colon, pi, d2);
    lemma_fits_concat(ph + colon + pi, d2 + colon + d2, colon, colon);
    lemma_fits_concat(ph + colon + pi + colon, d2 + colon + d2 + colon, ps, d2);
    let tp = d2 + colon + d2 + colon + d2;
    lemma_fits_concat(pd, d2, slash, slash);
    lemma_fits_concat(pd + slash, d2 + slash, pm, d2);
    lemma_fits_concat(pd + slash + pm, d2 + slash + d2, slash, slash);
    lemma_fits_concat(pd + slash + pm + slash, d2 + slash + d2 + slash, py, digit_slots(4));
    let dp = d2 + slash + d2 + slash + digit_slots(4);
    lemma_fits_concat(pd + slash + pm + slash + py, dp, space, space);
    lemma_fits_concat(pd + slash + pm + slash + py + space, dp + space, time_of_day_text(t), tp);
    reveal_strlit("##/##/#### ##:##:##");
    assert(dp + space + tp =~= "##/##/#### ##:##:##"@);
}

} // verus!
