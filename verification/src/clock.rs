//! The wall clock, read through `chrono`.

use vstd::prelude::*;
use chrono::NaiveDateTime;

verus! {

#[verifier::external_type_specification]
#[verifier::external_body]
pub struct ExNaiveDateTime(chrono::NaiveDateTime);

/// The `strftime` patterns this library formats the time with.
pub open spec fn is_time_pattern(p: Seq<char>) -> bool {
    ||| p == "%Y%m%d_%H%M%S"@
    ||| p == "%Y%m%d_%H%M%S_%3f"@
}

/// A decimal digit character.
pub open spec fn is_digit(c: char) -> bool {
    '0' <= c && c <= '9'
}

/// The characters of `t` at positions `from` up to `to` are digits.
pub open spec fn digits_in(t: Seq<char>, from: int, to: int) -> bool {
    forall|i: int| from <= i < to ==> #[trigger] is_digit(t[i])
}

/// A year as `%Y` writes it: four digits for the years 0 to 9999, else a
/// sign followed by at least four digits.
pub open spec fn year_form(y: Seq<char>) -> bool {
    ||| y.len() == 4 && digits_in(y, 0, 4)
    ||| y.len() >= 5 && (y[0] == '+' || y[0] == '-') && digits_in(y, 1, y.len() as int)
}

/// A year, then `dddd_dddddd`: the form of `%Y%m%d_%H%M%S`.
pub open spec fn timestamp_shape(t: Seq<char>) -> bool {
    let n = t.len() as int;
    &&& n >= 15
    &&& year_form(t.take(n - 11))
    &&& digits_in(t, n - 11, n - 7) && t[n - 7] == '_' && digits_in(t, n - 6, n)
}

/// A year, then `dddd_dddddd_ddd`: the form of `%Y%m%d_%H%M%S_%3f`.
pub open spec fn timestamp_millis_shape(t: Seq<char>) -> bool {
    let n = t.len() as int;
    &&& n >= 19
    &&& year_form(t.take(n - 15))
    &&& digits_in(t, n - 15, n - 11) && t[n - 11] == '_' && digits_in(t, n - 10, n - 4)
    &&& t[n - 4] == '_' && digits_in(t, n - 3, n)
}

/// `chrono::Local::now`: the current date and time, as the wall-clock time
/// of the local time zone (`naive_local`). Nothing is claimed of the value,
/// which depends on the clock and the machine's time zone.
#[verifier::external_body]
pub(crate) fn local_now() -> NaiveDateTime {
    chrono::Local::now().naive_local()
}

/// `NaiveDateTime::format` rendered to a string, for one of the patterns
/// above (`to_string` panics on a pattern that chrono cannot render, hence
/// the precondition). What is claimed is the form of the text, as chrono's
/// writers give it for every time value (`write_two` with zero padding for
/// `%m`, `%d`, `%H`, `%M`, `%S`; three digits of the milliseconds for `%3f`;
/// `write_year` for `%Y`: four digits within 0 to 9999, else `{:+05}`,
/// a sign and at least four digits); which digits it holds is
/// left unsaid, as the time value it renders is opaque here.
#[verifier::external_body]
pub(crate) fn format_time(t: &NaiveDateTime, pattern: &str) -> (r: String)
    requires
        is_time_pattern(pattern@),
    ensures
        pattern@ == "%Y%m%d_%H%M%S"@ ==> timestamp_shape(r@),
        pattern@ == "%Y%m%d_%H%M%S_%3f"@ ==> timestamp_millis_shape(r@),
{
    t.format(pattern).to_string()
}

} // verus!
