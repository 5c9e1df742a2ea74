//! The time of issue as it is printed.

use chrono::{Local, TimeZone};
use vstd::prelude::*;

use crate::text::decimal_nat;

verus! {

/// Whether a year has a leap day.
pub open spec fn leap(y: int) -> bool {
    y % 4 == 0 && (y % 100 != 0 || y % 400 == 0)
}

/// The days of a year before a month.
pub open spec fn days_before_month(y: int, m: int) -> int {
    let days = if m == 1 { 0int } else if m == 2 { 31 } else if m == 3 { 59 } else if m == 4 { 90 }
        else if m == 5 { 120 } else if m == 6 { 151 } else if m == 7 { 181 } else if m == 8 { 212 }
        else if m == 9 { 243 } else if m == 10 { 273 } else if m == 11 { 304 } else { 334 };
    if m > 2 && leap(y) {
        days + 1
    } else {
        days
    }
}

/// The days from the first of January 1970 to a date of the Gregorian calendar.
pub open spec fn day_number(y: int, m: int, d: int) -> int {
    365 * (y - 1970) + ((y - 1) / 4 - 492) - ((y - 1) / 100 - 19) + ((y - 1) / 400 - 4)
        + days_before_month(y, m) + d - 1
}

/// The days of a month.
pub open spec fn month_length(y: int, m: int) -> int {
    if m == 12 {
        31
    } else {
        days_before_month(y, m + 1) - days_before_month(y, m)
    }
}

/// Digits with zeros before them, up to a width.
pub open spec fn zero_padded(n: nat, width: nat) -> Seq<char> {
    let s = decimal_nat(n);
    if s.len() < width {
        Seq::new((width - s.len()) as nat, |i: int| '0') + s
    } else {
        s
    }
}

/// A year of four digits; any other with its sign.
pub open spec fn year_text(y: int) -> Seq<char> {
    if 0 <= y <= 9999 {
        zero_padded(y as nat, 4)
    } else if y < 0 {
        seq!['-'] + zero_padded((-y) as nat, 4)
    } else {
        seq!['+'] + zero_padded(y as nat, 4)
    }
}

/// A time by its date and its second of the day: `31.12.2025 23:59`.
pub open spec fn stamp_text(y: int, m: int, d: int, second: int) -> Seq<char> {
    zero_padded(d as nat, 2) + seq!['.'] + zero_padded(m as nat, 2) + seq!['.'] + year_text(y)
        + seq![' '] + zero_padded((second / 3600) as nat, 2) + seq![':'] + zero_padded(
        (second / 60 % 60) as nat,
        2,
    )
}

/// Whether a text is this point of time, as seconds since 1970, with a date of the calendar.
pub open spec fn is_stamp_of(text: Seq<char>, seconds: int, y: int, m: int, d: int) -> bool {
    &&& 1 <= m <= 12
    &&& 1 <= d <= month_length(y, m)
    &&& day_number(y, m, d) == seconds / 86400
    &&& text == stamp_text(y, m, d, seconds % 86400)
}

/// Whether a text is this point of time in a time zone that is `offset` seconds ahead.
pub open spec fn is_zone_stamp(text: Seq<char>, secs: int, offset: int) -> bool {
    exists|y: int, m: int, d: int| #[trigger] is_stamp_of(text, secs + offset, y, m, d)
}

/// Whether a text is this point of time in some time zone, less than a day from UTC.
pub open spec fn is_local_stamp(text: Seq<char>, secs: int) -> bool {
    exists|offset: int| -86400 < offset < 86400 && #[trigger] is_zone_stamp(text, secs, offset)
}

/// The points of time that have a date: the years from -262143 to 262142.
pub open spec fn stamp_range(secs: int) -> bool {
    -8_334_601_228_800 <= secs <= 8_210_266_876_799
}

/// `chrono::Local.timestamp_opt`, of a point of time, formatted as `%d.%m.%Y %H:%M`: there is
/// one exactly within the range of its dates, and it is that point of time in the time zone of
/// the machine. Which zone that is is not stated.
#[verifier::external_body]
pub(crate) fn issue_stamp(secs: i64) -> (r: Option<String>)
    ensures
        r is Some <==> stamp_range(secs as int),
        r matches Some(t) ==> is_local_stamp(t@, secs as int),
{
    match Local.timestamp_opt(secs, 0).single() {
        Some(t) => Some(t.format("%d.%m.%Y %H:%M").to_string()),
        None => None,
    }
}

} // verus!
