//! The spoken form of the local date and time that the `get_datetime` tool
//! reports, e.g. `It is 3:05 pm on Saturday, June 14, 2026.` The caller reads
//! the clock and hands over the calendar fields.
use vstd::prelude::*;

use crate::chars::{decimal, push_decimal};

verus! {

/// The English name of a weekday numbered from Monday (1) to Sunday (7).
pub open spec fn weekday_name(w: nat) -> Seq<char> {
    if w == 1 {
        "Monday"@
    } else if w == 2 {
        "Tuesday"@
    } else if w == 3 {
        "Wednesday"@
    } else if w == 4 {
        "Thursday"@
    } else if w == 5 {
        "Friday"@
    } else if w == 6 {
        "Saturday"@
    } else {
        "Sunday"@
    }
}

/// The English name of a month numbered from January (1) to December (12).
pub open spec fn month_name(m: nat) -> Seq<char> {
    if m == 1 {
        "January"@
    } else if m == 2 {
        "February"@
    } else if m == 3 {
        "March"@
    } else if m == 4 {
        "April"@
    } else if m == 5 {
        "May"@
    } else if m == 6 {
        "June"@
    } else if m == 7 {
        "July"@
    } else if m == 8 {
        "August"@
    } else if m == 9 {
        "September"@
    } else if m == 10 {
        "October"@
    } else if m == 11 {
        "November"@
    } else {
        "December"@
    }
}

/// The hour on a 12-hour clock with no leading zero: midnight and noon are 12.
pub open spec fn hour12(h: nat) -> nat {
    if h % 12 == 0 {
        12
    } else {
        h % 12
    }
}

/// `am` before noon, `pm` from noon on.
pub open spec fn meridiem(h: nat) -> Seq<char> {
    if h < 12 {
        "am"@
    } else {
        "pm"@
    }
}

/// A minute written with two digits.
pub open spec fn two_digits(m: nat) -> Seq<char> {
    if m < 10 {
        "0"@ + decimal(m)
    } else {
        decimal(m)
    }
}

/// A year in decimal, with a minus sign before the common era.
pub open spec fn year_text(y: int) -> Seq<char> {
    if y < 0 {
        "-"@ + decimal((-y) as nat)
    } else {
        decimal(y as nat)
    }
}

/// The sentence for the local time `hour:minute` on `weekday`, `month` `day`,
/// `year`.
pub open spec fn datetime_sentence_spec(hour: nat, minute: nat, weekday: nat, month: nat, day: nat, year: int) -> Seq<
    char,
> {
    "It is "@ + decimal(hour12(hour)) + ":"@ + two_digits(minute) + " "@ + meridiem(hour) + " on "@ + weekday_name(weekday)
        + ", "@ + month_name(month) + " "@ + decimal(day) + ", "@ + year_text(year) + "."@
}

fn weekday_str(w: u32) -> (r: &'static str)
    ensures
        r@ == weekday_name(w as nat),
{
    match w {
        1 => "Monday",
        2 => "Tuesday",
        3 => "Wednesday",
        4 => "Thursday",
        5 => "Friday",
        6 => "Saturday",
        _ => "Sunday",
    }
}

fn month_str(m: u32) -> (r: &'static str)
    ensures
        r@ == month_name(m as nat),
{
    match m {
        1 => "January",
        2 => "February",
        3 => "March",
        4 => "April",
        5 => "May",
        6 => "June",
        7 => "July",
        8 => "August",
        9 => "September",
        10 => "October",
        11 => "November",
        _ => "December",
    }
}

/// Say the local date and time: a 12-hour clock with no leading zero on the
/// hour, two-digit minutes, `am`/`pm`, then the weekday (numbered from Monday =
/// 1), the month (January = 1), the day and the year.
pub fn datetime_sentence(hour: u32, minute: u32, weekday: u32, month: u32, day: u32, year: i32) -> (r: String)
    requires
        hour < 24,
        minute < 60,
        1 <= weekday <= 7,
        1 <= month <= 12,
    ensures
        r@ == datetime_sentence_spec(hour as nat, minute as nat, weekday as nat, month as nat, day as nat, year as int),
{
    let h = hour % 12;
    let h12: u32 = if h == 0 { 12 } else { h };
    let mut s = String::from_str("It is ");
    push_decimal(&mut s, h12 as u64);
    s.append(":");
    if minute < 10 {
        s.append("0");
    }
    push_decimal(&mut s, minute as u64);
    s.append(" ");
    if hour < 12 {
        s.append("am");
    } else {
        s.append("pm");
    }
    s.append(" on ");
    s.append(weekday_str(weekday));
    s.append(", ");
    s.append(month_str(month));
    s.append(" ");
    push_decimal(&mut s, day as u64);
    s.append(", ");
    if year < 0 {
        s.append("-");
        let y: i64 = year as i64;
        push_decimal(&mut s, (-y) as u64);
    } else {
        push_decimal(&mut s, year as u64);
    }
    s.append(".");
    s
}

} // verus!
