//! How long ago a commit was made, in the largest unit that differs.
use vstd::prelude::*;
use vstd::string::*;
use chrono::{DateTime, Datelike, Timelike};
use crate::commit::Commit;
use crate::text::{decimal, decimal_of};

verus! {

/// A UTC date and time of day, as calendar fields.
#[derive(Debug, Clone, Copy, PartialEq, Eq, Structural)]
pub struct DateTimeParts {
    pub year: i32,
    pub month: u32,
    pub day: u32,
    pub hour: u32,
    pub minute: u32,
    pub second: u32,
}

/// The UTC calendar fields (year, month, day, hour, minute, second) of the
/// Unix time `secs`, when it is within the calendar's range.
pub uninterp spec fn utc_fields(secs: int) -> Option<(int, int, int, int, int, int)>;

/// Relies on `chrono::DateTime::from_timestamp` (with no nanoseconds) and
/// the `Datelike` / `Timelike` accessors: `None` for a time out of range,
/// else its calendar fields, with month 1 to 12, day 1 to 31, hour 0 to 23,
/// minute and second 0 to 59.
#[verifier::external_body]
fn civil_of(secs: i64) -> (r: Option<DateTimeParts>)
    ensures
        match r {
            Some(p) => {
                &&& utc_fields(secs as int) == Some(
                    (
                        p.year as int,
                        p.month as int,
                        p.day as int,
                        p.hour as int,
                        p.minute as int,
                        p.second as int,
                    ),
                )
                &&& 1 <= p.month <= 12
                &&& 1 <= p.day <= 31
                &&& p.hour <= 23
                &&& p.minute <= 59
                &&& p.second <= 59
            },
            None => utc_fields(secs as int) is None,
        },
{
    match DateTime::from_timestamp(secs, 0) {
        Some(t) => Some(
            DateTimeParts {
                year: t.year(),
                month: t.month(),
                day: t.day(),
                hour: t.hour(),
                minute: t.minute(),
                second: t.second(),
            },
        ),
        None => None,
    }
}

/// The decimal digits of `x`, with a minus sign when it is negative.
pub open spec fn signed_decimal(x: int) -> Seq<char> {
    if x < 0 {
        seq!['-'] + decimal_of((-x) as nat)
    } else {
        decimal_of(x as nat)
    }
}

/// How long before `now` the time `then` is: the difference of the first
/// field that differs, from the year down to the second, and its unit.
pub open spec fn relative_text(then: DateTimeParts, now: DateTimeParts) -> Seq<char> {
    if then.year != now.year {
        signed_decimal(now.year - then.year) + seq!['Y']
    } else if then.month != now.month {
        signed_decimal(now.month - then.month) + seq!['M']
    } else if then.day != now.day {
        signed_decimal(now.day - then.day) + seq!['D']
    } else if then.hour != now.hour {
        signed_decimal(now.hour - then.hour) + seq!['h']
    } else if then.minute != now.minute {
        signed_decimal(now.minute - then.minute) + seq!['m']
    } else {
        signed_decimal(now.second - then.second) + seq!['s']
    }
}

fn signed_string(x: i64) -> (s: String)
    requires
        x > i64::MIN,
    ensures
        s@ == signed_decimal(x as int),
{
    if x < 0 {
        proof {
            reveal_strlit("-");
        }
        let digits = decimal((-x) as u64);
        String::from_str("-").concat(digits.as_str())
    } else {
        decimal(x as u64)
    }
}

fn with_unit(x: i64, unit: &str) -> (s: String)
    requires
        x > i64::MIN,
    ensures
        s@ == signed_decimal(x as int) + unit@,
{
    signed_string(x).concat(unit)
}

/// How long before `now` the time `then` is, as `3Y`, `2M`, `5D`, `4h`,
/// `10m` or `7s`.
pub fn relative_time(then: &DateTimeParts, now: &DateTimeParts) -> (s: String)
    ensures
        s@ == relative_text(*then, *now),
{
    proof {
        reveal_strlit("Y");
        reveal_strlit("M");
        reveal_strlit("D");
        reveal_strlit("h");
        reveal_strlit("m");
        reveal_strlit("s");
    }
    if then.year != now.year {
        with_unit(now.year as i64 - then.year as i64, "Y")
    } else if then.month != now.month {
        with_unit(now.month as i64 - then.month as i64, "M")
    } else if then.day != now.day {
        with_unit(now.day as i64 - then.day as i64, "D")
    } else if then.hour != now.hour {
        with_unit(now.hour as i64 - then.hour as i64, "h")
    } else if then.minute != now.minute {
        with_unit(now.minute as i64 - then.minute as i64, "m")
    } else {
        with_unit(now.second as i64 - then.second as i64, "s")
    }
}

/// Something with a time that can be told relative to now.
pub trait RelativeTime {
    /// How long before the Unix time `now` this was, or an empty text when
    /// there is no time to tell.
    fn relative_time(&self, now: i64) -> String;
}

/// The calendar fields of a time as `utc_fields` gives them.
pub open spec fn parts_of(f: (int, int, int, int, int, int)) -> DateTimeParts {
    DateTimeParts {
        year: f.0 as i32,
        month: f.1 as u32,
        day: f.2 as u32,
        hour: f.3 as u32,
        minute: f.4 as u32,
        second: f.5 as u32,
    }
}

/// How long before the Unix time `now` the Unix time `ts` is, or an empty
/// text when there is no time or it is out of the calendar's range.
pub open spec fn age_text(ts: Option<i64>, now: i64) -> Seq<char> {
    match ts {
        Some(t) => match (utc_fields(t as int), utc_fields(now as int)) {
            (Some(a), Some(b)) => relative_text(parts_of(a), parts_of(b)),
            _ => Seq::empty(),
        },
        None => Seq::empty(),
    }
}

impl Commit {
    /// How long before the Unix time `now` the commit was made.
    pub fn age(&self, now: i64) -> (s: String)
        ensures
            s@ == age_text(self.timestamp, now),
    {
        match self.timestamp {
            Some(t) => match (civil_of(t), civil_of(now)) {
                (Some(a), Some(b)) => relative_time(&a, &b),
                _ => String::new(),
            },
            None => String::new(),
        }
    }
}

impl RelativeTime for Commit {
    fn relative_time(&self, now: i64) -> String {
        self.age(now)
    }
}

} // verus!
