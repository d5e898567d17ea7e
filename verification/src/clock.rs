//! The wall clock as plain values, and its markup. Only the reading itself
//! comes from the clock library; all formatting is verified.

use vstd::prelude::*;
use chrono::Datelike;
use chrono::Timelike;
use crate::markup::{pad2, paint_spec, lightgrey_color, lightgrey_color_str, paint, time_string};
use crate::strutil::{dec_str_signed, i64_to_string};

verus! {

/// One wall-clock reading: local hour, minute, date, and the day of the
/// week counted from Monday.
#[derive(PartialEq, Eq, Structural, Clone, Copy, Debug)]
pub struct TimeParts {
    pub hour: u32,
    pub minute: u32,
    pub year: i32,
    pub month: u32,
    pub day: u32,
    pub weekday: u32,
}

impl TimeParts {
    /// The ranges the clock library documents for each component.
    pub open spec fn wf(self) -> bool {
        self.hour < 24 && self.minute < 60 && 1 <= self.month <= 12 && 1 <= self.day <= 31
            && self.weekday < 7
    }

    /// Exec twin of [`TimeParts::wf`].
    pub fn is_wf(&self) -> (r: bool)
        ensures
            r == self.wf(),
    {
        self.hour < 24 && self.minute < 60 && 1 <= self.month && self.month <= 12
            && 1 <= self.day && self.day <= 31 && self.weekday < 7
    }
}

/// Relies on chrono: Local::now() with the Timelike and Datelike
/// accessors, whose documentation promises hour 0..=23, minute 0..=59,
/// month 1..=12, day 1..=31, and Weekday::num_days_from_monday 0..=6.
#[verifier::external_body]
pub(crate) fn now_parts() -> (r: TimeParts)
    ensures
        r.wf(),
{
    let now = chrono::Local::now();
    TimeParts {
        hour: now.hour(),
        minute: now.minute(),
        year: now.year(),
        month: now.month(),
        day: now.day(),
        weekday: now.weekday().num_days_from_monday(),
    }
}

/// The short name of a weekday counted from Monday.
pub open spec fn weekday_name(w: int) -> Seq<char> {
    if w == 0 {
        "Mon"@
    } else if w == 1 {
        "Tue"@
    } else if w == 2 {
        "Wed"@
    } else if w == 3 {
        "Thu"@
    } else if w == 4 {
        "Fri"@
    } else if w == 5 {
        "Sat"@
    } else {
        "Sun"@
    }
}

fn weekday_name_str(w: u32) -> (r: &'static str)
    requires
        w < 7,
    ensures
        r@ == weekday_name(w as int),
{
    match w {
        0 => "Mon",
        1 => "Tue",
        2 => "Wed",
        3 => "Thu",
        4 => "Fri",
        5 => "Sat",
        _ => "Sun",
    }
}

/// The clock markup: zero-padded hour and minute around a colon painted in
/// the colon color; in detail mode followed by the weekday, the date as
/// year, zero-padded month and zero-padded day.
pub open spec fn time_markup(p: TimeParts, detailed: bool) -> Seq<char> {
    let base = pad2(p.hour as nat) + paint_spec(":"@, lightgrey_color(), "F"@) + pad2(
        p.minute as nat,
    );
    if detailed {
        base + " "@ + weekday_name(p.weekday as int) + " "@ + dec_str_signed(p.year as int)
            + "-"@ + pad2(p.month as nat) + "-"@ + pad2(p.day as nat)
    } else {
        base
    }
}

/// Format one clock reading as markup.
pub fn time_from_parts(p: &TimeParts, detailed: bool) -> (r: String)
    requires
        p.wf(),
    ensures
        r@ == time_markup(*p, detailed),
{
    let colon = paint(":", lightgrey_color_str(), "F");
    let mut r = time_string(p.hour as u64);
    r.append(colon.as_str());
    r.append(time_string(p.minute as u64).as_str());
    if detailed {
        r.append(" ");
        r.append(weekday_name_str(p.weekday));
        r.append(" ");
        r.append(i64_to_string(p.year as i64).as_str());
        r.append("-");
        r.append(time_string(p.month as u64).as_str());
        r.append("-");
        r.append(time_string(p.day as u64).as_str());
        proof {
            assert(r@ =~= time_markup(*p, detailed));
        }
    } else {
        proof {
            assert(r@ =~= time_markup(*p, detailed));
        }
    }
    r
}

} // verus!
