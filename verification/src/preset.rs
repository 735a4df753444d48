//! Quick time presets: the concrete start and stop strings for the
//! "yesterday" and "last week" shortcuts, computed from the local
//! calendar date. The calendar arithmetic itself is chrono's; the
//! decision and the formatting are verified against the dates it hands
//! back.

use vstd::prelude::*;
use crate::clock::{date_minus_days, local_today};
use crate::strutil::{spec_decimal, str_eq, u64_to_string};

verus! {

/// A decimal rendering zero-padded to two digits.
pub open spec fn spec_pad2(n: int) -> Seq<char> {
    if n < 10 {
        seq!['0'] + spec_decimal(n as nat)
    } else {
        spec_decimal(n as nat)
    }
}

/// A decimal rendering zero-padded to four digits.
pub open spec fn spec_pad4(n: int) -> Seq<char> {
    if n < 10 {
        seq!['0', '0', '0'] + spec_decimal(n as nat)
    } else if n < 100 {
        seq!['0', '0'] + spec_decimal(n as nat)
    } else if n < 1000 {
        seq!['0'] + spec_decimal(n as nat)
    } else {
        spec_decimal(n as nat)
    }
}

/// A calendar date written year-month-day with zero-padded fields.
pub open spec fn spec_date_str(y: int, m: int, d: int) -> Seq<char> {
    spec_pad4(y) + seq!['-'] + spec_pad2(m) + seq!['-'] + spec_pad2(d)
}

fn pad2(n: u64) -> (r: String)
    requires
        n < 100,
    ensures
        r@ == spec_pad2(n as int),
{
    if n < 10 {
        let r = String::from_str("0").concat(u64_to_string(n).as_str());
        proof {
            reveal_strlit("0");
            assert(r@ =~= spec_pad2(n as int));
        }
        r
    } else {
        u64_to_string(n)
    }
}

fn pad4(n: u64) -> (r: String)
    requires
        n < 10000,
    ensures
        r@ == spec_pad4(n as int),
{
    if n < 10 {
        let r = String::from_str("000").concat(u64_to_string(n).as_str());
        proof {
            reveal_strlit("000");
            assert(r@ =~= spec_pad4(n as int));
        }
        r
    } else if n < 100 {
        let r = String::from_str("00").concat(u64_to_string(n).as_str());
        proof {
            reveal_strlit("00");
            assert(r@ =~= spec_pad4(n as int));
        }
        r
    } else if n < 1000 {
        let r = String::from_str("0").concat(u64_to_string(n).as_str());
        proof {
            reveal_strlit("0");
            assert(r@ =~= spec_pad4(n as int));
        }
        r
    } else {
        u64_to_string(n)
    }
}

fn date_str(y: u64, m: u64, d: u64) -> (r: String)
    requires
        y < 10000,
        m < 100,
        d < 100,
    ensures
        r@ == spec_date_str(y as int, m as int, d as int),
{
    let r = pad4(y).concat("-").concat(pad2(m).as_str()).concat("-").concat(pad2(d).as_str());
    proof {
        reveal_strlit("-");
        assert(r@ =~= spec_date_str(y as int, m as int, d as int));
    }
    r
}

/// Whether a resolved date can be formatted: a four-digit year and
/// calendar-range month and day.
pub open spec fn date_in_range(t: (i32, u32, u32)) -> bool {
    0 <= t.0 <= 9999 && 1 <= t.1 <= 12 && 1 <= t.2 <= 31
}

/// The formatted range for a preset, given the resolved start and end
/// dates: day boundaries for "yesterday", the whole week for
/// "last_week", nothing for any other name or an unresolved or
/// unformattable date.
pub fn preset_strings(
    preset: &str,
    start_date: Option<(i32, u32, u32)>,
    end_date: Option<(i32, u32, u32)>,
) -> (r: Option<(String, String)>)
    ensures
        preset@ != "yesterday"@ && preset@ != "last_week"@ ==> r is None,
        preset@ == "yesterday"@ || preset@ == "last_week"@ ==> match (start_date, end_date) {
            (Some(s), Some(e)) => {
                if date_in_range(s) && date_in_range(e) {
                    r matches Some(p) && p.0@ == spec_date_str(s.0 as int, s.1 as int, s.2 as int)
                        + " 00:00:00"@ && p.1@ == spec_date_str(e.0 as int, e.1 as int, e.2 as int)
                        + (if preset@ == "yesterday"@ {
                        " 00:00:00"@
                    } else {
                        " 23:59:59"@
                    })
                } else {
                    r is None
                }
            },
            _ => r is None,
        },
{
    let is_yesterday = str_eq(preset, "yesterday");
    let is_last_week = str_eq(preset, "last_week");
    if !is_yesterday && !is_last_week {
        return None;
    }
    let (s, e) = match (start_date, end_date) {
        (Some(s), Some(e)) => (s, e),
        _ => {
            return None;
        },
    };
    if !(0 <= s.0 && s.0 <= 9999 && 1 <= s.1 && s.1 <= 12 && 1 <= s.2 && s.2 <= 31) {
        return None;
    }
    if !(0 <= e.0 && e.0 <= 9999 && 1 <= e.1 && e.1 <= 12 && 1 <= e.2 && e.2 <= 31) {
        return None;
    }
    let start = date_str(s.0 as u64, s.1 as u64, s.2 as u64).concat(" 00:00:00");
    let stop = if is_yesterday {
        date_str(e.0 as u64, e.1 as u64, e.2 as u64).concat(" 00:00:00")
    } else {
        date_str(e.0 as u64, e.1 as u64, e.2 as u64).concat(" 23:59:59")
    };
    Some((start, stop))
}

/// Resolves a quick preset against the wall clock: yesterday runs from
/// the previous day's midnight to today's, last week from its Monday
/// midnight to its Sunday's last second. Unknown names yield nothing.
pub fn quick_time_preset(preset: &str) -> (r: Option<(String, String)>)
    ensures
        preset@ != "yesterday"@ && preset@ != "last_week"@ ==> r is None,
{
    let today = local_today();
    let (y, m, d, dsm) = today;
    if str_eq(preset, "yesterday") {
        let sd = date_minus_days(y, m, d, 1);
        preset_strings(preset, sd, Some((y, m, d)))
    } else if str_eq(preset, "last_week") {
        let sd = date_minus_days(y, m, d, dsm + 7);
        let ed = date_minus_days(y, m, d, dsm + 1);
        preset_strings(preset, sd, ed)
    } else {
        None
    }
}

} // verus!
