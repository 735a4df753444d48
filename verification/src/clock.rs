//! Wall-clock and calendar readings, taken on trust from the chrono crate.
//! Everything that depends on the clock is confined to these items; the
//! callers state what holds of every reading.

use vstd::prelude::*;

verus! {

/// Relies on chrono's `Local::now` and its `%H:%M:%S` formatter: the current
/// local time of day as three zero-padded two-digit fields joined by colons,
/// eight characters in all.
#[verifier::external_body]
pub fn local_time_hms() -> (r: String)
    ensures
        r@.len() == 8,
{
    chrono::Local::now().format("%H:%M:%S").to_string()
}

/// Relies on chrono's `Local::now` and its `%Y-%m-%d %H:%M:%S` formatter:
/// the current local date and time, zero-padded fields, at least nineteen
/// characters.
#[verifier::external_body]
pub fn local_date_time() -> (r: String)
    ensures
        r@.len() >= 19,
{
    chrono::Local::now().format("%Y-%m-%d %H:%M:%S").to_string()
}

/// Relies on chrono's `Local::now` and the `Datelike` accessors: the current
/// local calendar date as (year, month, day, days since Monday), with month
/// 1 to 12, day 1 to 31, and weekday offset 0 to 6.
#[verifier::external_body]
pub fn local_today() -> (r: (i32, u32, u32, u32))
    ensures
        1 <= r.1 <= 12,
        1 <= r.2 <= 31,
        r.3 <= 6,
{
    let now = chrono::Local::now();
    let d = now.date_naive();
    let wd = chrono::Datelike::weekday(&d);
    (
        chrono::Datelike::year(&d),
        chrono::Datelike::month(&d),
        chrono::Datelike::day(&d),
        wd.num_days_from_monday(),
    )
}

/// The calendar date `n` days before year/month/day, as chrono computes it;
/// a fixed function of its arguments.
pub uninterp spec fn days_before(y: int, m: int, d: int, n: int) -> (int, int, int);

/// Relies on chrono's `NaiveDate::from_ymd_opt` and `checked_sub_days`: the
/// calendar date `n` days before the given date. The call only fails on an
/// invalid date or outside chrono's representable range; a returned month
/// and day are in calendar range.
#[verifier::external_body]
pub fn date_minus_days(y: i32, m: u32, d: u32, n: u32) -> (r: Option<(i32, u32, u32)>)
    ensures
        r matches Some(t) ==> {
            &&& (t.0 as int, t.1 as int, t.2 as int) == days_before(
                y as int,
                m as int,
                d as int,
                n as int,
            )
            &&& 1 <= t.1 <= 12
            &&& 1 <= t.2 <= 31
        },
{
    let date = chrono::NaiveDate::from_ymd_opt(y, m, d)?;
    let out = date.checked_sub_days(chrono::Days::new(n as u64))?;
    Some((
        chrono::Datelike::year(&out),
        chrono::Datelike::month(&out),
        chrono::Datelike::day(&out),
    ))
}

} // verus!
