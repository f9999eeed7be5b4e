use vstd::prelude::*;
use chrono::Datelike;
use chrono::Timelike;
use crate::decimal::{decimal_int, push_int};

verus! {

/// A UTC calendar time to the minute.
#[derive(Clone, Copy, Debug, PartialEq, Eq, Structural)]
pub struct UtcTime {
    pub year: i32,
    pub month: u32,
    pub day: u32,
    pub hour: u32,
    pub minute: u32,
}

/// Year, month, day, hour and minute (UTC) that `chrono` gives for a count of
/// seconds since 1970-01-01 00:00 UTC, or nothing when `chrono` cannot
/// represent that instant.
pub uninterp spec fn utc_calendar(secs: i64) -> Option<(i32, u32, u32, u32, u32)>;

/// The calendar time of `secs` as a `UtcTime`.
pub open spec fn calendar_time(secs: i64) -> Option<UtcTime> {
    match utc_calendar(secs) {
        Some((year, month, day, hour, minute)) => Some(UtcTime { year, month, day, hour, minute }),
        None => None,
    }
}

#[verifier::external_type_specification]
#[verifier::external_body]
pub struct ExSystemTime(std::time::SystemTime);

/// The system clock's reading, from `std::time::SystemTime::now`. Nothing is
/// promised of it.
#[verifier::external_body]
fn clock_now() -> std::time::SystemTime {
    std::time::SystemTime::now()
}

/// Where an instant lies from 1970-01-01 00:00 UTC, from
/// `SystemTime::duration_since(UNIX_EPOCH)`: `Ok` with the time after it, or
/// `Err` with the time before it (the error's `duration`). Nothing is
/// promised of the durations.
#[verifier::external_body]
fn epoch_offset(t: &std::time::SystemTime) -> Result<std::time::Duration, std::time::Duration> {
    match t.duration_since(std::time::UNIX_EPOCH) {
        Ok(d) => Ok(d),
        Err(e) => Err(e.duration()),
    }
}

/// The whole milliseconds of a duration, from `Duration::as_millis`. Nothing
/// is promised of the value.
#[verifier::external_body]
fn whole_millis(d: &std::time::Duration) -> u128 {
    d.as_millis()
}

/// The calendar fields of an instant, from `chrono::DateTime::<Utc>::from_timestamp`
/// and its `year`, `month`, `day`, `hour` and `minute`. Trusted: the result is
/// named `utc_calendar`, and, as chrono documents, the month lies in 1..=12,
/// the day in 1..=31, the hour in 0..=23 and the minute in 0..=59.
#[verifier::external_body]
fn calendar_from_secs(secs: i64) -> (res: Option<UtcTime>)
    ensures
        res is None <==> utc_calendar(secs) is None,
        res matches Some(t) ==> utc_calendar(secs) == Some(
            (t.year, t.month, t.day, t.hour, t.minute),
        ),
        res matches Some(t) ==> 1 <= t.month <= 12 && 1 <= t.day <= 31 && t.hour < 24 && t.minute
            < 60,
{
    match chrono::DateTime::<chrono::Utc>::from_timestamp(secs, 0) {
        Some(dt) => Some(UtcTime {
            year: dt.year(),
            month: dt.month(),
            day: dt.day(),
            hour: dt.hour(),
            minute: dt.minute(),
        }),
        None => None,
    }
}

/// Milliseconds the satellite pictures lag behind: 16 minutes.
pub const PICTURE_DELAY_MILLIS: i64 = 960000;

/// Seconds (rounded toward zero, as integer division does) of the instant
/// 16 minutes before `millis`.
pub open spec fn delayed_secs(millis: int) -> int {
    let shifted = millis - 960000;
    if shifted >= 0 {
        shifted / 1000
    } else {
        -((-shifted) / 1000)
    }
}

/// The time of the newest picture the server can be expected to have at
/// `millis`, or `None` when that instant cannot be represented.
pub open spec fn picture_time(millis: int) -> Option<UtcTime> {
    if millis - 960000 < i64::MIN {
        None
    } else {
        calendar_time(delayed_secs(millis) as i64)
    }
}

/// The UTC time 16 minutes before the instant `millis` (milliseconds since
/// 1970-01-01 00:00 UTC); `None` when it lies outside what `chrono` represents.
pub fn time_of_picture(millis: i64) -> (res: Option<UtcTime>)
    ensures
        res == picture_time(millis as int),
        res matches Some(t) ==> 1 <= t.month <= 12 && 1 <= t.day <= 31 && t.hour < 24 && t.minute
            < 60,
{
    if millis < i64::MIN + PICTURE_DELAY_MILLIS {
        return None;
    }
    let shifted = (millis - PICTURE_DELAY_MILLIS) as i128;
    let secs = if shifted >= 0 {
        shifted / 1000
    } else {
        -((-shifted) / 1000)
    };
    calendar_from_secs(secs as i64)
}

/// The instant of a clock reading, in milliseconds since 1970-01-01 00:00
/// UTC: `millis` whole milliseconds after it, or before it when
/// `before_1970`.
pub open spec fn reading_millis(before_1970: bool, millis: u128) -> int {
    if before_1970 {
        -(millis as int)
    } else {
        millis as int
    }
}

/// The time of the newest picture at a clock reading; `None` when the
/// instant lies beyond what `i64` milliseconds count, or `picture_time` has
/// none.
pub open spec fn reading_picture_time(before_1970: bool, millis: u128) -> Option<UtcTime> {
    let m = reading_millis(before_1970, millis);
    if i64::MIN <= m <= i64::MAX {
        picture_time(m)
    } else {
        None
    }
}

/// The time of the newest picture at the clock reading `millis` whole
/// milliseconds after 1970-01-01 00:00 UTC, or before it when `before_1970`.
pub fn picture_time_of_reading(before_1970: bool, millis: u128) -> (res: Option<UtcTime>)
    ensures
        res == reading_picture_time(before_1970, millis),
{
    if before_1970 {
        if millis < 9223372036854775808u128 {
            let m: i64 = -(millis as i64);
            time_of_picture(m)
        } else if millis == 9223372036854775808u128 {
            time_of_picture(i64::MIN)
        } else {
            None
        }
    } else if millis <= 9223372036854775807u128 {
        time_of_picture(millis as i64)
    } else {
        None
    }
}

/// The picture time at a clock reading is the UTC calendar time of the
/// instant 16 minutes before it: for a reading `ms + 16 minutes` after 1970
/// it is the calendar time of second `ms / 1000`, and for a reading `ms`
/// before 1970 that of second `-((ms + 16 minutes) / 1000)` (whole seconds
/// toward 1970).
pub proof fn lemma_picture_time_is_sixteen_minutes_back(ms: u128)
    ensures
        ms + 960000 <= i64::MAX ==> reading_picture_time(false, (ms + 960000) as u128)
            == calendar_time((ms / 1000) as i64),
        ms + 960000 <= 0x8000_0000_0000_0000 ==> reading_picture_time(true, ms) == calendar_time(
            (-((ms + 960000) / 1000)) as i64,
        ),
{
}

/// The time of the newest picture, read from the system clock: its distance
/// from 1970-01-01 00:00 UTC in whole milliseconds (before or after), handed
/// to `picture_time_of_reading`.
pub fn current_picture_time() -> (res: Option<UtcTime>)
    ensures
        exists|before_1970: bool, millis: u128| res == reading_picture_time(before_1970, millis),
{
    let now = clock_now();
    match epoch_offset(&now) {
        Ok(after) => {
            let millis = whole_millis(&after);
            picture_time_of_reading(false, millis)
        },
        Err(before) => {
            let millis = whole_millis(&before);
            picture_time_of_reading(true, millis)
        },
    }
}

/// The name under which the joined picture of time `t` is kept:
/// `year_month_day_hour_tenminute.png` for the 4x4 split, with `_2x2` before
/// the extension for the 2x2 split.
pub open spec fn cache_name(t: UtcTime, grid: u32) -> Seq<char> {
    decimal_int(t.year as int) + "_"@ + decimal_int(t.month as int) + "_"@ + decimal_int(
        t.day as int,
    ) + "_"@ + decimal_int(t.hour as int) + "_"@ + decimal_int((t.minute / 10) as int) + (if grid
        == 2 {
        "_2x2.png"@
    } else {
        ".png"@
    })
}

/// The file name under which the joined picture of time `t`, downloaded as
/// a `grid` x `grid` split, is kept.
pub fn cache_file_name(t: &UtcTime, grid: u32) -> (name: String)
    ensures
        name@ == cache_name(*t, grid),
{
    let mut s = String::new();
    push_int(&mut s, t.year as i64);
    s.append("_");
    push_int(&mut s, t.month as i64);
    s.append("_");
    push_int(&mut s, t.day as i64);
    s.append("_");
    push_int(&mut s, t.hour as i64);
    s.append("_");
    push_int(&mut s, (t.minute / 10) as i64);
    if grid == 2 {
        s.append("_2x2.png");
    } else {
        s.append(".png");
    }
    s
}

} // verus!
