use vstd::prelude::*;

use chrono::{Datelike, TimeZone, Timelike};

use crate::error::{ThingError, is_invalid_input};
use crate::text::{eq_ignore_ascii_case, eq_ignore_case, trim, trimmed};
use crate::things::ScheduleTarget;

verus! {

/// The first and the last year of the calendar that dates can hold.
pub open spec fn min_year() -> int {
    -262143
}

pub open spec fn max_year() -> int {
    262142
}

pub open spec fn is_leap_year(y: int) -> bool {
    (y % 4 == 0 && y % 100 != 0) || y % 400 == 0
}

pub open spec fn days_in_month(y: int, m: int) -> int {
    if m == 2 {
        if is_leap_year(y) {
            29
        } else {
            28
        }
    } else if m == 4 || m == 6 || m == 9 || m == 11 {
        30
    } else {
        31
    }
}

/// A calendar date.
#[derive(Debug, Clone, Copy)]
pub struct CivilDate {
    pub year: i32,
    pub month: u32,
    pub day: u32,
}

/// A date of the proleptic Gregorian calendar, within the years dates can hold.
pub open spec fn valid_date(d: CivilDate) -> bool {
    &&& min_year() <= d.year <= max_year()
    &&& 1 <= d.month <= 12
    &&& 1 <= d.day <= days_in_month(d.year as int, d.month as int)
}

/// A date and time of day that a naive date-time can hold.
pub open spec fn valid_date_time(t: ScheduleTarget) -> bool {
    &&& valid_date(CivilDate { year: t.year, month: t.month, day: t.day })
    &&& t.hour < 24 && t.minute < 60 && t.second < 60
}

/// The day after a date.
pub open spec fn next_day(d: CivilDate) -> CivilDate {
    if (d.day as int) < days_in_month(d.year as int, d.month as int) {
        CivilDate { year: d.year, month: d.month, day: (d.day + 1) as u32 }
    } else if d.month < 12 {
        CivilDate { year: d.year, month: (d.month + 1) as u32, day: 1 }
    } else {
        CivilDate { year: (d.year + 1) as i32, month: 1, day: 1 }
    }
}

pub open spec fn is_last_date(d: CivilDate) -> bool {
    d.year == max_year() && d.month == 12 && d.day == 31
}

pub open spec fn midnight(d: CivilDate) -> ScheduleTarget {
    ScheduleTarget { year: d.year, month: d.month, day: d.day, hour: 0, minute: 0, second: 0 }
}

/// The UTC date and time that `chrono::DateTime::parse_from_rfc3339` reads from a
/// text, if it reads one.
pub uninterp spec fn rfc3339_utc(text: Seq<char>) -> Option<ScheduleTarget>;

/// The date and time that `chrono::NaiveDateTime::parse_from_str` reads from a
/// text with a format, if it reads one.
pub uninterp spec fn naive_date_time_parse(text: Seq<char>, format: Seq<char>) -> Option<
    ScheduleTarget,
>;

/// The date that `chrono::NaiveDate::parse_from_str` reads from a text with a
/// format, if it reads one.
pub uninterp spec fn naive_date_parse(text: Seq<char>, format: Seq<char>) -> Option<CivilDate>;

/// `chrono::Local::now().date_naive()`: today in the machine's time zone. What
/// day that is depends on the clock and the time zone; only that it is a valid
/// date is stated.
#[verifier::external_body]
fn local_today() -> (r: CivilDate)
    ensures
        valid_date(r),
{
    let today = chrono::Local::now().date_naive();
    CivilDate { year: today.year(), month: today.month(), day: today.day() }
}

/// `chrono::NaiveDate::checked_add_days` with one day: the next calendar day,
/// or nothing after the last date that dates can hold.
#[verifier::external_body]
fn add_one_day(d: CivilDate) -> (r: Option<CivilDate>)
    requires
        valid_date(d),
    ensures
        is_last_date(d) ==> r is None,
        !is_last_date(d) ==> r == Some(next_day(d)),
{
    let date = chrono::NaiveDate::from_ymd_opt(d.year, d.month, d.day).expect("valid date");
    let next = date.checked_add_days(chrono::Days::new(1))?;
    Some(CivilDate { year: next.year(), month: next.month(), day: next.day() })
}

/// `chrono::Local.from_local_datetime(..).single()`: the date and time as a
/// local time of the machine's time zone, when it names exactly one instant.
/// Whether it does depends on the time zone (a time skipped or repeated by a
/// clock change does not); when it does, the local fields are the given ones.
#[verifier::external_body]
fn local_from_naive(t: ScheduleTarget) -> (r: Option<ScheduleTarget>)
    requires
        valid_date_time(t),
    ensures
        r matches Some(x) ==> x == t,
{
    let date = chrono::NaiveDate::from_ymd_opt(t.year, t.month, t.day).expect("valid date");
    let naive = date.and_hms_opt(t.hour, t.minute, t.second).expect("valid time");
    let local = chrono::Local.from_local_datetime(&naive).single()?;
    Some(ScheduleTarget { year: local.year(), month: local.month(), day: local.day(), hour: local.hour(), minute: local.minute(), second: local.second() })
}

/// Days from 1970-01-01 to a date of the proleptic Gregorian calendar.
pub open spec fn days_from_civil(y: int, m: int, d: int) -> int {
    let y2 = if m <= 2 {
        y - 1
    } else {
        y
    };
    let mp = if m > 2 {
        m - 3
    } else {
        m + 9
    };
    365 * y2 + y2 / 4 - y2 / 100 + y2 / 400 + (153 * mp + 2) / 5 + d - 1 - 719468
}

/// Seconds from 1970-01-01 00:00:00 to a date and time.
pub open spec fn seconds_of(t: ScheduleTarget) -> int {
    days_from_civil(t.year as int, t.month as int, t.day as int) * 86400 + t.hour * 3600 + t.minute
        * 60 + t.second
}

/// The date and time `local` is the instant `utc` seen in a zone whose offset
/// from UTC is less than a day.
pub open spec fn shifted_by_local_offset(utc: ScheduleTarget, local: ScheduleTarget) -> bool {
    -86400 < seconds_of(local) - seconds_of(utc) < 86400
}

/// `chrono::Local.from_utc_datetime`: a UTC date and time as the machine's local
/// time, that is, the same instant shifted by the local zone's offset, which
/// (a `FixedOffset`) is less than a day. Which offset it is depends on the time
/// zone and is not stated; the year may leave the range of dates by one at its
/// very ends.
#[verifier::external_body]
fn utc_to_local(t: ScheduleTarget) -> (r: ScheduleTarget)
    requires
        valid_date_time(t),
    ensures
        1 <= r.month <= 12,
        1 <= r.day <= 31,
        r.hour < 24 && r.minute < 60 && r.second < 60,
        shifted_by_local_offset(t, r),
{
    let date = chrono::NaiveDate::from_ymd_opt(t.year, t.month, t.day).expect("valid date");
    let naive = date.and_hms_opt(t.hour, t.minute, t.second).expect("valid time");
    let local = chrono::Local.from_utc_datetime(&naive);
    ScheduleTarget { year: local.year(), month: local.month(), day: local.day(), hour: local.hour(), minute: local.minute(), second: local.second() }
}

/// `chrono::DateTime::parse_from_rfc3339`, giving the parsed instant in UTC.
#[verifier::external_body]
fn parse_rfc3339(text: &str) -> (r: Option<ScheduleTarget>)
    ensures
        r == rfc3339_utc(text@),
        r matches Some(t) ==> valid_date_time(t),
{
    let utc = chrono::DateTime::parse_from_rfc3339(text).ok()?.naive_utc();
    Some(ScheduleTarget { year: utc.year(), month: utc.month(), day: utc.day(), hour: utc.hour(), minute: utc.minute(), second: utc.second() })
}

/// `chrono::NaiveDateTime::parse_from_str`.
#[verifier::external_body]
fn parse_naive_date_time(text: &str, format: &str) -> (r: Option<ScheduleTarget>)
    ensures
        r == naive_date_time_parse(text@, format@),
        r matches Some(t) ==> valid_date_time(t),
{
    let v = chrono::NaiveDateTime::parse_from_str(text, format).ok()?;
    Some(ScheduleTarget { year: v.year(), month: v.month(), day: v.day(), hour: v.hour(), minute: v.minute(), second: v.second() })
}

/// `chrono::NaiveDate::parse_from_str`.
#[verifier::external_body]
fn parse_naive_date(text: &str, format: &str) -> (r: Option<CivilDate>)
    ensures
        r == naive_date_parse(text@, format@),
        r matches Some(d) ==> valid_date(d),
{
    let v = chrono::NaiveDate::parse_from_str(text, format).ok()?;
    Some(CivilDate { year: v.year(), month: v.month(), day: v.day() })
}


/// What a schedule target names, before it is placed in the local time zone.
#[derive(Debug, Clone, Copy)]
pub enum ScheduleInput {
    /// Midnight today.
    Today,
    /// Midnight tomorrow.
    Tomorrow,
    /// An instant, given in UTC (an RFC 3339 date and time).
    Instant(ScheduleTarget),
    /// A local date and time (`YYYY-MM-DDTHH:MM` or `YYYY-MM-DD HH:MM`).
    LocalDateTime(ScheduleTarget),
    /// Midnight of a local date (`YYYY-MM-DD`).
    LocalDate(ScheduleTarget),
}

pub open spec fn empty_target_message() -> Seq<char> {
    "schedule target must not be empty"@
}

pub open spec fn invalid_target_message(n: Seq<char>) -> Seq<char> {
    "invalid schedule target: "@ + n + ". expected today, tomorrow, YYYY-MM-DD, or RFC3339"@
}

pub open spec fn ambiguous_date_time_message(n: Seq<char>) -> Seq<char> {
    "ambiguous local datetime: "@ + n
}

pub open spec fn ambiguous_date_message(n: Seq<char>) -> Seq<char> {
    "ambiguous local date: "@ + n
}

pub open spec fn out_of_range_message(n: Seq<char>) -> Seq<char> {
    "schedule target out of range: "@ + n
}

/// What a trimmed schedule target `n` names, given what the parsers read from it:
/// the keywords first (ignoring ASCII case), then RFC 3339, then the two local
/// date-time forms, then a bare date; the message of the error otherwise.
pub open spec fn schedule_choice(
    n: Seq<char>,
    rfc: Option<ScheduleTarget>,
    with_t: Option<ScheduleTarget>,
    with_space: Option<ScheduleTarget>,
    date: Option<CivilDate>,
) -> Result<ScheduleInput, Seq<char>> {
    if n.len() == 0 {
        Err(empty_target_message())
    } else if eq_ignore_case(n, "today"@) {
        Ok(ScheduleInput::Today)
    } else if eq_ignore_case(n, "tomorrow"@) {
        Ok(ScheduleInput::Tomorrow)
    } else if rfc is Some {
        Ok(ScheduleInput::Instant(rfc->0))
    } else if with_t is Some {
        Ok(ScheduleInput::LocalDateTime(with_t->0))
    } else if with_space is Some {
        Ok(ScheduleInput::LocalDateTime(with_space->0))
    } else if date is Some {
        Ok(ScheduleInput::LocalDate(midnight(date->0)))
    } else {
        Err(invalid_target_message(n))
    }
}

/// Decides what a schedule target names from the text and the parsers' results.
pub fn classify_schedule_target(
    raw: &str,
    rfc: Option<ScheduleTarget>,
    with_t: Option<ScheduleTarget>,
    with_space: Option<ScheduleTarget>,
    date: Option<CivilDate>,
) -> (r: Result<ScheduleInput, ThingError>)
    ensures
        match schedule_choice(trimmed(raw@), rfc, with_t, with_space, date) {
            Ok(c) => r == Ok::<ScheduleInput, ThingError>(c),
            Err(m) => r matches Err(e) && is_invalid_input(e, m),
        },
{
    let normalized = trim(raw);
    if normalized.as_str().unicode_len() == 0 {
        return Err(ThingError::InvalidInput(String::from_str("schedule target must not be empty")));
    }
    if eq_ignore_ascii_case(normalized.as_str(), "today") {
        return Ok(ScheduleInput::Today);
    }
    if eq_ignore_ascii_case(normalized.as_str(), "tomorrow") {
        return Ok(ScheduleInput::Tomorrow);
    }
    match (rfc, with_t, with_space, date) {
        (Some(t), _, _, _) => Ok(ScheduleInput::Instant(t)),
        (None, Some(t), _, _) => Ok(ScheduleInput::LocalDateTime(t)),
        (None, None, Some(t), _) => Ok(ScheduleInput::LocalDateTime(t)),
        (None, None, None, Some(d)) => Ok(
            ScheduleInput::LocalDate(
                ScheduleTarget {
                    year: d.year,
                    month: d.month,
                    day: d.day,
                    hour: 0,
                    minute: 0,
                    second: 0,
                },
            ),
        ),
        (None, None, None, None) => Err(
            ThingError::InvalidInput(
                String::from_str("invalid schedule target: ").concat(normalized.as_str()).concat(
                    ". expected today, tomorrow, YYYY-MM-DD, or RFC3339",
                ),
            ),
        ),
    }
}

/// What the parsers read from the trimmed target `n`.
pub open spec fn parsed_choice(n: Seq<char>) -> Result<ScheduleInput, Seq<char>> {
    schedule_choice(
        n,
        rfc3339_utc(n),
        naive_date_time_parse(n, "%Y-%m-%dT%H:%M"@),
        naive_date_time_parse(n, "%Y-%m-%d %H:%M"@),
        naive_date_parse(n, "%Y-%m-%d"@),
    )
}

/// The fields of a local date and time are in their ranges.
pub open spec fn in_ranges(t: ScheduleTarget) -> bool {
    1 <= t.month <= 12 && 1 <= t.day <= 31 && t.hour < 24 && t.minute < 60 && t.second < 60
}

/// Midnight of a date, in the local time zone.
fn local_midnight(d: CivilDate, normalized: &str) -> (r: Result<ScheduleTarget, ThingError>)
    requires
        valid_date(d),
    ensures
        midnight_of(d, normalized@, r),
{
    match local_from_naive(ScheduleTarget { year: d.year, month: d.month, day: d.day, hour: 0, minute: 0, second: 0 }) {
        Some(t) => Ok(t),
        None => Err(ThingError::InvalidInput(String::from_str("ambiguous local date: ").concat(normalized))),
    }
}

/// Reads a schedule target: `today`, `tomorrow`, `YYYY-MM-DD`, `YYYY-MM-DDTHH:MM`,
/// `YYYY-MM-DD HH:MM` or RFC 3339, as a date and time of the local time zone.
/// Midnight of `d` in the local time zone, or the error for a local midnight
/// that does not name exactly one instant.
pub open spec fn midnight_of(d: CivilDate, n: Seq<char>, r: Result<ScheduleTarget, ThingError>) -> bool {
    match r {
        Ok(t) => t == midnight(d),
        Err(e) => is_invalid_input(e, ambiguous_date_message(n)),
    }
}

/// What a keyword gives for the date that the clock says is today: midnight of
/// it, or of the next day.
pub open spec fn keyword_outcome(
    choice: ScheduleInput,
    today: CivilDate,
    n: Seq<char>,
    r: Result<ScheduleTarget, ThingError>,
) -> bool {
    match choice {
        ScheduleInput::Today => midnight_of(today, n, r),
        ScheduleInput::Tomorrow => if is_last_date(today) {
            r matches Err(e) && is_invalid_input(e, out_of_range_message(n))
        } else {
            midnight_of(next_day(today), n, r)
        },
        _ => false,
    }
}

/// The target of `today` or `tomorrow`, given the date that is today.
pub fn keyword_target(choice: ScheduleInput, today: CivilDate, n: &str) -> (r: Result<
    ScheduleTarget,
    ThingError,
>)
    requires
        valid_date(today),
        choice is Today || choice is Tomorrow,
    ensures
        keyword_outcome(choice, today, n@, r),
{
    match choice {
        ScheduleInput::Tomorrow => match add_one_day(today) {
            Some(d) => local_midnight(d, n),
            None => Err(
                ThingError::InvalidInput(String::from_str("schedule target out of range: ").concat(n)),
            ),
        },
        _ => local_midnight(today, n),
    }
}

/// Days counted from 1970 for a date.
pub open spec fn day_number(d: CivilDate) -> int {
    days_from_civil(d.year as int, d.month as int, d.day as int)
}

/// A year holds one day more than 365 exactly when it is a leap year.
proof fn lemma_year_length(y: int)
    ensures
        (365 * y + y / 4 - y / 100 + y / 400) - (365 * (y - 1) + (y - 1) / 4 - (y - 1) / 100 + (y
            - 1) / 400) == 365 + if is_leap_year(y) {
            1int
        } else {
            0
        },
{
}

/// The day after a date that is not the last one is a date, and it is the
/// very next day: its day number is one more.
pub proof fn lemma_next_day_is_one_day_later(d: CivilDate)
    requires
        valid_date(d),
        !is_last_date(d),
    ensures
        valid_date(next_day(d)),
        day_number(next_day(d)) == day_number(d) + 1,
{
    if d.month == 2 && d.day as int == days_in_month(d.year as int, 2) {
        lemma_year_length(d.year as int);
    }
}

/// For one date that the clock reports, `today` is midnight of that date and
/// `tomorrow` is midnight exactly one day (86400 seconds) later.
pub proof fn lemma_tomorrow_is_one_day_after_today(
    today: CivilDate,
    n1: Seq<char>,
    n2: Seq<char>,
    r1: Result<ScheduleTarget, ThingError>,
    r2: Result<ScheduleTarget, ThingError>,
)
    requires
        valid_date(today),
        keyword_outcome(ScheduleInput::Today, today, n1, r1),
        keyword_outcome(ScheduleInput::Tomorrow, today, n2, r2),
        r1 is Ok,
        r2 is Ok,
    ensures
        seconds_of(r1->Ok_0) == day_number(today) * 86400,
        seconds_of(r2->Ok_0) == seconds_of(r1->Ok_0) + 86400,
{
    lemma_next_day_is_one_day_later(today);
}

/// What reading the schedule target `raw` may give: exactly the named local
/// date and time (or an error where it does not name exactly one instant), any
/// local date and time for an RFC 3339 instant, midnight of some day for the
/// keywords (today being whatever day the clock gives, and tomorrow the day
/// after it), and the error of the choice otherwise.
pub open spec fn schedule_outcome(raw: Seq<char>, r: Result<ScheduleTarget, ThingError>) -> bool {
    ({
            let n = trimmed(raw);
            match parsed_choice(n) {
                Err(m) => r matches Err(e) && is_invalid_input(e, m),
                Ok(ScheduleInput::Today) => exists|today: CivilDate|
                    #![trigger valid_date(today)]
                    valid_date(today) && keyword_outcome(ScheduleInput::Today, today, n, r),
                Ok(ScheduleInput::Tomorrow) => exists|today: CivilDate|
                    #![trigger valid_date(today)]
                    valid_date(today) && keyword_outcome(ScheduleInput::Tomorrow, today, n, r),
                Ok(ScheduleInput::Instant(u)) => r matches Ok(t) && in_ranges(t)
                    && shifted_by_local_offset(u, t),
                Ok(ScheduleInput::LocalDateTime(v)) => match r {
                    Ok(t) => t == v,
                    Err(e) => is_invalid_input(e, ambiguous_date_time_message(n)),
                },
                Ok(ScheduleInput::LocalDate(v)) => match r {
                    Ok(t) => t == v,
                    Err(e) => is_invalid_input(e, ambiguous_date_message(n)),
                },
            }
        })
}

pub fn parse_schedule_target(raw: &str) -> (r: Result<ScheduleTarget, ThingError>)
    ensures
        schedule_outcome(raw@, r),
{
    let normalized = trim(raw);
    let n = normalized.as_str();
    let rfc = parse_rfc3339(n);
    let with_t = parse_naive_date_time(n, "%Y-%m-%dT%H:%M");
    let with_space = parse_naive_date_time(n, "%Y-%m-%d %H:%M");
    let date = parse_naive_date(n, "%Y-%m-%d");
    proof {
        assert(trimmed(n@) == trimmed(raw@)) by {
            crate::normalize::lemma_trim_idempotent(raw@);
        }
    }
    let choice = match classify_schedule_target(n, rfc, with_t, with_space, date) {
        Ok(c) => c,
        Err(e) => return Err(e),
    };
    match choice {
        ScheduleInput::Today | ScheduleInput::Tomorrow => {
            let today = local_today();
            let r = keyword_target(choice, today, n);
            proof {
                assert(valid_date(today));
            }
            r
        },
        ScheduleInput::Instant(t) => Ok(utc_to_local(t)),
        ScheduleInput::LocalDateTime(t) => match local_from_naive(t) {
            Some(local) => Ok(local),
            None => Err(
                ThingError::InvalidInput(String::from_str("ambiguous local datetime: ").concat(n)),
            ),
        },
        ScheduleInput::LocalDate(t) => match local_from_naive(t) {
            Some(local) => Ok(local),
            None => Err(ThingError::InvalidInput(String::from_str("ambiguous local date: ").concat(n))),
        },
    }
}

} // verus!
