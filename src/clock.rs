use chrono::{Datelike, TimeZone, Timelike};
use vstd::prelude::*;

use crate::calendar::{valid_ymd, Date, LocalDateTime};
use crate::text::{quote, quoted};
use crate::schedule::{
    beyond, occurrence_result, parse_canonical_spec, OccurrenceError, Schedule,
    ScheduleFormatError,
};
use crate::timestr::{flexible, parse_flexible_timestr_from, TimeParseError};

verus! {

/// Why no occurrence instant could be given for a canonical schedule string.
#[derive(Clone, Copy, Debug, PartialEq, Eq, Structural)]
pub enum CronError {
    /// The schedule string was refused.
    Format(ScheduleFormatError),
    /// The search found no occurrence.
    Occurrence(OccurrenceError),
    /// The local time found does not exist in the local time zone, or the clock gave no
    /// usable reading.
    NoSuchLocalTime,
}

impl CronError {
    /// The opening words of the message for this error.
    pub open spec fn lead(self) -> Seq<char> {
        match self {
            CronError::Format(ScheduleFormatError::FieldCount) => "Invalid cron format: "@,
            CronError::Format(ScheduleFormatError::InvalidField) => "Invalid field in cron string "@,
            CronError::Format(ScheduleFormatError::UnsupportedPattern) => "Unsupported cron pattern: "@,
            CronError::Occurrence(OccurrenceError::InvalidDayForMonth { .. }) => "The day does not exist in the month searched for "@,
            CronError::Occurrence(OccurrenceError::InvalidDate { .. }) => "The date does not exist in the year searched for "@,
            CronError::Occurrence(OccurrenceError::NoMatchingWeekday) => "Could not find valid weekday for "@,
            CronError::Occurrence(OccurrenceError::OutOfRange) => "The current date is outside the supported years for "@,
            CronError::NoSuchLocalTime => "No such local time for "@,
        }
    }

    /// A message naming the schedule string concerned.
    pub fn describe(&self, input: &str) -> (r: String)
        ensures
            r@ == quoted(self.lead(), input@),
    {
        let lead = match self {
            CronError::Format(ScheduleFormatError::FieldCount) => "Invalid cron format: ",
            CronError::Format(ScheduleFormatError::InvalidField) => "Invalid field in cron string ",
            CronError::Format(ScheduleFormatError::UnsupportedPattern) => "Unsupported cron pattern: ",
            CronError::Occurrence(OccurrenceError::InvalidDayForMonth { .. }) => "The day does not exist in the month searched for ",
            CronError::Occurrence(OccurrenceError::InvalidDate { .. }) => "The date does not exist in the year searched for ",
            CronError::Occurrence(OccurrenceError::NoMatchingWeekday) => "Could not find valid weekday for ",
            CronError::Occurrence(OccurrenceError::OutOfRange) => "The current date is outside the supported years for ",
            CronError::NoSuchLocalTime => "No such local time for ",
        };
        quote(lead, input)
    }
}

/// Relies on chrono's `Local::now`: the current local date and time, field by field
/// (year, month, day, hour, minute, second).
#[verifier::external_body]
fn local_now_fields() -> (r: (i32, u32, u32, u32, u32, u32)) {
    let n = chrono::Local::now().naive_local();
    (n.year(), n.month(), n.day(), n.hour(), n.minute(), n.second())
}

/// Relies on chrono's `Local::now` and `DateTime::timestamp`: the current instant in
/// seconds since the Unix epoch.
#[verifier::external_body]
pub(crate) fn now_epoch() -> (r: i64) {
    chrono::Local::now().timestamp()
}

/// Relies on chrono's `TimeZone::from_local_datetime` for `Local` and
/// `LocalResult::earliest`: the earliest instant, in seconds since the Unix epoch, at which
/// the local clock shows `t`; `None` when it never does.
#[verifier::external_body]
fn local_instant(t: &LocalDateTime) -> (r: Option<i64>)
    requires
        t.valid(),
{
    let d = chrono::NaiveDate::from_ymd_opt(t.date.year, t.date.month, t.date.day)?;
    let n = d.and_hms_opt(t.hour, t.minute, t.second)?;
    chrono::Local.from_local_datetime(&n).earliest().map(|x| x.timestamp())
}

/// Relies on chrono's `TimeZone::timestamp_opt` for `Local`, `DateTime::naive_utc`,
/// `Offset::fix` and `NaiveDateTime::checked_add_offset`: the local date and time, field by
/// field, at an instant given in seconds since the Unix epoch; `None` unless it maps to one
/// local time that chrono can hold.
#[verifier::external_body]
fn local_fields_at(timestamp: i64) -> (r: Option<(i32, u32, u32, u32, u32, u32)>) {
    match chrono::Local.timestamp_opt(timestamp, 0) {
        chrono::LocalResult::Single(t) => {
            let n = t.naive_utc().checked_add_offset(chrono::Offset::fix(t.offset()))?;
            Some((n.year(), n.month(), n.day(), n.hour(), n.minute(), n.second()))
        },
        _ => None,
    }
}

/// The local date and time that a clock reading (year, month, day, hour, minute, second)
/// stands for, when it is a valid one of the supported years.
pub open spec fn local_reading(f: (i32, u32, u32, u32, u32, u32)) -> Option<LocalDateTime> {
    if valid_ymd(f.0 as int, f.1 as int, f.2 as int) && f.3 < 24 && f.4 < 60 && f.5 < 60 {
        Some(LocalDateTime { date: Date { year: f.0, month: f.1, day: f.2 }, hour: f.3, minute: f.4, second: f.5 })
    } else {
        None
    }
}

/// Turns a clock reading into a local date and time, as `local_reading` states it.
pub fn checked_local(fields: (i32, u32, u32, u32, u32, u32)) -> (r: Option<LocalDateTime>)
    ensures
        r == local_reading(fields),
        r matches Some(t) ==> t.valid(),
{
    let (y, mo, d, h, mi, s) = fields;
    match Date::from_ymd(y, mo, d) {
        Some(date) => if h < 24 && mi < 60 && s < 60 {
            Some(LocalDateTime { date, hour: h, minute: mi, second: s })
        } else {
            None
        },
        None => None,
    }
}

/// The local date and time at an instant, when it is one local time of the supported years.
pub fn local_at(timestamp: i64) -> (r: Option<LocalDateTime>)
    ensures
        r matches Some(t) ==> t.valid(),
        r is None || exists|f: (i32, u32, u32, u32, u32, u32)| r == local_reading(f),
{
    match local_fields_at(timestamp) {
        Some(f) => checked_local(f),
        None => None,
    }
}

/// The current local date and time, when the clock reads a date of the supported years.
pub fn local_now() -> (r: Option<LocalDateTime>)
    ensures
        r matches Some(t) ==> t.valid(),
        exists|f: (i32, u32, u32, u32, u32, u32)| r == local_reading(f),
{
    checked_local(local_now_fields())
}

/// What searching from `now` for an occurrence of the schedule written `text` yields: the
/// format error when the text is refused; outside years 2 to 9998, `OutOfRange`; otherwise
/// what `occurrence_result` states.
pub open spec fn cron_outcome(text: Seq<char>, now: LocalDateTime, forward: bool, r: Result<LocalDateTime, CronError>) -> bool {
    match parse_canonical_spec(text) {
        Err(e) => r == Err::<LocalDateTime, CronError>(CronError::Format(e)),
        Ok(s) => if now.date.interior() {
            match r {
                Ok(t) => occurrence_result(s, now, forward, Ok(t)),
                Err(CronError::Occurrence(e)) => occurrence_result(s, now, forward, Err(e)),
                Err(_) => false,
            }
        } else {
            r == Err::<LocalDateTime, CronError>(CronError::Occurrence(OccurrenceError::OutOfRange))
        },
    }
}

/// The occurrence of the schedule written as `cron_str` nearest to `now`: strictly after it
/// when `forward`, strictly before it otherwise.
pub fn get_occurrence_from(cron_str: &str, now: &LocalDateTime, forward: bool) -> (r: Result<LocalDateTime, CronError>)
    requires
        now.valid(),
    ensures
        cron_outcome(cron_str@, *now, forward, r),
        r matches Ok(t) ==> (parse_canonical_spec(cron_str@) matches Ok(s) && s.fires_at(t) && beyond(t, *now, forward)),
{
    match Schedule::parse_canonical(cron_str) {
        Err(e) => Err(CronError::Format(e)),
        Ok(s) => match crate::schedule::occurrence_from(&s, now, forward) {
            Ok(t) => Ok(t),
            Err(e) => Err(CronError::Occurrence(e)),
        },
    }
}

/// The next occurrence strictly after `now` of the schedule written as `cron_str`.
pub fn get_next_occurrence_from(cron_str: &str, now: &LocalDateTime) -> (r: Result<LocalDateTime, CronError>)
    requires
        now.valid(),
    ensures
        cron_outcome(cron_str@, *now, true, r),
        r matches Ok(t) ==> (parse_canonical_spec(cron_str@) matches Ok(s) && s.fires_at(t) && beyond(t, *now, true)),
{
    get_occurrence_from(cron_str, now, true)
}

/// The most recent occurrence strictly before `now` of the schedule written as `cron_str`.
pub fn get_last_occurrence_from(cron_str: &str, now: &LocalDateTime) -> (r: Result<LocalDateTime, CronError>)
    requires
        now.valid(),
    ensures
        cron_outcome(cron_str@, *now, false, r),
        r matches Ok(t) ==> (parse_canonical_spec(cron_str@) matches Ok(s) && s.fires_at(t) && beyond(t, *now, false)),
{
    get_occurrence_from(cron_str, now, false)
}

/// The search of `get_occurrence_from` from a clock reading: `NoSuchLocalTime` when there is
/// none and the schedule text is accepted.
pub fn occurrence_at(cron_str: &str, reading: Option<LocalDateTime>, forward: bool) -> (r: Result<LocalDateTime, CronError>)
    requires
        reading matches Some(t) ==> t.valid(),
    ensures
        reading matches Some(now) ==> cron_outcome(cron_str@, now, forward, r),
        reading is None ==> (match parse_canonical_spec(cron_str@) {
            Err(e) => r == Err::<LocalDateTime, CronError>(CronError::Format(e)),
            Ok(_) => r == Err::<LocalDateTime, CronError>(CronError::NoSuchLocalTime),
        }),
        r matches Ok(t) ==> t.valid(),
{
    match reading {
        Some(now) => get_occurrence_from(cron_str, &now, forward),
        None => match Schedule::parse_canonical(cron_str) {
            Err(e) => Err(CronError::Format(e)),
            Ok(_) => Err(CronError::NoSuchLocalTime),
        },
    }
}

/// What holds of an occurrence instant found from the present moment, whatever the clock
/// and the time zone gave: format errors exactly when the text is refused; a search error
/// or an instant only as some search from a valid local time gives it.
pub open spec fn instant_outcome(text: Seq<char>, forward: bool, r: Result<i64, CronError>) -> bool {
    &&& (parse_canonical_spec(text) matches Err(e) ==> r == Err::<i64, CronError>(CronError::Format(e)))
    &&& (r matches Err(CronError::Format(e)) ==> parse_canonical_spec(text) == Err::<Schedule, ScheduleFormatError>(e))
    &&& (r matches Err(CronError::Occurrence(e)) ==> exists|now: LocalDateTime|
        now.valid() && cron_outcome(text, now, forward, Err(CronError::Occurrence(e))))
    &&& (r is Ok ==> exists|now: LocalDateTime, t: LocalDateTime|
        now.valid() && cron_outcome(text, now, forward, Ok(t)))
}

/// The next occurrence after the present moment, in seconds since the Unix epoch.
pub fn get_next_occurrence(cron_str: &str) -> (r: Result<i64, CronError>)
    ensures
        instant_outcome(cron_str@, true, r),
{
    occurrence_instant(cron_str, true)
}

/// The most recent occurrence before the present moment, in seconds since the Unix epoch.
pub fn get_last_occurrence(cron_str: &str) -> (r: Result<i64, CronError>)
    ensures
        instant_outcome(cron_str@, false, r),
{
    occurrence_instant(cron_str, false)
}

fn occurrence_instant(cron_str: &str, forward: bool) -> (r: Result<i64, CronError>)
    ensures
        instant_outcome(cron_str@, forward, r),
{
    let reading = local_now();
    let found = occurrence_at(cron_str, reading, forward);
    match found {
        Ok(t) => {
            assert(reading is Some);
            let now = reading.unwrap();
            match local_instant(&t) {
                Some(x) => {
                    assert(now.valid() && cron_outcome(cron_str@, now, forward, Ok(t)));
                    Ok(x)
                },
                None => Err(CronError::NoSuchLocalTime),
            }
        },
        Err(e) => {
            if let CronError::Occurrence(_) = e {
                assert(reading is Some);
                let now = reading.unwrap();
                assert(now.valid() && cron_outcome(cron_str@, now, forward, Err(e)));
            }
            Err(e)
        },
    }
}

/// What reading a date/time phrase from a clock reading gives: `NoSuchLocalTime` without a
/// reading, `OutOfRange` outside years 2 to 9998, and otherwise the phrase seen from the
/// date read.
pub open spec fn flexible_at(s: Seq<char>, reading: Option<LocalDateTime>) -> Result<LocalDateTime, TimeParseError> {
    match reading {
        None => Err(TimeParseError::NoSuchLocalTime),
        Some(t) => if t.date.interior() {
            flexible(s, t.date)
        } else {
            Err(TimeParseError::OutOfRange)
        },
    }
}

/// Reads a date/time phrase, seen from the date of a clock reading.
pub fn parse_flexible_timestr_at(s: &str, reading: Option<LocalDateTime>) -> (r: Result<LocalDateTime, TimeParseError>)
    requires
        reading matches Some(t) ==> t.valid(),
    ensures
        r == flexible_at(s@, reading),
        r matches Ok(t) ==> t.valid(),
{
    let now = match reading {
        Some(t) => t,
        None => return Err(TimeParseError::NoSuchLocalTime),
    };
    if now.date.year <= crate::calendar::MIN_YEAR || now.date.year >= crate::calendar::MAX_YEAR {
        return Err(TimeParseError::OutOfRange);
    }
    parse_flexible_timestr_from(s, &now.date)
}

/// Reads a date/time phrase, seen from the present local date.
pub fn parse_flexible_timestr(s: &str) -> (r: Result<LocalDateTime, TimeParseError>)
    ensures
        r matches Ok(t) ==> t.valid(),
        exists|reading: Option<LocalDateTime>| (reading matches Some(t) ==> t.valid()) && r == flexible_at(s@, reading),
{
    let reading = local_now();
    parse_flexible_timestr_at(s, reading)
}

/// What an instant read from a phrase and a clock reading can be: the phrase error when
/// there is one, else an instant or `NoSuchLocalTime` when the local time found does not
/// exist.
pub open spec fn epoch_outcome(s: Seq<char>, reading: Option<LocalDateTime>, r: Result<i64, TimeParseError>) -> bool {
    &&& (flexible_at(s, reading) matches Err(e) ==> r == Err::<i64, TimeParseError>(e))
    &&& (r is Ok ==> flexible_at(s, reading) is Ok)
    &&& (r matches Err(e) ==> e == TimeParseError::NoSuchLocalTime || flexible_at(s, reading) == Err::<LocalDateTime, TimeParseError>(e))
}

/// Reads a date/time phrase, seen from the date of a clock reading, as seconds since the
/// Unix epoch.
pub fn to_unix_epoch_at(s: &str, reading: Option<LocalDateTime>) -> (r: Result<i64, TimeParseError>)
    requires
        reading matches Some(t) ==> t.valid(),
    ensures
        epoch_outcome(s@, reading, r),
{
    match parse_flexible_timestr_at(s, reading) {
        Ok(t) => match local_instant(&t) {
            Some(x) => Ok(x),
            None => Err(TimeParseError::NoSuchLocalTime),
        },
        Err(e) => Err(e),
    }
}

/// Reads a date/time phrase, seen from the present local date, as seconds since the Unix
/// epoch.
pub fn to_unix_epoch(s: &str) -> (r: Result<i64, TimeParseError>)
    ensures
        exists|reading: Option<LocalDateTime>| (reading matches Some(t) ==> t.valid()) && epoch_outcome(s@, reading, r),
{
    let reading = local_now();
    to_unix_epoch_at(s, reading)
}

/// `now` shifted by `d` whole days, back when `back`; `None` when that leaves the range of
/// `i64`.
pub open spec fn shifted(now: i64, d: u64, back: bool) -> Option<i64> {
    let x = if back { now - d * 86400 } else { now + d * 86400 };
    if i64::MIN <= x <= i64::MAX { Some(x as i64) } else { None }
}

/// `now` shifted by `d` whole days, as `shifted` states it.
pub fn shift_days(now: i64, d: u64, back: bool) -> (r: Option<i64>)
    ensures
        r == shifted(now, d, back),
{
    let span: i128 = d as i128 * 86400;
    let x: i128 = if back { now as i128 - span } else { now as i128 + span };
    if x < i64::MIN as i128 || x > i64::MAX as i128 {
        None
    } else {
        Some(x as i64)
    }
}

/// The instant `d` days before the present one, in seconds since the Unix epoch.
pub fn days_before_to_unix_epoch(d: usize) -> (r: Option<i64>)
    ensures
        exists|now: i64| #[trigger] shifted(now, d as u64, true) == r,
{
    shift_days(now_epoch(), d as u64, true)
}

/// The instant `d` days after the present one, in seconds since the Unix epoch.
pub fn days_after_to_unix_epoch(d: usize) -> (r: Option<i64>)
    ensures
        exists|now: i64| #[trigger] shifted(now, d as u64, false) == r,
{
    shift_days(now_epoch(), d as u64, false)
}

} // verus!
