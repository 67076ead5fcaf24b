use vstd::prelude::*;

use crate::calendar::{valid_ymd, Date};
use crate::schedule::{canonical, Schedule, WeekdaySpec};
use crate::text::{
    push_all, quote, quoted, chars_of, find_char, parse_unsigned, position_of, same_chars, slice_vec, split_tokens,
    tokens, unsigned_value,
};
use crate::timestr::{lower_chars, lower_of, parse_time_portion, time_part};

verus! {

/// Why a recurrence phrase was refused.
#[derive(Clone, Copy, Debug, PartialEq, Eq, Structural)]
pub enum CompileError {
    /// The phrase is empty.
    Empty,
    /// The leading keyword, or what follows `every`, matches no shape.
    UnsupportedPattern,
    /// A weekday name, or a day range, is malformed.
    InvalidWeekday,
    /// A day range runs backward.
    InvalidRange,
    /// A day of the month is not an ordinal from 1 to 31.
    InvalidOrdinal,
    /// A month/day pair is malformed or names no date.
    InvalidDate,
    /// The trailing time is not a time.
    InvalidTime,
}

impl CompileError {
    /// The opening words of the message for this error.
    pub open spec fn lead(self) -> Seq<char> {
        match self {
            CompileError::Empty => "Empty recurring time string "@,
            CompileError::UnsupportedPattern => "Unrecognized recurring time format: "@,
            CompileError::InvalidWeekday => "Invalid weekday or day range in "@,
            CompileError::InvalidRange => "Day range must go forward (e.g., Mon-Fri), not wrap around: "@,
            CompileError::InvalidOrdinal => "Invalid day format in "@,
            CompileError::InvalidDate => "Invalid month/day date in "@,
            CompileError::InvalidTime => "Couldn't parse the time for a recurring schedule in "@,
        }
    }

    /// A message naming the phrase that was refused.
    pub fn describe(&self, input: &str) -> (r: String)
        ensures
            r@ == quoted(self.lead(), input@),
    {
        let lead = match self {
            CompileError::Empty => "Empty recurring time string ",
            CompileError::UnsupportedPattern => "Unrecognized recurring time format: ",
            CompileError::InvalidWeekday => "Invalid weekday or day range in ",
            CompileError::InvalidRange => "Day range must go forward (e.g., Mon-Fri), not wrap around: ",
            CompileError::InvalidOrdinal => "Invalid day format in ",
            CompileError::InvalidDate => "Invalid month/day date in ",
            CompileError::InvalidTime => "Couldn't parse the time for a recurring schedule in ",
        };
        quote(lead, input)
    }
}

/// The weekday (0 is Sunday) of a lowercase day name or abbreviation.
pub open spec fn weekday_word(l: Seq<char>) -> Option<u32> {
    if l == "sunday"@ || l == "sun"@ {
        Some(0)
    } else if l == "monday"@ || l == "mon"@ {
        Some(1)
    } else if l == "tuesday"@ || l == "tue"@ || l == "tues"@ {
        Some(2)
    } else if l == "wednesday"@ || l == "wed"@ || l == "weds"@ {
        Some(3)
    } else if l == "thursday"@ || l == "thu"@ || l == "thur"@ || l == "thurs"@ {
        Some(4)
    } else if l == "friday"@ || l == "fri"@ {
        Some(5)
    } else if l == "saturday"@ || l == "sat"@ {
        Some(6)
    } else {
        None
    }
}

/// A weekday named in any case.
pub open spec fn weekday_name(t: Seq<char>) -> Result<u32, CompileError> {
    match weekday_word(lower_of(t)) {
        Some(w) => Ok(w),
        None => Err(CompileError::InvalidWeekday),
    }
}

/// A forward day range `First-Last`; a range ending on Sunday counts Sunday as 7.
pub open spec fn day_range(t: Seq<char>) -> Result<WeekdaySpec, CompileError> {
    let p = find_char(t, '-');
    let a = t.subrange(0, p);
    let b = t.subrange(p + 1, t.len() as int);
    if p >= t.len() || find_char(b, '-') < b.len() {
        Err(CompileError::InvalidWeekday)
    } else {
        match (weekday_name(a), weekday_name(b)) {
            (Ok(s), Ok(e0)) => {
                let e = if s > e0 && e0 == 0 { 7 } else { e0 };
                if s > e {
                    Err(CompileError::InvalidRange)
                } else {
                    Ok(WeekdaySpec::Range(s, e as u32))
                }
            },
            _ => Err(CompileError::InvalidWeekday),
        }
    }
}

/// Whether `l` ends with one of the ordinal suffixes `st`, `nd`, `rd`, `th`.
pub open spec fn has_ordinal_suffix(l: Seq<char>) -> bool {
    l.len() >= 2 && {
        let x = l[l.len() - 2];
        let y = l[l.len() - 1];
        (x == 's' && y == 't') || (x == 'n' && y == 'd') || (x == 'r' && y == 'd') || (x == 't' && y == 'h')
    }
}

/// A day of the month written as a number with an optional ordinal suffix, from 1 to 31.
pub open spec fn ordinal_day(t: Seq<char>) -> Option<u32> {
    let l = lower_of(t);
    let digits = if has_ordinal_suffix(l) { l.subrange(0, l.len() - 2) } else { l };
    match unsigned_value(digits) {
        Some(v) => if 1 <= v <= 31 { Some(v as u32) } else { None },
        None => None,
    }
}

/// A `month/day` pair that some year holds (February 29 included).
pub open spec fn month_day(t: Seq<char>) -> Result<(u32, u32), CompileError> {
    let p = find_char(t, '/');
    let a = t.subrange(0, p);
    let b = t.subrange(p + 1, t.len() as int);
    if p >= t.len() || find_char(b, '/') < b.len() {
        Err(CompileError::InvalidDate)
    } else {
        match (unsigned_value(a), unsigned_value(b)) {
            (Some(m), Some(d)) => if valid_ymd(2024, m, d) {
                Ok((m as u32, d as u32))
            } else {
                Err(CompileError::InvalidDate)
            },
            _ => Err(CompileError::InvalidDate),
        }
    }
}

/// Parts joined by single spaces.
pub open spec fn joined(t: Seq<Seq<char>>) -> Seq<char>
    decreases t.len(),
{
    if t.len() == 0 {
        Seq::<char>::empty()
    } else if t.len() == 1 {
        t[0]
    } else {
        joined(t.drop_last()) + seq![' '] + t.last()
    }
}

/// The `(minute, hour)` of the time written by the parts from `k` on, joined by spaces, or
/// 23:59 when the phrase ends before part `k`.
pub open spec fn time_or_default(t: Seq<Seq<char>>, k: int) -> Result<(u32, u32), CompileError> {
    if t.len() > k {
        match time_part(joined(t.subrange(k, t.len() as int))) {
            Some(tm) => Ok((tm.minute, tm.hour)),
            None => Err(CompileError::InvalidTime),
        }
    } else {
        Ok((59, 23))
    }
}

pub open spec fn daily_at(t: Seq<Seq<char>>, k: int) -> Result<Schedule, CompileError> {
    match time_or_default(t, k) {
        Ok((minute, hour)) => Ok(Schedule::Daily { minute, hour }),
        Err(e) => Err(e),
    }
}

pub open spec fn weekly_at(t: Seq<Seq<char>>, days: WeekdaySpec, k: int) -> Result<Schedule, CompileError> {
    match time_or_default(t, k) {
        Ok((minute, hour)) => Ok(Schedule::Weekly { minute, hour, days }),
        Err(e) => Err(e),
    }
}

pub open spec fn monthly_at(t: Seq<Seq<char>>, day: u32, k: int) -> Result<Schedule, CompileError> {
    match time_or_default(t, k) {
        Ok((minute, hour)) => Ok(Schedule::Monthly { minute, hour, day }),
        Err(e) => Err(e),
    }
}

pub open spec fn yearly_at(t: Seq<Seq<char>>, md: Result<(u32, u32), CompileError>, k: int) -> Result<Schedule, CompileError> {
    match md {
        Ok((month, day)) => match time_or_default(t, k) {
            Ok((minute, hour)) => Ok(Schedule::Yearly { minute, hour, day, month }),
            Err(e) => Err(e),
        },
        Err(e) => Err(e),
    }
}

/// `weekly`, then a weekday or a day range, then an optional time.
pub open spec fn compile_weekly(t: Seq<Seq<char>>) -> Result<Schedule, CompileError> {
    if t.len() == 1 {
        Ok(Schedule::Weekly { minute: 59, hour: 23, days: WeekdaySpec::Single(0) })
    } else {
        let days = if find_char(t[1], '-') < t[1].len() {
            day_range(t[1])
        } else {
            match weekday_name(t[1]) {
                Ok(w) => Ok(WeekdaySpec::Single(w)),
                Err(e) => Err(e),
            }
        };
        match days {
            Ok(d) => weekly_at(t, d, 2),
            Err(e) => Err(e),
        }
    }
}

/// `monthly`, then an ordinal day, then an optional time.
pub open spec fn compile_monthly(t: Seq<Seq<char>>) -> Result<Schedule, CompileError> {
    if t.len() == 1 {
        Ok(Schedule::Monthly { minute: 59, hour: 23, day: 1 })
    } else {
        match ordinal_day(t[1]) {
            Some(d) => monthly_at(t, d, 2),
            None => Err(CompileError::InvalidOrdinal),
        }
    }
}

/// `yearly`, then `month/day`, then an optional time.
pub open spec fn compile_yearly(t: Seq<Seq<char>>) -> Result<Schedule, CompileError> {
    if t.len() == 1 {
        Ok(Schedule::Yearly { minute: 59, hour: 23, day: 31, month: 12 })
    } else {
        yearly_at(t, month_day(t[1]), 2)
    }
}

/// `every`, then, tried in order: a time (daily), `day` (daily), a weekday (weekly), a
/// `month/day` (yearly), or an ordinal day followed by `of the month` or `of month`
/// (monthly).
pub open spec fn compile_every(t: Seq<Seq<char>>) -> Result<Schedule, CompileError> {
    if t.len() == 1 {
        Err(CompileError::UnsupportedPattern)
    } else if time_part(t[1]) is Some {
        daily_at(t, 1)
    } else if lower_of(t[1]) == "day"@ {
        daily_at(t, 2)
    } else if weekday_word(lower_of(t[1])) is Some {
        weekly_at(t, WeekdaySpec::Single(weekday_word(lower_of(t[1]))->Some_0), 2)
    } else if find_char(t[1], '/') < t[1].len() {
        yearly_at(t, month_day(t[1]), 2)
    } else if ordinal_day(t[1]) is Some {
        let d = ordinal_day(t[1])->Some_0;
        if t.len() >= 5 && lower_of(t[2]) == "of"@ && lower_of(t[3]) == "the"@ && lower_of(t[4]) == "month"@ {
            monthly_at(t, d, 5)
        } else if t.len() >= 4 && lower_of(t[2]) == "of"@ && lower_of(t[3]) == "month"@ {
            monthly_at(t, d, 4)
        } else {
            Err(CompileError::UnsupportedPattern)
        }
    } else {
        Err(CompileError::UnsupportedPattern)
    }
}

/// The schedule a recurrence phrase describes, chosen by its leading keyword.
pub open spec fn compile_spec(s: Seq<char>) -> Result<Schedule, CompileError> {
    let t = tokens(s);
    if t.len() == 0 {
        Err(CompileError::Empty)
    } else {
        let k = lower_of(t[0]);
        if k == "daily"@ {
            daily_at(t, 1)
        } else if k == "weekly"@ {
            compile_weekly(t)
        } else if k == "monthly"@ {
            compile_monthly(t)
        } else if k == "yearly"@ {
            compile_yearly(t)
        } else if k == "every"@ {
            compile_every(t)
        } else {
            Err(CompileError::UnsupportedPattern)
        }
    }
}

/// The character sequences of a list of parts.
pub open spec fn views(parts: Seq<Vec<char>>) -> Seq<Seq<char>> {
    parts.map_values(|v: Vec<char>| v@)
}

/// Looks up a lowercase weekday name or abbreviation.
pub fn weekday_word_exec(l: &Vec<char>) -> (r: Option<u32>)
    ensures
        r == weekday_word(l@),
{
    if same_chars(l, "sunday") || same_chars(l, "sun") {
        Some(0)
    } else if same_chars(l, "monday") || same_chars(l, "mon") {
        Some(1)
    } else if same_chars(l, "tuesday") || same_chars(l, "tue") || same_chars(l, "tues") {
        Some(2)
    } else if same_chars(l, "wednesday") || same_chars(l, "wed") || same_chars(l, "weds") {
        Some(3)
    } else if same_chars(l, "thursday") || same_chars(l, "thu") || same_chars(l, "thur") || same_chars(l, "thurs") {
        Some(4)
    } else if same_chars(l, "friday") || same_chars(l, "fri") {
        Some(5)
    } else if same_chars(l, "saturday") || same_chars(l, "sat") {
        Some(6)
    } else {
        None
    }
}

/// Reads a weekday name (full or abbreviated, any case): 0 is Sunday.
pub fn parse_weekday(t: &Vec<char>) -> (r: Result<u32, CompileError>)
    ensures
        r == weekday_name(t@),
        r matches Ok(w) ==> w < 7,
{
    let l = lower_chars(t);
    match weekday_word_exec(&l) {
        Some(w) => Ok(w),
        None => Err(CompileError::InvalidWeekday),
    }
}

/// Reads a forward day range such as `Monday-Friday`.
pub fn parse_day_range(t: &Vec<char>) -> (r: Result<WeekdaySpec, CompileError>)
    ensures
        r == day_range(t@),
        r matches Ok(w) ==> w.wf(),
{
    let p = position_of(t, '-');
    let a = slice_vec(t, 0, if p < t.len() { p } else { t.len() });
    if p >= t.len() {
        return Err(CompileError::InvalidWeekday);
    }
    let b = slice_vec(t, p + 1, t.len());
    if position_of(&b, '-') < b.len() {
        return Err(CompileError::InvalidWeekday);
    }
    match (parse_weekday(&a), parse_weekday(&b)) {
        (Ok(s), Ok(e0)) => {
            let e = if s > e0 && e0 == 0 { 7 } else { e0 };
            if s > e {
                Err(CompileError::InvalidRange)
            } else {
                Ok(WeekdaySpec::Range(s, e))
            }
        },
        _ => Err(CompileError::InvalidWeekday),
    }
}

/// Reads a day of the month such as `3rd` or `15th`: 1 to 31.
pub fn parse_ordinal_day(t: &Vec<char>) -> (r: Option<u32>)
    ensures
        r == ordinal_day(t@),
        r matches Some(d) ==> 1 <= d <= 31,
{
    let l = lower_chars(t);
    let n = l.len();
    let suffix = n >= 2 && {
        let x = l[n - 2];
        let y = l[n - 1];
        (x == 's' && y == 't') || (x == 'n' && y == 'd') || (x == 'r' && y == 'd') || (x == 't' && y == 'h')
    };
    let digits = if suffix { slice_vec(&l, 0, n - 2) } else { slice_vec(&l, 0, n) };
    assert(l@.subrange(0, n as int) =~= l@);
    match parse_unsigned(&digits, 255) {
        Some(v) => if 1 <= v && v <= 31 { Some(v) } else { None },
        None => None,
    }
}

/// Reads a `month/day` pair that some year holds.
pub fn parse_month_day(t: &Vec<char>) -> (r: Result<(u32, u32), CompileError>)
    ensures
        r == month_day(t@),
        r matches Ok((m, d)) ==> valid_ymd(2024, m as int, d as int),
{
    let p = position_of(t, '/');
    if p >= t.len() {
        return Err(CompileError::InvalidDate);
    }
    let a = slice_vec(t, 0, p);
    let b = slice_vec(t, p + 1, t.len());
    if position_of(&b, '/') < b.len() {
        return Err(CompileError::InvalidDate);
    }
    match (parse_unsigned(&a, u32::MAX), parse_unsigned(&b, u32::MAX)) {
        (Some(m), Some(d)) => if Date::from_ymd(2024, m, d).is_some() {
            Ok((m, d))
        } else {
            Err(CompileError::InvalidDate)
        },
        _ => Err(CompileError::InvalidDate),
    }
}

fn join_from(parts: &Vec<Vec<char>>, k: usize) -> (r: Vec<char>)
    requires
        k < parts@.len(),
    ensures
        r@ == joined(views(parts@).subrange(k as int, parts@.len() as int)),
{
    let ghost t = views(parts@);
    let n = parts.len();
    let mut out: Vec<char> = Vec::new();
    push_all(&mut out, &parts[k]);
    let mut i: usize = k + 1;
    assert(i <= n);
    assert(t.subrange(k as int, i as int) =~= seq![t[k as int]]);
    while i < parts.len()
        invariant
            k < i <= parts@.len(),
            t == views(parts@),
            out@ == joined(t.subrange(k as int, i as int)),
        decreases parts@.len() - i,
    {
        out.push(' ');
        push_all(&mut out, &parts[i]);
        assert(t.subrange(k as int, i + 1).drop_last() =~= t.subrange(k as int, i as int));
        i = i + 1;
    }
    out
}

/// The `(minute, hour)` of the time written by the parts from `k` on, or 23:59 when there
/// are none.
pub fn get_time_or_default(parts: &Vec<Vec<char>>, k: usize) -> (r: Result<(u32, u32), CompileError>)
    ensures
        r == time_or_default(views(parts@), k as int),
        r matches Ok((m, h)) ==> m < 60 && h < 24,
{
    if parts.len() > k {
        let text = join_from(parts, k);
        match parse_time_portion(&text) {
            Some(tm) => Ok((tm.minute, tm.hour)),
            None => Err(CompileError::InvalidTime),
        }
    } else {
        Ok((59, 23))
    }
}

fn part_is(parts: &Vec<Vec<char>>, k: usize, word: &str) -> (r: bool)
    requires
        k < parts@.len(),
    ensures
        r == (lower_of(views(parts@)[k as int]) == word@),
{
    let l = lower_chars(&parts[k]);
    same_chars(&l, word)
}

fn weekly_exec(parts: &Vec<Vec<char>>) -> (r: Result<Schedule, CompileError>)
    requires
        parts@.len() >= 1,
    ensures
        r == compile_weekly(views(parts@)),
        r matches Ok(x) ==> x.wf(),
{
    let ghost t = views(parts@);
    if parts.len() == 1 {
        return Ok(Schedule::Weekly { minute: 59, hour: 23, days: WeekdaySpec::Single(0) });
    }
    assert(t[1] == parts@[1]@);
    let days = if position_of(&parts[1], '-') < parts[1].len() {
        parse_day_range(&parts[1])
    } else {
        match parse_weekday(&parts[1]) {
            Ok(w) => Ok(WeekdaySpec::Single(w)),
            Err(e) => Err(e),
        }
    };
    match days {
        Ok(d) => match get_time_or_default(parts, 2) {
            Ok((minute, hour)) => Ok(Schedule::Weekly { minute, hour, days: d }),
            Err(e) => Err(e),
        },
        Err(e) => Err(e),
    }
}

fn every_exec(parts: &Vec<Vec<char>>) -> (r: Result<Schedule, CompileError>)
    requires
        parts@.len() >= 1,
    ensures
        r == compile_every(views(parts@)),
        r matches Ok(x) ==> x.wf(),
{
    let ghost t = views(parts@);
    if parts.len() == 1 {
        return Err(CompileError::UnsupportedPattern);
    }
    assert(t[1] == parts@[1]@);
    if parse_time_portion(&parts[1]).is_some() {
        return match get_time_or_default(parts, 1) {
            Ok((minute, hour)) => Ok(Schedule::Daily { minute, hour }),
            Err(e) => Err(e),
        };
    }
    if part_is(parts, 1, "day") {
        return match get_time_or_default(parts, 2) {
            Ok((minute, hour)) => Ok(Schedule::Daily { minute, hour }),
            Err(e) => Err(e),
        };
    }
    let l = lower_chars(&parts[1]);
    if let Some(w) = weekday_word_exec(&l) {
        return match get_time_or_default(parts, 2) {
            Ok((minute, hour)) => Ok(Schedule::Weekly { minute, hour, days: WeekdaySpec::Single(w) }),
            Err(e) => Err(e),
        };
    }
    if position_of(&parts[1], '/') < parts[1].len() {
        return match parse_month_day(&parts[1]) {
            Ok((month, day)) => match get_time_or_default(parts, 2) {
                Ok((minute, hour)) => Ok(Schedule::Yearly { minute, hour, day, month }),
                Err(e) => Err(e),
            },
            Err(e) => Err(e),
        };
    }
    if let Some(day) = parse_ordinal_day(&parts[1]) {
        if parts.len() >= 5 && part_is(parts, 2, "of") && part_is(parts, 3, "the") && part_is(parts, 4, "month") {
            return match get_time_or_default(parts, 5) {
                Ok((minute, hour)) => Ok(Schedule::Monthly { minute, hour, day }),
                Err(e) => Err(e),
            };
        }
        if parts.len() >= 4 && part_is(parts, 2, "of") && part_is(parts, 3, "month") {
            return match get_time_or_default(parts, 4) {
                Ok((minute, hour)) => Ok(Schedule::Monthly { minute, hour, day }),
                Err(e) => Err(e),
            };
        }
    }
    Err(CompileError::UnsupportedPattern)
}

/// Compiles a recurrence phrase such as `Weekly Mon-Fri 9AM` or `Every 9th of the Month`.
pub fn compile(s: &str) -> (r: Result<Schedule, CompileError>)
    ensures
        r == compile_spec(s@),
        r matches Ok(x) ==> x.wf(),
{
    let cs = chars_of(s);
    let parts = split_tokens(&cs);
    assert(views(parts@) =~= tokens(s@));
    if parts.len() == 0 {
        return Err(CompileError::Empty);
    }
    if part_is(&parts, 0, "daily") {
        match get_time_or_default(&parts, 1) {
            Ok((minute, hour)) => Ok(Schedule::Daily { minute, hour }),
            Err(e) => Err(e),
        }
    } else if part_is(&parts, 0, "weekly") {
        weekly_exec(&parts)
    } else if part_is(&parts, 0, "monthly") {
        if parts.len() == 1 {
            return Ok(Schedule::Monthly { minute: 59, hour: 23, day: 1 });
        }
        assert(views(parts@)[1] == parts@[1]@);
        match parse_ordinal_day(&parts[1]) {
            Some(day) => match get_time_or_default(&parts, 2) {
                Ok((minute, hour)) => Ok(Schedule::Monthly { minute, hour, day }),
                Err(e) => Err(e),
            },
            None => Err(CompileError::InvalidOrdinal),
        }
    } else if part_is(&parts, 0, "yearly") {
        if parts.len() == 1 {
            return Ok(Schedule::Yearly { minute: 59, hour: 23, day: 31, month: 12 });
        }
        assert(views(parts@)[1] == parts@[1]@);
        match parse_month_day(&parts[1]) {
            Ok((month, day)) => match get_time_or_default(&parts, 2) {
                Ok((minute, hour)) => Ok(Schedule::Yearly { minute, hour, day, month }),
                Err(e) => Err(e),
            },
            Err(e) => Err(e),
        }
    } else if part_is(&parts, 0, "every") {
        every_exec(&parts)
    } else {
        Err(CompileError::UnsupportedPattern)
    }
}

/// Compiles a recurrence phrase into its canonical five-field text.
pub fn parse_recurring_timestr(s: &str) -> (r: Result<String, CompileError>)
    ensures
        r is Ok <==> compile_spec(s@) is Ok,
        r matches Ok(x) ==> x@ == canonical(compile_spec(s@)->Ok_0),
        r matches Err(e) ==> compile_spec(s@) == Err::<Schedule, CompileError>(e),
{
    match compile(s) {
        Ok(x) => Ok(x.to_canonical()),
        Err(e) => Err(e),
    }
}

} // verus!
