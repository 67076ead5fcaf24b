use vstd::prelude::*;

use crate::text::{
    chars_of, decimal, find_char, is_digit, lemma_decimal_round_trip,
    lemma_find_char_absent, lemma_find_char_after, lemma_tokens_join5, no_space, parse_unsigned,
    position_of, push_decimal, slice_vec, split_tokens, string_of, tokens,
    unsigned_value,
};
use crate::calendar::{
    day_number, is_last_day, lemma_interior_margin, lemma_month_order, secs, time_of_day,
    valid_ymd, weekday_of, weekday_of_number, Date, LocalDateTime, MAX_YEAR, MIN_YEAR,
};

verus! {

/// Why a canonical schedule string was refused.
#[derive(Clone, Copy, Debug, PartialEq, Eq, Structural)]
pub enum ScheduleFormatError {
    /// Not exactly five fields.
    FieldCount,
    /// A field is not a number in its range, or not `*` where that is allowed.
    InvalidField,
    /// The fields present match none of the four shapes.
    UnsupportedPattern,
}

/// The days of the week a weekly schedule fires on (0 is Sunday).
#[derive(Clone, Copy, Debug, PartialEq, Eq, Structural)]
pub enum WeekdaySpec {
    /// One weekday, 0 to 6.
    Single(u32),
    /// An inclusive forward range; the end may be 7, which stands for Sunday.
    Range(u32, u32),
}

/// A compiled recurring schedule, in one of its four shapes.
#[derive(Clone, Copy, Debug, PartialEq, Eq, Structural)]
pub enum Schedule {
    Daily { minute: u32, hour: u32 },
    Weekly { minute: u32, hour: u32, days: WeekdaySpec },
    Monthly { minute: u32, hour: u32, day: u32 },
    Yearly { minute: u32, hour: u32, day: u32, month: u32 },
}

/// Why no occurrence could be computed.
#[derive(Clone, Copy, Debug, PartialEq, Eq, Structural)]
pub enum OccurrenceError {
    /// The month searched last has no such day.
    InvalidDayForMonth { day: u32, month: u32 },
    /// The year searched last has no such date.
    InvalidDate { day: u32, month: u32, year: i32 },
    /// No day of the searched week matched.
    NoMatchingWeekday,
    /// The reference date lies at the edge of the supported years.
    OutOfRange,
}

impl WeekdaySpec {
    pub open spec fn wf(self) -> bool {
        match self {
            WeekdaySpec::Single(w) => w < 7,
            WeekdaySpec::Range(s, e) => s <= 6 && e <= 7 && s <= e,
        }
    }

    /// Whether weekday `wd` (0 is Sunday) is one of the days of the spec.
    pub open spec fn matches(self, wd: int) -> bool {
        match self {
            WeekdaySpec::Single(w) => wd == w,
            WeekdaySpec::Range(s, e) => (s <= wd && wd <= e) || (wd == 0 && e == 7),
        }
    }

    /// The first weekday of the spec.
    pub open spec fn first(self) -> int {
        match self {
            WeekdaySpec::Single(w) => w as int,
            WeekdaySpec::Range(s, _) => s as int,
        }
    }

    pub fn contains(&self, wd: u32) -> (r: bool)
        ensures
            r == self.matches(wd as int),
    {
        match self {
            WeekdaySpec::Single(w) => wd == *w,
            WeekdaySpec::Range(s, e) => (*s <= wd && wd <= *e) || (wd == 0 && *e == 7),
        }
    }
}

impl Schedule {
    pub open spec fn minute_of(self) -> u32 {
        match self {
            Schedule::Daily { minute, .. } => minute,
            Schedule::Weekly { minute, .. } => minute,
            Schedule::Monthly { minute, .. } => minute,
            Schedule::Yearly { minute, .. } => minute,
        }
    }

    pub open spec fn hour_of(self) -> u32 {
        match self {
            Schedule::Daily { hour, .. } => hour,
            Schedule::Weekly { hour, .. } => hour,
            Schedule::Monthly { hour, .. } => hour,
            Schedule::Yearly { hour, .. } => hour,
        }
    }

    /// A well-formed schedule: a real time of day, and a day that some year can hold.
    pub open spec fn wf(self) -> bool {
        &&& self.minute_of() < 60
        &&& self.hour_of() < 24
        &&& match self {
            Schedule::Daily { .. } => true,
            Schedule::Weekly { days, .. } => days.wf(),
            Schedule::Monthly { day, .. } => 1 <= day <= 31,
            Schedule::Yearly { day, month, .. } => valid_ymd(2024, month as int, day as int),
        }
    }

    /// Whether the schedule fires at `t`.
    pub open spec fn fires_at(self, t: LocalDateTime) -> bool {
        &&& t.valid()
        &&& t.minute == self.minute_of()
        &&& t.hour == self.hour_of()
        &&& t.second == 0
        &&& match self {
            Schedule::Daily { .. } => true,
            Schedule::Weekly { days, .. } => days.matches(weekday_of(t.date)),
            Schedule::Monthly { day, .. } => t.date.day == day,
            Schedule::Yearly { day, month, .. } => t.date.day == day && t.date.month == month,
        }
    }
}

/// `t` lies strictly after `now` (forward) or strictly before it (backward).
pub open spec fn beyond(t: LocalDateTime, now: LocalDateTime, forward: bool) -> bool {
    if forward {
        secs(t) > secs(now)
    } else {
        secs(t) < secs(now)
    }
}

/// `t` is the occurrence of `s` nearest to `now` in the search direction.
pub open spec fn nearest(s: Schedule, now: LocalDateTime, forward: bool, t: LocalDateTime) -> bool {
    &&& s.fires_at(t)
    &&& beyond(t, now, forward)
    &&& forall|u: LocalDateTime|
        #![trigger s.fires_at(u)]
        s.fires_at(u) && beyond(u, now, forward) ==> (if forward {
            secs(t) <= secs(u)
        } else {
            secs(t) >= secs(u)
        })
}

pub open spec fn at_time(d: Date, hour: u32, minute: u32) -> LocalDateTime {
    LocalDateTime { date: d, hour, minute, second: 0 }
}

/// The occurrence on `(y, m, day)`, when that date exists.
pub open spec fn candidate(y: int, m: int, day: u32, hour: u32, minute: u32) -> Option<LocalDateTime> {
    if valid_ymd(y, m, day as int) {
        Some(at_time(Date { year: y as i32, month: m as u32, day }, hour, minute))
    } else {
        None
    }
}

/// The month after `(y, m)`.
pub open spec fn month_after(y: int, m: int) -> (int, int) {
    if m == 12 { (y + 1, 1) } else { (y, m + 1) }
}

/// The month before `(y, m)`.
pub open spec fn month_before(y: int, m: int) -> (int, int) {
    if m == 1 { (y - 1, 12) } else { (y, m - 1) }
}

/// Backward monthly search: the first of the `tries` months before `(y, m)` that holds `day`.
pub open spec fn monthly_back(y: int, m: int, day: u32, hour: u32, minute: u32, tries: nat) -> Result<LocalDateTime, OccurrenceError>
    decreases tries,
{
    if tries == 0 {
        Err(OccurrenceError::InvalidDayForMonth { day, month: m as u32 })
    } else {
        let (py, pm) = month_before(y, m);
        match candidate(py, pm, day, hour, minute) {
            Some(t) => Ok(t),
            None => monthly_back(py, pm, day, hour, minute, (tries - 1) as nat),
        }
    }
}

/// Monthly search: the occurrence in the month of `now` when it lies beyond `now`; otherwise,
/// forward, the one in the next month, and backward, the nearest of the twelve months before.
pub open spec fn monthly_occurrence(now: LocalDateTime, minute: u32, hour: u32, day: u32, forward: bool) -> Result<LocalDateTime, OccurrenceError> {
    let y = now.date.year as int;
    let m = now.date.month as int;
    match candidate(y, m, day, hour, minute) {
        Some(t) if beyond(t, now, forward) => Ok(t),
        _ => if forward {
            let (ny, nm) = month_after(y, m);
            match candidate(ny, nm, day, hour, minute) {
                Some(t) => Ok(t),
                None => Err(OccurrenceError::InvalidDayForMonth { day, month: nm as u32 }),
            }
        } else {
            monthly_back(y, m, day, hour, minute, 12)
        },
    }
}

/// Yearly search: the occurrence in the year of `now` when it lies beyond `now`, else the
/// one in the adjacent year.
pub open spec fn yearly_occurrence(now: LocalDateTime, minute: u32, hour: u32, day: u32, month: u32, forward: bool) -> Result<LocalDateTime, OccurrenceError> {
    let y = now.date.year as int;
    match candidate(y, month as int, day, hour, minute) {
        Some(t) if beyond(t, now, forward) => Ok(t),
        _ => {
            let ny = if forward { y + 1 } else { y - 1 };
            match candidate(ny, month as int, day, hour, minute) {
                Some(t) => Ok(t),
                None => Err(OccurrenceError::InvalidDate { day, month, year: ny as i32 }),
            }
        },
    }
}

/// What a search for the occurrence of `s` nearest to `now` yields.
pub open spec fn occurrence_result(s: Schedule, now: LocalDateTime, forward: bool, r: Result<LocalDateTime, OccurrenceError>) -> bool {
    match s {
        Schedule::Daily { .. } | Schedule::Weekly { .. } => r matches Ok(t) && nearest(s, now, forward, t),
        Schedule::Monthly { minute, hour, day } => r == monthly_occurrence(now, minute, hour, day, forward)
            && (r matches Ok(t) ==> nearest(s, now, forward, t)),
        Schedule::Yearly { minute, hour, day, month } => r == yearly_occurrence(now, minute, hour, day, month, forward)
            && (r matches Ok(t) ==> nearest(s, now, forward, t)),
    }
}

/// Day number reached after `j` steps from `n0` in the search direction.
pub open spec fn step(n0: int, j: int, forward: bool) -> int {
    if forward { n0 + j } else { n0 - j }
}

/// Whether the day numbered `n` holds an occurrence of a weekly spec beyond `now_secs`.
pub open spec fn weekly_hit(days: WeekdaySpec, tod: int, now_secs: int, n: int, forward: bool) -> bool {
    &&& days.matches(weekday_of_number(n))
    &&& if forward { n * 86400 + tod > now_secs } else { n * 86400 + tod < now_secs }
}

fn one_day(d: &Date, forward: bool, Ghost(origin): Ghost<Date>) -> (r: Date)
    requires
        origin.interior(),
        d.valid(),
        forward ==> day_number(*d) <= day_number(origin) + 8,
        !forward ==> day_number(*d) + 8 >= day_number(origin),
    ensures
        r.valid(),
        day_number(r) == step(day_number(*d), 1, forward),
{
    proof {
        lemma_interior_margin(origin);
        if forward && d.year == MAX_YEAR && is_last_day(*d) {
            assert(day_number(*d) == day_number(Date { year: MAX_YEAR, month: 12, day: 31 }));
        }
    }
    if forward {
        d.next_day()
    } else {
        d.prev_day()
    }
}

/// Daily search: the occurrence on the day of `now`, or on the adjacent day when the first
/// is not beyond `now`.
fn calculate_daily(now: &LocalDateTime, minute: u32, hour: u32, forward: bool) -> (r: Result<LocalDateTime, OccurrenceError>)
    requires
        now.valid(),
        now.date.interior(),
        minute < 60,
        hour < 24,
    ensures
        occurrence_result(Schedule::Daily { minute, hour }, *now, forward, r),
{
    let s = Ghost(Schedule::Daily { minute, hour });
    let today = LocalDateTime { date: now.date, hour, minute, second: 0 };
    let now_secs = now.seconds();
    let t_secs = today.seconds();
    let hit = if forward { t_secs > now_secs } else { t_secs < now_secs };
    if hit {
        proof {
            assert forall|u: LocalDateTime| s@.fires_at(u) && beyond(u, *now, forward) implies (if forward {
                secs(today) <= secs(u)
            } else {
                secs(today) >= secs(u)
            }) by {
                if forward && day_number(u.date) < day_number(now.date) {
                    assert(secs(u) < secs(*now));
                }
                if !forward && day_number(u.date) > day_number(now.date) {
                    assert(secs(u) > secs(*now));
                }
            }
        }
        Ok(today)
    } else {
        let d = one_day(&now.date, forward, Ghost(now.date));
        let t = LocalDateTime { date: d, hour, minute, second: 0 };
        proof {
            assert forall|u: LocalDateTime| s@.fires_at(u) && beyond(u, *now, forward) implies (if forward {
                secs(t) <= secs(u)
            } else {
                secs(t) >= secs(u)
            }) by {
                if forward && day_number(u.date) <= day_number(now.date) {
                    assert(secs(u) <= secs(today));
                }
                if !forward && day_number(u.date) >= day_number(now.date) {
                    assert(secs(u) >= secs(today));
                }
            }
        }
        Ok(t)
    }
}

/// Weekly search: the nearest day, at most a week and a day away, whose weekday matches.
fn calculate_weekly(now: &LocalDateTime, minute: u32, hour: u32, days: WeekdaySpec, forward: bool) -> (r: Result<LocalDateTime, OccurrenceError>)
    requires
        now.valid(),
        now.date.interior(),
        minute < 60,
        hour < 24,
        days.wf(),
    ensures
        occurrence_result(Schedule::Weekly { minute, hour, days }, *now, forward, r),
{
    let s = Ghost(Schedule::Weekly { minute, hour, days });
    let ghost n0 = day_number(now.date);
    let ghost tod = time_of_day(hour as int, minute as int, 0);
    let now_secs = now.seconds();
    let mut d = now.date;
    let mut k: u32 = 0;
    while k < 8
        invariant
            0 <= k <= 8,
            d.valid(),
            now.valid(),
            now.date.interior(),
            minute < 60,
            hour < 24,
            days.wf(),
            now_secs == secs(*now),
            n0 == day_number(now.date),
            tod == time_of_day(hour as int, minute as int, 0),
            k < 8 ==> day_number(d) == step(n0, k as int, forward),
            forall|j: int| 0 <= j < k ==> !weekly_hit(days, tod, now_secs as int, #[trigger] step(n0, j, forward), forward),
        decreases 8 - k,
    {
        let c = LocalDateTime { date: d, hour, minute, second: 0 };
        let c_secs = c.seconds();
        let wd = d.weekday();
        let time_ok = if forward { c_secs > now_secs } else { c_secs < now_secs };
        if days.contains(wd) && time_ok {
            proof {
                lemma_weekly_nearest(days, minute, hour, *now, d, k as int, forward);
            }
            return Ok(c);
        }
        proof {
            assert(!weekly_hit(days, tod, now_secs as int, step(n0, k as int, forward), forward));
        }
        if k < 7 {
            d = one_day(&d, forward, Ghost(now.date));
        }
        k = k + 1;
    }
    proof {
        lemma_week_has_hit(days, tod, now_secs as int, n0, forward);
    }
    Err(OccurrenceError::NoMatchingWeekday)
}

proof fn lemma_weekly_nearest(days: WeekdaySpec, minute: u32, hour: u32, now: LocalDateTime, d: Date, k: int, forward: bool)
    requires
        now.valid(),
        d.valid(),
        minute < 60,
        hour < 24,
        day_number(d) == step(day_number(now.date), k, forward),
        days.matches(weekday_of(d)),
        beyond(at_time(d, hour, minute), now, forward),
        forall|j: int| 0 <= j < k ==> !weekly_hit(days, time_of_day(hour as int, minute as int, 0), secs(now), #[trigger] step(day_number(now.date), j, forward), forward),
    ensures
        nearest(Schedule::Weekly { minute, hour, days }, now, forward, at_time(d, hour, minute)),
{
    let s = Schedule::Weekly { minute, hour, days };
    let c = at_time(d, hour, minute);
    let n0 = day_number(now.date);
    let tod = time_of_day(hour as int, minute as int, 0);
    assert forall|u: LocalDateTime| s.fires_at(u) && beyond(u, now, forward) implies (if forward {
        secs(c) <= secs(u)
    } else {
        secs(c) >= secs(u)
    }) by {
        let nu = day_number(u.date);
        if forward && nu < day_number(d) {
            if nu >= n0 {
                let j = nu - n0;
                assert(step(n0, j, forward) == nu);
                assert(!weekly_hit(days, tod, secs(now), step(n0, j, forward), forward));
            } else {
                assert(secs(u) < secs(now));
            }
        }
        if !forward && nu > day_number(d) {
            if nu <= n0 {
                let j = n0 - nu;
                assert(step(n0, j, forward) == nu);
                assert(!weekly_hit(days, tod, secs(now), step(n0, j, forward), forward));
            } else {
                assert(secs(u) > secs(now));
            }
        }
    }
}

fn make_candidate(y: i32, m: u32, day: u32, hour: u32, minute: u32) -> (r: Option<LocalDateTime>)
    ensures
        r == candidate(y as int, m as int, day, hour, minute),
{
    match Date::from_ymd(y, m, day) {
        Some(d) => Some(LocalDateTime { date: d, hour, minute, second: 0 }),
        None => None,
    }
}

/// Monthly search, as `monthly_occurrence` states it.
fn calculate_monthly(now: &LocalDateTime, minute: u32, hour: u32, day: u32, forward: bool) -> (r: Result<LocalDateTime, OccurrenceError>)
    requires
        now.valid(),
        now.date.interior(),
        minute < 60,
        hour < 24,
    ensures
        r == monthly_occurrence(*now, minute, hour, day, forward),
{
    let mut year = now.date.year;
    let mut month = now.date.month;
    let now_secs = now.seconds();
    if let Some(t) = make_candidate(year, month, day, hour, minute) {
        let t_secs = t.seconds();
        let hit = if forward { t_secs > now_secs } else { t_secs < now_secs };
        if hit {
            return Ok(t);
        }
    }
    if forward {
        if month == 12 {
            month = 1;
            year = year + 1;
        } else {
            month = month + 1;
        }
        match make_candidate(year, month, day, hour, minute) {
            Some(t) => Ok(t),
            None => Err(OccurrenceError::InvalidDayForMonth { day, month }),
        }
    } else {
        monthly_search_back(now, minute, hour, day)
    }
}

/// Backward monthly search over the twelve months before the month of `now`.
fn monthly_search_back(now: &LocalDateTime, minute: u32, hour: u32, day: u32) -> (r: Result<LocalDateTime, OccurrenceError>)
    requires
        now.valid(),
        now.date.interior(),
    ensures
        r == monthly_back(now.date.year as int, now.date.month as int, day, hour, minute, 12),
{
    let mut year = now.date.year;
    let mut month = now.date.month;
    let mut tries: u32 = 12;
    while tries > 0
        invariant
            tries <= 12,
            now.date.year - 1 <= year <= now.date.year,
            1 <= month <= 12,
            now.date.interior(),
            monthly_back(year as int, month as int, day, hour, minute, tries as nat)
                == monthly_back(now.date.year as int, now.date.month as int, day, hour, minute, 12),
            (year as int) * 12 + month + 12 - tries == (now.date.year as int) * 12 + now.date.month,
        decreases tries,
    {
        let ghost old_y = year;
        let ghost old_m = month;
        if month == 1 {
            month = 12;
            year = year - 1;
        } else {
            month = month - 1;
        }
        tries = tries - 1;
        let found = make_candidate(year, month, day, hour, minute);
        proof {
            assert(month_before(old_y as int, old_m as int) == (year as int, month as int));
            let prev = monthly_back(old_y as int, old_m as int, day, hour, minute, (tries + 1) as nat);
            if let Some(t) = candidate(year as int, month as int, day, hour, minute) {
                assert(prev == Ok::<LocalDateTime, OccurrenceError>(t));
            } else {
                assert(prev == monthly_back(year as int, month as int, day, hour, minute, tries as nat));
            }
        }
        if let Some(t) = found {
            return Ok(t);
        }
    }
    Err(OccurrenceError::InvalidDayForMonth { day, month })
}

/// Yearly search, as `yearly_occurrence` states it.
fn calculate_yearly(now: &LocalDateTime, minute: u32, hour: u32, day: u32, month: u32, forward: bool) -> (r: Result<LocalDateTime, OccurrenceError>)
    requires
        now.valid(),
        now.date.interior(),
        minute < 60,
        hour < 24,
    ensures
        r == yearly_occurrence(*now, minute, hour, day, month, forward),
{
    let mut year = now.date.year;
    let now_secs = now.seconds();
    if let Some(t) = make_candidate(year, month, day, hour, minute) {
        let t_secs = t.seconds();
        let hit = if forward { t_secs > now_secs } else { t_secs < now_secs };
        if hit {
            return Ok(t);
        }
    }
    if forward {
        year = year + 1;
    } else {
        year = year - 1;
    }
    match make_candidate(year, month, day, hour, minute) {
        Some(t) => Ok(t),
        None => Err(OccurrenceError::InvalidDate { day, month, year }),
    }
}

/// The occurrence of `s` nearest to `now`: strictly after it when `forward`, strictly
/// before it otherwise.
pub fn occurrence_from(s: &Schedule, now: &LocalDateTime, forward: bool) -> (r: Result<LocalDateTime, OccurrenceError>)
    requires
        s.wf(),
        now.valid(),
    ensures
        now.date.interior() ==> occurrence_result(*s, *now, forward, r),
        !now.date.interior() ==> r == Err::<LocalDateTime, OccurrenceError>(OccurrenceError::OutOfRange),
        r matches Ok(t) ==> s.fires_at(t) && beyond(t, *now, forward),
{
    if now.date.year <= MIN_YEAR || now.date.year >= MAX_YEAR {
        return Err(OccurrenceError::OutOfRange);
    }
    let r = match *s {
        Schedule::Daily { minute, hour } => calculate_daily(now, minute, hour, forward),
        Schedule::Weekly { minute, hour, days } => calculate_weekly(now, minute, hour, days, forward),
        Schedule::Monthly { minute, hour, day } => calculate_monthly(now, minute, hour, day, forward),
        Schedule::Yearly { minute, hour, day, month } => calculate_yearly(now, minute, hour, day, month, forward),
    };
    proof {
        if let Ok(t) = r {
            if let Schedule::Monthly { minute, hour, day } = *s {
                lemma_monthly_nearest(*now, minute, hour, day, forward, t);
            }
            if let Schedule::Yearly { minute, hour, day, month } = *s {
                lemma_yearly_nearest(*now, minute, hour, day, month, forward, t);
            }
        }
        lemma_occurrence_sound(*s, *now, forward, r);
    }
    r
}

/// What the backward monthly search finds lies in an earlier month, at a real date.
proof fn lemma_monthly_back_sound(y: int, m: int, day: u32, hour: u32, minute: u32, tries: nat)
    requires
        MIN_YEAR as int + 1 <= y,
        1 <= m <= 12,
        tries <= 12,
        hour < 24,
        minute < 60,
    ensures
        monthly_back(y, m, day, hour, minute, tries) matches Ok(t) ==> t.valid() && t.hour == hour
            && t.minute == minute && t.second == 0 && t.date.day == day && (t.date.year < y || (
            t.date.year == y && t.date.month < m)),
    decreases tries,
{
    if tries > 0 {
        let (py, pm) = month_before(y, m);
        if py >= MIN_YEAR as int + 1 {
            lemma_monthly_back_sound(py, pm, day, hour, minute, (tries - 1) as nat);
        } else {
            lemma_monthly_back_short(py, pm, day, hour, minute, (tries - 1) as nat);
        }
    }
}

proof fn lemma_monthly_back_short(y: int, m: int, day: u32, hour: u32, minute: u32, tries: nat)
    requires
        y == MIN_YEAR as int,
        1 <= m <= 12,
        tries < m,
        hour < 24,
        minute < 60,
    ensures
        monthly_back(y, m, day, hour, minute, tries) matches Ok(t) ==> t.valid() && t.hour == hour
            && t.minute == minute && t.second == 0 && t.date.day == day && t.date.year == y
            && t.date.month < m,
    decreases tries,
{
    if tries > 0 {
        let (py, pm) = month_before(y, m);
        lemma_monthly_back_short(py, pm, day, hour, minute, (tries - 1) as nat);
    }
}

proof fn lemma_monthly_sound(now: LocalDateTime, minute: u32, hour: u32, day: u32, forward: bool, t: LocalDateTime)
    requires
        now.valid(),
        now.date.interior(),
        minute < 60,
        hour < 24,
        monthly_occurrence(now, minute, hour, day, forward) == Ok::<LocalDateTime, OccurrenceError>(t),
    ensures
        t.valid() && t.date.day == day && t.hour == hour && t.minute == minute && t.second == 0,
        beyond(t, now, forward),
{
    let y = now.date.year as int;
    let m = now.date.month as int;
    let c = candidate(y, m, day, hour, minute);
    assert(0 <= time_of_day(now.hour as int, now.minute as int, now.second as int) < 86400);
    if c is Some && beyond(c->Some_0, now, forward) {
        assert(t == c->Some_0);
    } else if forward {
        let (ny, nm) = month_after(y, m);
        assert(candidate(ny, nm, day, hour, minute) == Some(t));
        lemma_month_order(now.date, t.date);
    } else {
        lemma_monthly_back_sound(y, m, day, hour, minute, 12);
        lemma_month_order(t.date, now.date);
    }
}

proof fn lemma_yearly_sound(now: LocalDateTime, minute: u32, hour: u32, day: u32, month: u32, forward: bool, t: LocalDateTime)
    requires
        now.valid(),
        now.date.interior(),
        minute < 60,
        hour < 24,
        yearly_occurrence(now, minute, hour, day, month, forward) == Ok::<LocalDateTime, OccurrenceError>(t),
    ensures
        t.valid() && t.date.day == day && t.date.month == month && t.hour == hour && t.minute == minute && t.second == 0,
        beyond(t, now, forward),
{
    let c = candidate(now.date.year as int, month as int, day, hour, minute);
    assert(0 <= time_of_day(now.hour as int, now.minute as int, now.second as int) < 86400);
    if c is Some && beyond(c->Some_0, now, forward) {
        assert(t == c->Some_0);
    } else if forward {
        assert(candidate(now.date.year + 1, month as int, day, hour, minute) == Some(t));
        lemma_month_order(now.date, t.date);
    } else {
        assert(candidate(now.date.year - 1, month as int, day, hour, minute) == Some(t));
        lemma_month_order(t.date, now.date);
    }
}

/// Position of month `m` of year `y` in a count of months.
pub open spec fn month_index(y: int, m: int) -> int {
    y * 12 + m
}

/// The backward monthly search skips only months that lack the day.
proof fn lemma_monthly_back_gap(y: int, m: int, day: u32, hour: u32, minute: u32, tries: nat)
    requires
        1 <= m <= 12,
    ensures
        monthly_back(y, m, day, hour, minute, tries) matches Ok(t) ==> month_index(t.date.year as int, t.date.month as int) < month_index(y, m)
            && forall|yy: int, mm: int| 1 <= mm <= 12 && month_index(t.date.year as int, t.date.month as int) < month_index(yy, mm) < month_index(y, m)
                ==> !#[trigger] valid_ymd(yy, mm, day as int),
    decreases tries,
{
    if tries > 0 {
        let (py, pm) = month_before(y, m);
        assert(month_index(py, pm) == month_index(y, m) - 1);
        if candidate(py, pm, day, hour, minute) is None {
            lemma_monthly_back_gap(py, pm, day, hour, minute, (tries - 1) as nat);
            if let Ok(t) = monthly_back(y, m, day, hour, minute, tries) {
                assert forall|yy: int, mm: int| 1 <= mm <= 12 && month_index(t.date.year as int, t.date.month as int) < month_index(yy, mm) < month_index(y, m)
                    implies !#[trigger] valid_ymd(yy, mm, day as int) by {
                    if month_index(yy, mm) == month_index(py, pm) {
                        assert(yy == py && mm == pm);
                    }
                }
            }
        }
    }
}

/// A monthly occurrence found is the nearest one in the search direction.
proof fn lemma_monthly_nearest(now: LocalDateTime, minute: u32, hour: u32, day: u32, forward: bool, t: LocalDateTime)
    requires
        now.valid(),
        now.date.interior(),
        minute < 60,
        hour < 24,
        monthly_occurrence(now, minute, hour, day, forward) == Ok::<LocalDateTime, OccurrenceError>(t),
    ensures
        nearest(Schedule::Monthly { minute, hour, day }, now, forward, t),
{
    let s = Schedule::Monthly { minute, hour, day };
    let y = now.date.year as int;
    let m = now.date.month as int;
    let c = candidate(y, m, day, hour, minute);
    lemma_monthly_sound(now, minute, hour, day, forward, t);
    if !forward {
        lemma_monthly_back_gap(y, m, day, hour, minute, 12);
    }
    assert forall|u: LocalDateTime| s.fires_at(u) && beyond(u, now, forward) implies (if forward {
        secs(t) <= secs(u)
    } else {
        secs(t) >= secs(u)
    }) by {
        let iu = month_index(u.date.year as int, u.date.month as int);
        let it = month_index(t.date.year as int, t.date.month as int);
        let in_ = month_index(y, m);
        assert(0 <= time_of_day(now.hour as int, now.minute as int, now.second as int) < 86400);
        if iu == it {
            assert(u.date.year == t.date.year && u.date.month == t.date.month);
            assert(u.date == t.date);
        } else if iu < it {
            lemma_month_order(u.date, t.date);
            if forward {
                if iu < in_ {
                    lemma_month_order(u.date, now.date);
                } else {
                    assert(u.date.year == now.date.year && u.date.month == now.date.month);
                    assert(c == Some(u));
                }
            }
        } else {
            lemma_month_order(t.date, u.date);
            if !forward {
                if iu > in_ {
                    lemma_month_order(now.date, u.date);
                } else if iu == in_ {
                    assert(u.date.year == now.date.year && u.date.month == now.date.month);
                    assert(c == Some(u));
                } else {
                    assert(valid_ymd(u.date.year as int, u.date.month as int, day as int));
                }
            }
        }
    }
}

/// A yearly occurrence found is the nearest one in the search direction.
proof fn lemma_yearly_nearest(now: LocalDateTime, minute: u32, hour: u32, day: u32, month: u32, forward: bool, t: LocalDateTime)
    requires
        now.valid(),
        now.date.interior(),
        minute < 60,
        hour < 24,
        yearly_occurrence(now, minute, hour, day, month, forward) == Ok::<LocalDateTime, OccurrenceError>(t),
    ensures
        nearest(Schedule::Yearly { minute, hour, day, month }, now, forward, t),
{
    let s = Schedule::Yearly { minute, hour, day, month };
    let y = now.date.year as int;
    let c = candidate(y, month as int, day, hour, minute);
    lemma_yearly_sound(now, minute, hour, day, month, forward, t);
    assert forall|u: LocalDateTime| s.fires_at(u) && beyond(u, now, forward) implies (if forward {
        secs(t) <= secs(u)
    } else {
        secs(t) >= secs(u)
    }) by {
        assert(0 <= time_of_day(now.hour as int, now.minute as int, now.second as int) < 86400);
        if u.date.year == t.date.year {
            assert(u.date == t.date);
        } else if u.date.year < t.date.year {
            lemma_month_order(u.date, t.date);
            if forward {
                if u.date.year < y {
                    lemma_month_order(u.date, now.date);
                } else {
                    assert(c == Some(u));
                }
            }
        } else {
            lemma_month_order(t.date, u.date);
            if !forward {
                if u.date.year > y {
                    lemma_month_order(now.date, u.date);
                } else {
                    assert(c == Some(u));
                }
            }
        }
    }
}

/// Every occurrence found fires and lies beyond the reference time.
proof fn lemma_occurrence_sound(s: Schedule, now: LocalDateTime, forward: bool, r: Result<LocalDateTime, OccurrenceError>)
    requires
        s.wf(),
        now.valid(),
        now.date.interior(),
        occurrence_result(s, now, forward, r),
    ensures
        r matches Ok(t) ==> s.fires_at(t) && beyond(t, now, forward),
{
    if r is Ok {
        let t = r->Ok_0;
        let tod_now = time_of_day(now.hour as int, now.minute as int, now.second as int);
        assert(0 <= tod_now < 86400);
        if let Schedule::Monthly { minute, hour, day } = s {
            lemma_monthly_sound(now, minute, hour, day, forward, t);
        }
        if let Schedule::Yearly { minute, hour, day, month } = s {
            lemma_yearly_sound(now, minute, hour, day, month, forward, t);
        }
    }
}

/// Feeding each next occurrence of a weekly schedule back in as the reference time gives
/// strictly increasing instants, each on a matching weekday, with no occurrence skipped.
pub proof fn lemma_weekly_chain(s: Schedule, now: LocalDateTime, t1: LocalDateTime, t2: LocalDateTime)
    requires
        s is Weekly,
        s.wf(),
        occurrence_result(s, now, true, Ok(t1)),
        occurrence_result(s, t1, true, Ok(t2)),
    ensures
        secs(now) < secs(t1) < secs(t2),
        s->Weekly_days.matches(weekday_of(t1.date)),
        s->Weekly_days.matches(weekday_of(t2.date)),
        forall|u: LocalDateTime| s.fires_at(u) && secs(now) < secs(u) && secs(u) != secs(t1) ==> secs(t2) <= secs(u),
{
    assert forall|u: LocalDateTime| s.fires_at(u) && secs(now) < secs(u) && secs(u) != secs(t1) implies secs(t2) <= secs(u) by {
        assert(secs(t1) <= secs(u));
        assert(beyond(u, t1, true));
    }
}

/// A monthly schedule for day 31, searched forward from February, fires in March of the same
/// year: never in February, and without error.
pub proof fn lemma_day_31_skips_february(now: LocalDateTime, minute: u32, hour: u32)
    requires
        now.valid(),
        now.date.interior(),
        now.date.month == 2,
        minute < 60,
        hour < 24,
    ensures
        monthly_occurrence(now, minute, hour, 31, true) matches Ok(t) && t.date.month == 3
            && t.date.year == now.date.year && t.date.day == 31,
{
}

/// The canonical text of a weekday spec: `w` or `a-b`.
pub open spec fn weekday_text(w: WeekdaySpec) -> Seq<char> {
    match w {
        WeekdaySpec::Single(d) => decimal(d as nat),
        WeekdaySpec::Range(a, b) => decimal(a as nat) + seq!['-'] + decimal(b as nat),
    }
}

/// The canonical five-field text of a schedule: `minute hour day month weekday`, with `*`
/// for each absent field.
pub open spec fn canonical(s: Schedule) -> Seq<char> {
    let head = decimal(s.minute_of() as nat) + seq![' '] + decimal(s.hour_of() as nat);
    match s {
        Schedule::Daily { .. } => head + seq![' ', '*', ' ', '*', ' ', '*'],
        Schedule::Weekly { days, .. } => head + seq![' ', '*', ' ', '*', ' '] + weekday_text(days),
        Schedule::Monthly { day, .. } => head + seq![' '] + decimal(day as nat) + seq![' ', '*', ' ', '*'],
        Schedule::Yearly { day, month, .. } => head + seq![' '] + decimal(day as nat) + seq![' ']
            + decimal(month as nat) + seq![' ', '*'],
    }
}

pub open spec fn is_star(t: Seq<char>) -> bool {
    t == seq!['*']
}

/// A bounded number field.
pub open spec fn number_field(t: Seq<char>, max: int) -> Option<u32> {
    match unsigned_value(t) {
        Some(v) => if v <= max { Some(v as u32) } else { None },
        None => None,
    }
}

/// The weekday field: a single day (7 read as Sunday, 0) or a forward range `a-b`.
pub open spec fn weekday_field(t: Seq<char>) -> Option<WeekdaySpec> {
    let p = find_char(t, '-');
    if p < t.len() {
        let a = t.subrange(0, p);
        let b = t.subrange(p + 1, t.len() as int);
        match (number_field(a, 6), number_field(b, 7)) {
            (Some(x), Some(y)) => if x <= y { Some(WeekdaySpec::Range(x, y)) } else { None },
            _ => None,
        }
    } else {
        match number_field(t, 7) {
            Some(w) => Some(WeekdaySpec::Single(if w == 7 { 0 } else { w })),
            None => None,
        }
    }
}

/// An optional field: `*` for absent, else a number from 1 to `max`.
pub open spec fn optional_field(t: Seq<char>, max: int) -> Result<Option<u32>, ScheduleFormatError> {
    if is_star(t) {
        Ok(None)
    } else {
        match number_field(t, max) {
            Some(v) => if v >= 1 { Ok(Some(v)) } else { Err(ScheduleFormatError::InvalidField) },
            None => Err(ScheduleFormatError::InvalidField),
        }
    }
}

/// What reading the canonical text `s` gives.
pub open spec fn parse_canonical_spec(s: Seq<char>) -> Result<Schedule, ScheduleFormatError> {
    let f = tokens(s);
    if f.len() != 5 {
        Err(ScheduleFormatError::FieldCount)
    } else {
        match (number_field(f[0], 59), number_field(f[1], 23), optional_field(f[2], 31), optional_field(f[3], 12)) {
            (Some(minute), Some(hour), Ok(day), Ok(month)) => {
                if is_star(f[4]) {
                    match (day, month) {
                        (None, None) => Ok(Schedule::Daily { minute, hour }),
                        (Some(d), None) => Ok(Schedule::Monthly { minute, hour, day: d }),
                        (Some(d), Some(m)) => if valid_ymd(2024, m as int, d as int) {
                            Ok(Schedule::Yearly { minute, hour, day: d, month: m })
                        } else {
                            Err(ScheduleFormatError::InvalidField)
                        },
                        (None, Some(_)) => Err(ScheduleFormatError::UnsupportedPattern),
                    }
                } else {
                    match weekday_field(f[4]) {
                        Some(w) => if day is None && month is None {
                            Ok(Schedule::Weekly { minute, hour, days: w })
                        } else {
                            Err(ScheduleFormatError::UnsupportedPattern)
                        },
                        None => Err(ScheduleFormatError::InvalidField),
                    }
                }
            },
            _ => Err(ScheduleFormatError::InvalidField),
        }
    }
}

fn number_field_exec(t: &Vec<char>, max: u32) -> (r: Option<u32>)
    ensures
        r == number_field(t@, max as int),
        r matches Some(v) ==> v <= max,
{
    parse_unsigned(t, max)
}

fn optional_field_exec(t: &Vec<char>, max: u32) -> (r: Result<Option<u32>, ScheduleFormatError>)
    ensures
        r == optional_field(t@, max as int),
        r matches Ok(Some(v)) ==> 1 <= v <= max,
{
    if t.len() == 1 && t[0] == '*' {
        assert(t@ =~= seq!['*']);
        return Ok(None);
    }
    assert(!is_star(t@));
    match number_field_exec(t, max) {
        Some(v) => if v >= 1 { Ok(Some(v)) } else { Err(ScheduleFormatError::InvalidField) },
        None => Err(ScheduleFormatError::InvalidField),
    }
}

fn weekday_field_exec(t: &Vec<char>) -> (r: Option<WeekdaySpec>)
    ensures
        r == weekday_field(t@),
        r matches Some(w) ==> w.wf(),
{
    let p = position_of(t, '-');
    if p < t.len() {
        let a = slice_vec(t, 0, p);
        let b = slice_vec(t, p + 1, t.len());
        match (number_field_exec(&a, 6), number_field_exec(&b, 7)) {
            (Some(x), Some(y)) => if x <= y { Some(WeekdaySpec::Range(x, y)) } else { None },
            _ => None,
        }
    } else {
        match number_field_exec(t, 7) {
            Some(w) => Some(WeekdaySpec::Single(if w == 7 { 0 } else { w })),
            None => None,
        }
    }
}

impl Schedule {
    /// Reads a schedule from its canonical five-field text.
    pub fn parse_canonical(text: &str) -> (r: Result<Schedule, ScheduleFormatError>)
        ensures
            r == parse_canonical_spec(text@),
            r matches Ok(s) ==> s.wf(),
    {
        let cs = chars_of(text);
        let f = split_tokens(&cs);
        if f.len() != 5 {
            return Err(ScheduleFormatError::FieldCount);
        }
        let ghost g = tokens(text@);
        assert(f@[0]@ == g[0] && f@[1]@ == g[1] && f@[2]@ == g[2] && f@[3]@ == g[3] && f@[4]@ == g[4]);
        let minute = number_field_exec(&f[0], 59);
        let hour = number_field_exec(&f[1], 23);
        let day = optional_field_exec(&f[2], 31);
        let month = optional_field_exec(&f[3], 12);
        match (minute, hour, day, month) {
            (Some(minute), Some(hour), Ok(day), Ok(month)) => {
                if f[4].len() == 1 && f[4][0] == '*' {
                    assert(f@[4]@ =~= seq!['*']);
                    match (day, month) {
                        (None, None) => Ok(Schedule::Daily { minute, hour }),
                        (Some(d), None) => Ok(Schedule::Monthly { minute, hour, day: d }),
                        (Some(d), Some(m)) => if Date::from_ymd(2024, m, d).is_some() {
                            Ok(Schedule::Yearly { minute, hour, day: d, month: m })
                        } else {
                            Err(ScheduleFormatError::InvalidField)
                        },
                        (None, Some(_)) => Err(ScheduleFormatError::UnsupportedPattern),
                    }
                } else {
                    assert(!is_star(f@[4]@));
                    match weekday_field_exec(&f[4]) {
                        Some(w) => if day.is_none() && month.is_none() {
                            Ok(Schedule::Weekly { minute, hour, days: w })
                        } else {
                            Err(ScheduleFormatError::UnsupportedPattern)
                        },
                        None => Err(ScheduleFormatError::InvalidField),
                    }
                }
            },
            _ => Err(ScheduleFormatError::InvalidField),
        }
    }

    /// The canonical five-field text of the schedule.
    pub fn to_canonical(&self) -> (r: String)
        ensures
            r@ == canonical(*self),
    {
        let mut out: Vec<char> = Vec::new();
        match *self {
            Schedule::Daily { minute, hour } => {
                push_decimal(minute as u64, &mut out);
                out.push(' ');
                push_decimal(hour as u64, &mut out);
                out.push(' '); out.push('*'); out.push(' '); out.push('*'); out.push(' '); out.push('*');
            },
            Schedule::Weekly { minute, hour, days } => {
                push_decimal(minute as u64, &mut out);
                out.push(' ');
                push_decimal(hour as u64, &mut out);
                out.push(' '); out.push('*'); out.push(' '); out.push('*'); out.push(' ');
                match days {
                    WeekdaySpec::Single(d) => push_decimal(d as u64, &mut out),
                    WeekdaySpec::Range(a, b) => {
                        push_decimal(a as u64, &mut out);
                        out.push('-');
                        push_decimal(b as u64, &mut out);
                    },
                }
            },
            Schedule::Monthly { minute, hour, day } => {
                push_decimal(minute as u64, &mut out);
                out.push(' ');
                push_decimal(hour as u64, &mut out);
                out.push(' ');
                push_decimal(day as u64, &mut out);
                out.push(' '); out.push('*'); out.push(' '); out.push('*');
            },
            Schedule::Yearly { minute, hour, day, month } => {
                push_decimal(minute as u64, &mut out);
                out.push(' ');
                push_decimal(hour as u64, &mut out);
                out.push(' ');
                push_decimal(day as u64, &mut out);
                out.push(' ');
                push_decimal(month as u64, &mut out);
                out.push(' '); out.push('*');
            },
        }
        proof {
            match *self {
                Schedule::Weekly { days, .. } => {
                    assert(out@ =~= canonical(*self));
                },
                _ => {
                    assert(out@ =~= canonical(*self));
                },
            }
        }
        string_of(&out)
    }
}

/// The digits of a number: a non-empty word with no space, dash or star, that reads back
/// as the number.
proof fn lemma_number_word(n: nat)
    ensures
        decimal(n).len() > 0,
        no_space(decimal(n)),
        forall|i: int| 0 <= i < decimal(n).len() ==> #[trigger] decimal(n)[i] != '-',
        !is_star(decimal(n)),
        unsigned_value(decimal(n)) == Some(n as int),
{
    lemma_decimal_round_trip(n);
    let x = decimal(n);
    assert forall|i: int| 0 <= i < x.len() implies !crate::text::is_space(#[trigger] x[i]) && x[i] != '-' by {
        assert(is_digit(x[i]));
    }
    assert(is_digit(x[0]));
}

/// The five words of the canonical text.
pub open spec fn canonical_words(s: Schedule) -> Seq<Seq<char>> {
    let m = decimal(s.minute_of() as nat);
    let h = decimal(s.hour_of() as nat);
    let star = seq!['*'];
    match s {
        Schedule::Daily { .. } => seq![m, h, star, star, star],
        Schedule::Weekly { days, .. } => seq![m, h, star, star, weekday_text(days)],
        Schedule::Monthly { day, .. } => seq![m, h, decimal(day as nat), star, star],
        Schedule::Yearly { day, month, .. } => seq![m, h, decimal(day as nat), decimal(month as nat), star],
    }
}

proof fn lemma_weekday_text(days: WeekdaySpec)
    requires
        days.wf(),
    ensures
        weekday_text(days).len() > 0,
        no_space(weekday_text(days)),
        !is_star(weekday_text(days)),
        weekday_field(weekday_text(days)) == Some(days),
{
    match days {
        WeekdaySpec::Single(d) => {
            lemma_number_word(d as nat);
            lemma_find_char_absent(decimal(d as nat), '-');
        },
        WeekdaySpec::Range(a, b) => {
            lemma_number_word(a as nat);
            lemma_number_word(b as nat);
            let t = weekday_text(days);
            let da = decimal(a as nat);
            let db = decimal(b as nat);
            assert forall|i: int| 0 <= i < t.len() implies !crate::text::is_space(#[trigger] t[i]) by {
                if i < da.len() {
                    assert(t[i] == da[i]);
                } else if i > da.len() {
                    assert(t[i] == db[i - da.len() - 1]);
                }
            }
            lemma_find_char_after(da, '-', db);
            assert(t.subrange(0, da.len() as int) =~= da);
            assert(t.subrange(da.len() as int + 1, t.len() as int) =~= db);
            assert(t[0] == da[0]);
        },
    }
}

proof fn lemma_canonical_tokens(s: Schedule)
    requires
        s.wf(),
    ensures
        tokens(canonical(s)) == canonical_words(s),
{
    let w = canonical_words(s);
    let sp = seq![' '];
    lemma_number_word(s.minute_of() as nat);
    lemma_number_word(s.hour_of() as nat);
    assert(no_space(seq!['*']));
    match s {
        Schedule::Weekly { days, .. } => lemma_weekday_text(days),
        Schedule::Monthly { day, .. } => lemma_number_word(day as nat),
        Schedule::Yearly { day, month, .. } => {
            lemma_number_word(day as nat);
            lemma_number_word(month as nat);
        },
        _ => {},
    }
    assert(canonical(s) =~= w[0] + sp + w[1] + sp + w[2] + sp + w[3] + sp + w[4]);
    lemma_tokens_join5(w);
}

/// Reading back the canonical text of a well-formed schedule gives the same schedule.
pub proof fn lemma_canonical_round_trip(s: Schedule)
    requires
        s.wf(),
    ensures
        parse_canonical_spec(canonical(s)) == Ok::<Schedule, ScheduleFormatError>(s),
{
    lemma_canonical_tokens(s);
    lemma_number_word(s.minute_of() as nat);
    lemma_number_word(s.hour_of() as nat);
    match s {
        Schedule::Weekly { days, .. } => lemma_weekday_text(days),
        Schedule::Monthly { day, .. } => lemma_number_word(day as nat),
        Schedule::Yearly { day, month, .. } => {
            lemma_number_word(day as nat);
            lemma_number_word(month as nat);
        },
        _ => {},
    }
}

/// Among any eight consecutive days from the reference day, one holds an occurrence.
proof fn lemma_week_has_hit(days: WeekdaySpec, tod: int, now_secs: int, n0: int, forward: bool)
    requires
        days.wf(),
        0 <= tod < 86400,
        n0 * 86400 <= now_secs < n0 * 86400 + 86400,
    ensures
        exists|j: int| 0 <= j < 8 && weekly_hit(days, tod, now_secs, #[trigger] step(n0, j, forward), forward),
{
    let w0 = weekday_of_number(n0);
    let ts = days.first();
    let j0 = if forward { (ts - w0 + 7) % 7 } else { (w0 - ts + 7) % 7 };
    assert(0 <= j0 < 7);
    assert(weekday_of_number(step(n0, j0, forward)) == ts);
    assert(weekday_of_number(step(n0, j0 + 7, forward)) == ts);
    assert(days.matches(ts));
    if j0 > 0 {
        assert(weekly_hit(days, tod, now_secs, step(n0, j0, forward), forward));
    } else {
        assert(weekly_hit(days, tod, now_secs, step(n0, j0 + 7, forward), forward));
    }
}

} // verus!
