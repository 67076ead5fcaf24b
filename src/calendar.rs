use vstd::prelude::*;

verus! {

/// Smallest year a `Date` may carry.
pub const MIN_YEAR: i32 = 1;

/// Largest year a `Date` may carry (four-digit years).
pub const MAX_YEAR: i32 = 9999;

pub open spec fn is_leap(y: int) -> bool {
    (y % 4 == 0 && y % 100 != 0) || y % 400 == 0
}

pub open spec fn days_in_month(y: int, m: int) -> int {
    if m == 2 {
        if is_leap(y) { 29 } else { 28 }
    } else if m == 4 || m == 6 || m == 9 || m == 11 {
        30
    } else {
        31
    }
}

/// One for a leap year, zero otherwise.
pub open spec fn leap_days(y: int) -> int {
    if is_leap(y) { 1 } else { 0 }
}

/// Days from 0001-01-01 to the first day of year `y`.
pub open spec fn days_before_year(y: int) -> int {
    let n = y - 1;
    365 * n + n / 4 - n / 100 + n / 400
}

/// Days from the first of January of year `y` to the first day of month `m`.
pub open spec fn days_before_month(y: int, m: int) -> int
    decreases m,
{
    if m <= 1 {
        0
    } else {
        days_before_month(y, m - 1) + days_in_month(y, m - 1)
    }
}

/// A calendar date of the proleptic Gregorian calendar.
#[derive(Clone, Copy, Debug, PartialEq, Eq, Structural)]
pub struct Date {
    pub year: i32,
    pub month: u32,
    pub day: u32,
}

/// A local date and time of day, with no time zone attached.
#[derive(Clone, Copy, Debug, PartialEq, Eq, Structural)]
pub struct LocalDateTime {
    pub date: Date,
    pub hour: u32,
    pub minute: u32,
    pub second: u32,
}

pub open spec fn valid_ymd(y: int, m: int, d: int) -> bool {
    MIN_YEAR <= y <= MAX_YEAR && 1 <= m <= 12 && 1 <= d <= days_in_month(y, m)
}

/// Number of days since 0001-01-01 (which is day 0, a Monday).
pub open spec fn day_number(d: Date) -> int {
    days_before_year(d.year as int) + days_before_month(d.year as int, d.month as int) + d.day - 1
}

/// Day of the week of a day number: 0 is Sunday, 6 is Saturday.
pub open spec fn weekday_of_number(n: int) -> int {
    (n + 1) % 7
}

pub open spec fn weekday_of(d: Date) -> int {
    weekday_of_number(day_number(d))
}

/// Seconds within a day for the given time of day.
pub open spec fn time_of_day(h: int, m: int, s: int) -> int {
    h * 3600 + m * 60 + s
}

/// Seconds since 0001-01-01 00:00:00 of a local date and time.
pub open spec fn secs(t: LocalDateTime) -> int {
    day_number(t.date) * 86400 + time_of_day(t.hour as int, t.minute as int, t.second as int)
}

pub open spec fn is_last_day(d: Date) -> bool {
    d.month == 12 && d.day == 31
}

/// The day after `d`.
pub open spec fn next_day_spec(d: Date) -> Date {
    if d.day < days_in_month(d.year as int, d.month as int) {
        Date { day: (d.day + 1) as u32, ..d }
    } else if d.month < 12 {
        Date { month: (d.month + 1) as u32, day: 1, ..d }
    } else {
        Date { year: (d.year + 1) as i32, month: 1, day: 1 }
    }
}

/// The day before `d`.
pub open spec fn prev_day_spec(d: Date) -> Date {
    if d.day > 1 {
        Date { day: (d.day - 1) as u32, ..d }
    } else if d.month > 1 {
        Date {
            month: (d.month - 1) as u32,
            day: days_in_month(d.year as int, d.month - 1) as u32,
            ..d
        }
    } else {
        Date { year: (d.year - 1) as i32, month: 12, day: 31 }
    }
}

impl Date {
    pub open spec fn valid(self) -> bool {
        valid_ymd(self.year as int, self.month as int, self.day as int)
    }

    /// A date is interior when both of its neighbours are valid dates too.
    pub open spec fn interior(self) -> bool {
        self.valid() && MIN_YEAR < self.year < MAX_YEAR
    }
}

/// A time of day.
#[derive(Clone, Copy, Debug, PartialEq, Eq, Structural)]
pub struct TimeOfDay {
    pub hour: u32,
    pub minute: u32,
    pub second: u32,
}

impl TimeOfDay {
    pub open spec fn valid(self) -> bool {
        self.hour < 24 && self.minute < 60 && self.second < 60
    }
}

impl LocalDateTime {
    pub open spec fn valid(self) -> bool {
        self.date.valid() && self.hour < 24 && self.minute < 60 && self.second < 60
    }
}

pub proof fn lemma_days_before_month_bound(y: int, m: int)
    requires
        1 <= m <= 13,
    ensures
        0 <= days_before_month(y, m),
        m == 13 ==> days_before_month(y, m) == 365 + leap_days(y),
        m <= 12 ==> days_before_month(y, m) + days_in_month(y, m) <= 365 + leap_days(y),
{
    reveal_with_fuel(days_before_month, 13);
}

proof fn lemma_div_step(n: int, k: int)
    requires
        n >= 0,
        k > 0,
    ensures
        (n + 1) / k - n / k == (if (n + 1) % k == 0 { 1int } else { 0int }),
{
    vstd::arithmetic::div_mod::lemma_fundamental_div_mod(n, k);
    vstd::arithmetic::div_mod::lemma_fundamental_div_mod(n + 1, k);
    let q0 = n / k;
    let q1 = (n + 1) / k;
    let r0 = n % k;
    let r1 = (n + 1) % k;
    assert(0 <= r0 < k && 0 <= r1 < k);
    assert(k * (q1 - q0) == r0 + 1 - r1) by (nonlinear_arith)
        requires
            n == k * q0 + r0,
            n + 1 == k * q1 + r1,
    ;
    if q1 - q0 == 1 {
        assert(k * (q1 - q0) == k) by (nonlinear_arith)
            requires
                q1 - q0 == 1,
        ;
    } else if q1 - q0 == 0 {
        assert(k * (q1 - q0) == 0) by (nonlinear_arith)
            requires
                q1 - q0 == 0,
        ;
    } else if q1 - q0 >= 2 {
        assert(k * (q1 - q0) >= 2 * k) by (nonlinear_arith)
            requires
                q1 - q0 >= 2,
                k > 0,
        ;
    } else if q1 - q0 <= -1 {
        assert(k * (q1 - q0) <= -k) by (nonlinear_arith)
            requires
                q1 - q0 <= -1,
                k > 0,
        ;
    }
}

/// Day count of a year step: a year adds 365 days, one more when it is a leap year.
pub proof fn lemma_days_before_year_step(y: int)
    requires
        y >= 1,
    ensures
        days_before_year(y + 1) == days_before_year(y) + 365 + leap_days(y),
{
    let n = y - 1;
    lemma_div_step(n, 4);
    lemma_div_step(n, 100);
    lemma_div_step(n, 400);
}

/// The day after a valid date is valid and numbered one higher.
pub proof fn lemma_next_day(d: Date)
    requires
        d.valid(),
        !(d.year == MAX_YEAR && is_last_day(d)),
    ensures
        next_day_spec(d).valid(),
        day_number(next_day_spec(d)) == day_number(d) + 1,
{
    lemma_days_before_month_bound(d.year as int, 13);
    if d.day >= days_in_month(d.year as int, d.month as int) && d.month == 12 {
        lemma_days_before_year_step(d.year as int);
        reveal_with_fuel(days_before_month, 13);
    }
}

/// The day before a valid date is valid and numbered one lower.
pub proof fn lemma_prev_day(d: Date)
    requires
        d.valid(),
        !(d.year == MIN_YEAR && d.month == 1 && d.day == 1),
    ensures
        prev_day_spec(d).valid(),
        day_number(prev_day_spec(d)) == day_number(d) - 1,
{
    if d.day == 1 && d.month == 1 {
        lemma_days_before_year_step(d.year - 1);
        reveal_with_fuel(days_before_month, 13);
    }
}

pub proof fn lemma_day_number_bounds(d: Date)
    requires
        d.valid(),
    ensures
        0 <= day_number(d) <= 4000000,
{
    let n = d.year - 1;
    lemma_days_before_month_bound(d.year as int, d.month as int);
    assert(0 <= n / 400 <= n / 100 <= n / 4 <= n);
}

/// Later years start on later days.
pub proof fn lemma_days_before_year_mono(a: int, b: int)
    requires
        1 <= a <= b,
    ensures
        days_before_year(a) + 365 * (b - a) <= days_before_year(b),
    decreases b - a,
{
    if a < b {
        lemma_days_before_year_mono(a, b - 1);
        lemma_days_before_year_step(b - 1);
    }
}

/// A valid date is numbered within its own year.
pub proof fn lemma_day_number_in_year(d: Date)
    requires
        d.valid(),
    ensures
        days_before_year(d.year as int) <= day_number(d) < days_before_year(d.year + 1),
{
    lemma_days_before_month_bound(d.year as int, d.month as int);
    lemma_days_before_year_step(d.year as int);
}

/// An interior date lies more than a week away from both ends of the supported range.
pub proof fn lemma_interior_margin(d: Date)
    requires
        d.interior(),
    ensures
        day_number(d) >= 365,
        forall|e: Date| e.valid() && e.year == MAX_YEAR ==> day_number(e) >= day_number(d) + 1,
        forall|e: Date| e.valid() && e.year == MIN_YEAR ==> day_number(e) + 1 <= day_number(d),
        day_number(d) + 365 <= day_number(Date { year: MAX_YEAR, month: 12, day: 31 }),
{
    lemma_day_number_in_year(d);
    lemma_days_before_year_mono(2, d.year as int);
    lemma_days_before_year_mono(d.year + 1, MAX_YEAR as int);
    lemma_days_before_year_step(MAX_YEAR as int);
    lemma_days_before_month_bound(MAX_YEAR as int, 12);
    reveal_with_fuel(days_before_month, 13);
    assert forall|e: Date| e.valid() && e.year == MAX_YEAR implies day_number(e) >= day_number(d) + 1 by {
        lemma_day_number_in_year(e);
    }
    assert forall|e: Date| e.valid() && e.year == MIN_YEAR implies day_number(e) + 1 <= day_number(d) by {
        lemma_day_number_in_year(e);
        lemma_days_before_year_step(1);
    }
}

proof fn lemma_days_before_month_mono(y: int, m1: int, m2: int)
    requires
        1 <= m1 < m2 <= 13,
    ensures
        days_before_month(y, m1) + days_in_month(y, m1) <= days_before_month(y, m2),
    decreases m2 - m1,
{
    if m1 + 1 < m2 {
        lemma_days_before_month_mono(y, m1, m2 - 1);
    }
}

/// Lexicographic order of the months of two valid dates is the order of their day numbers.
pub proof fn lemma_month_order(a: Date, b: Date)
    requires
        a.valid(),
        b.valid(),
        a.year < b.year || (a.year == b.year && a.month < b.month),
    ensures
        day_number(a) < day_number(b),
{
    if a.year < b.year {
        lemma_day_number_in_year(a);
        lemma_day_number_in_year(b);
        lemma_days_before_year_mono(a.year + 1, b.year as int);
    } else {
        lemma_days_before_month_mono(a.year as int, a.month as int, b.month as int);
    }
}

pub fn is_leap_year(y: i32) -> (r: bool)
    requires
        MIN_YEAR <= y,
    ensures
        r == is_leap(y as int),
{
    let u = y as u32;
    (u % 4 == 0 && u % 100 != 0) || u % 400 == 0
}

pub fn month_length(y: i32, m: u32) -> (r: u32)
    requires
        MIN_YEAR <= y,
    ensures
        r == days_in_month(y as int, m as int),
{
    if m == 2 {
        if is_leap_year(y) { 29 } else { 28 }
    } else if m == 4 || m == 6 || m == 9 || m == 11 {
        30
    } else {
        31
    }
}

impl Date {
    /// The date with the given fields, when it exists.
    pub fn from_ymd(year: i32, month: u32, day: u32) -> (r: Option<Date>)
        ensures
            r is Some <==> valid_ymd(year as int, month as int, day as int),
            r matches Some(d) ==> d == (Date { year, month, day }),
    {
        if MIN_YEAR <= year && year <= MAX_YEAR && 1 <= month && month <= 12 && 1 <= day
            && day <= month_length(year, month) {
            Some(Date { year, month, day })
        } else {
            None
        }
    }

    pub fn next_day(&self) -> (r: Date)
        requires
            self.valid(),
            !(self.year == MAX_YEAR && is_last_day(*self)),
        ensures
            r == next_day_spec(*self),
            r.valid(),
            day_number(r) == day_number(*self) + 1,
    {
        proof {
            lemma_next_day(*self);
        }
        if self.day < month_length(self.year, self.month) {
            Date { day: self.day + 1, ..*self }
        } else if self.month < 12 {
            Date { month: self.month + 1, day: 1, ..*self }
        } else {
            Date { year: self.year + 1, month: 1, day: 1 }
        }
    }

    pub fn prev_day(&self) -> (r: Date)
        requires
            self.valid(),
            !(self.year == MIN_YEAR && self.month == 1 && self.day == 1),
        ensures
            r == prev_day_spec(*self),
            r.valid(),
            day_number(r) == day_number(*self) - 1,
    {
        proof {
            lemma_prev_day(*self);
        }
        if self.day > 1 {
            Date { day: self.day - 1, ..*self }
        } else if self.month > 1 {
            Date { month: self.month - 1, day: month_length(self.year, self.month - 1), ..*self }
        } else {
            Date { year: self.year - 1, month: 12, day: 31 }
        }
    }

    /// Day number of the date, as in `day_number`.
    pub fn number(&self) -> (r: i64)
        requires
            self.valid(),
        ensures
            r == day_number(*self),
            0 <= r <= 4000000,
    {
        proof {
            lemma_day_number_bounds(*self);
        }
        let n: u64 = (self.year - 1) as u64;
        let by: u64 = 365 * n + n / 4 - n / 100 + n / 400;
        let mut bm: u64 = 0;
        let mut m: u32 = 1;
        while m < self.month
            invariant
                1 <= m <= self.month <= 12,
                self.valid(),
                bm == days_before_month(self.year as int, m as int),
                bm <= 366,
            decreases self.month - m,
        {
            proof {
                lemma_days_before_month_bound(self.year as int, m as int);
            }
            bm = bm + month_length(self.year, m) as u64;
            m = m + 1;
        }
        (by + bm) as i64 + self.day as i64 - 1
    }

    /// Day of the week: 0 is Sunday, 6 is Saturday.
    pub fn weekday(&self) -> (r: u32)
        requires
            self.valid(),
        ensures
            r == weekday_of(*self),
            r < 7,
    {
        let n = self.number();
        ((n + 1) % 7) as u32
    }

    /// The last day of the month of this date.
    pub fn last_day_of_month(&self) -> (r: Date)
        requires
            self.valid(),
        ensures
            r.valid(),
            r.year == self.year && r.month == self.month,
            r.day == days_in_month(self.year as int, self.month as int),
    {
        Date { day: month_length(self.year, self.month), ..*self }
    }
}

impl LocalDateTime {
    /// Seconds since 0001-01-01 00:00:00, as in `secs`.
    pub fn seconds(&self) -> (r: i64)
        requires
            self.valid(),
        ensures
            r == secs(*self),
    {
        let n = self.date.number();
        n * 86400 + (self.hour as i64) * 3600 + (self.minute as i64) * 60 + self.second as i64
    }
}

} // verus!
