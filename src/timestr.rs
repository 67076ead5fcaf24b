use chrono::{Datelike, Timelike};
use vstd::prelude::*;

use crate::calendar::{
    day_number, days_in_month, valid_ymd, weekday_of, Date, LocalDateTime, TimeOfDay,
};
use crate::text::{
    chars_of, decimal, find_char, position_of, push_decimal, push_str, quote, quoted, same_chars,
    slice_vec, split_tokens, string_of, tokens, trim_chars, trimmed, parse_unsigned,
    unsigned_value,
};

verus! {

/// Why a date/time phrase was refused.
#[derive(Clone, Copy, Debug, PartialEq, Eq, Structural)]
pub enum TimeParseError {
    /// More than two whitespace-separated parts.
    TooManyParts,
    /// No reading of the phrase as a date, a time, or a date and a time.
    CannotParse,
    /// The reference date lies at the edge of the supported years.
    OutOfRange,
    /// The local time named does not exist, or the clock gave no usable reading.
    NoSuchLocalTime,
}

impl TimeParseError {
    /// The opening words of the message for this error.
    pub open spec fn lead(self) -> Seq<char> {
        match self {
            TimeParseError::TooManyParts => "There are too many parts in timestr "@,
            TimeParseError::CannotParse => "Couldn't parse as a valid date/time: "@,
            TimeParseError::OutOfRange => "The current date is outside the supported years for "@,
            TimeParseError::NoSuchLocalTime => "No such local time: "@,
        }
    }

    /// A message naming the phrase that was refused.
    pub fn describe(&self, input: &str) -> (r: String)
        ensures
            r@ == quoted(self.lead(), input@),
    {
        let lead = match self {
            TimeParseError::TooManyParts => "There are too many parts in timestr ",
            TimeParseError::CannotParse => "Couldn't parse as a valid date/time: ",
            TimeParseError::OutOfRange => "The current date is outside the supported years for ",
            TimeParseError::NoSuchLocalTime => "No such local time: ",
        };
        quote(lead, input)
    }
}

/// Names what `str::to_lowercase` makes of a string.
pub uninterp spec fn lower_of(s: Seq<char>) -> Seq<char>;

/// Relies on `str::to_lowercase`: the result depends on the characters alone.
#[verifier::external_body]
fn lowercase(s: &str) -> (r: String)
    ensures
        r@ == lower_of(s@),
{
    s.to_lowercase()
}

/// The characters of `t`, lowercased.
pub fn lower_chars(t: &Vec<char>) -> (r: Vec<char>)
    ensures
        r@ == lower_of(t@),
{
    let s = string_of(t);
    let l = lowercase(s.as_str());
    chars_of(l.as_str())
}

/// Names what chrono's `NaiveDate::parse_from_str` reads from a text in a format: year,
/// month and day.
pub uninterp spec fn parsed_date(s: Seq<char>, format: Seq<char>) -> Option<(i32, u32, u32)>;

/// Relies on chrono's `NaiveDate::parse_from_str`: the date read from `s` in `format`, as
/// year, month and day, which name a real date.
#[verifier::external_body]
fn parse_date_with(s: &str, format: &str) -> (r: Option<(i32, u32, u32)>)
    ensures
        r == parsed_date(s@, format@),
        r matches Some((y, m, d)) ==> 1 <= m <= 12 && 1 <= d <= days_in_month(y as int, m as int),
{
    chrono::NaiveDate::parse_from_str(s, format).ok().map(|d| (d.year(), d.month(), d.day()))
}

/// Names what chrono's `NaiveTime::parse_from_str` reads from a text in a format: hour,
/// minute and second.
pub uninterp spec fn parsed_time(s: Seq<char>, format: Seq<char>) -> Option<(u32, u32, u32)>;

/// Relies on chrono's `NaiveTime::parse_from_str`: the time read from `s` in `format`, as
/// hour, minute and second, each within its range.
#[verifier::external_body]
fn parse_time_with(s: &str, format: &str) -> (r: Option<(u32, u32, u32)>)
    ensures
        r == parsed_time(s@, format@),
        r matches Some((h, m, sec)) ==> h < 24 && m < 60 && sec < 60,
{
    chrono::NaiveTime::parse_from_str(s, format).ok().map(|t| (t.hour(), t.minute(), t.second()))
}

pub open spec fn as_time(p: Option<(u32, u32, u32)>) -> Option<TimeOfDay> {
    match p {
        Some((h, m, sec)) => Some(TimeOfDay { hour: h, minute: m, second: sec }),
        None => None,
    }
}

/// `Some(true)` for `pm`, `Some(false)` for `am`, in either case, as the two characters of
/// `s` from `i`.
pub open spec fn meridiem(s: Seq<char>, i: int) -> Option<bool> {
    if i + 2 != s.len() || i < 0 {
        None
    } else if (s[i + 1] == 'm' || s[i + 1] == 'M') && (s[i] == 'a' || s[i] == 'A') {
        Some(false)
    } else if (s[i + 1] == 'm' || s[i + 1] == 'M') && (s[i] == 'p' || s[i] == 'P') {
        Some(true)
    } else {
        None
    }
}

/// The text `H:00am` or `H:00pm` that an hour given alone stands for.
pub open spec fn hour_with_minutes(h: nat, pm: bool) -> Seq<char> {
    decimal(h) + ":00"@ + (if pm { "pm"@ } else { "am"@ })
}

/// An hour alone followed by `am` or `pm` in either case, the hour read as `str::parse`
/// reads a `u8`, then read again as `H:00am` or `H:00pm`.
pub open spec fn bare_hour_time(s: Seq<char>) -> Option<TimeOfDay> {
    if s.len() < 2 {
        None
    } else {
        match (meridiem(s, s.len() - 2), unsigned_value(s.subrange(0, s.len() - 2))) {
            (Some(pm), Some(h)) => if h <= 255 {
                as_time(parsed_time(hour_with_minutes(h as nat, pm), "%I:%M%p"@))
            } else {
                None
            },
            _ => None,
        }
    }
}

/// What a time-part text denotes, by the first of `%H:%M`, `%H:%M:%S`, `%I:%M%p` that reads
/// it, else by an hour given alone.
pub open spec fn time_part(s: Seq<char>) -> Option<TimeOfDay> {
    if parsed_time(s, "%H:%M"@) is Some {
        as_time(parsed_time(s, "%H:%M"@))
    } else if parsed_time(s, "%H:%M:%S"@) is Some {
        as_time(parsed_time(s, "%H:%M:%S"@))
    } else if parsed_time(s, "%I:%M%p"@) is Some {
        as_time(parsed_time(s, "%I:%M%p"@))
    } else {
        bare_hour_time(s)
    }
}

fn meridiem_exec(s: &Vec<char>, i: usize) -> (r: Option<bool>)
    requires
        i <= s@.len(),
    ensures
        r == meridiem(s@, i as int),
{
    if s.len() - i != 2 {
        return None;
    }
    let a = s[i];
    let m = s[i + 1];
    if (m == 'm' || m == 'M') && (a == 'a' || a == 'A') {
        Some(false)
    } else if (m == 'm' || m == 'M') && (a == 'p' || a == 'P') {
        Some(true)
    } else {
        None
    }
}

fn read_time(text: &str, format: &str) -> (r: Option<TimeOfDay>)
    ensures
        r == as_time(parsed_time(text@, format@)),
        r matches Some(t) ==> t.valid(),
{
    match parse_time_with(text, format) {
        Some((h, m, sec)) => Some(TimeOfDay { hour: h, minute: m, second: sec }),
        None => None,
    }
}

fn bare_hour_time_exec(s: &Vec<char>) -> (r: Option<TimeOfDay>)
    ensures
        r == bare_hour_time(s@),
        r matches Some(t) ==> t.valid(),
{
    let len = s.len();
    if len < 2 {
        return None;
    }
    let head = slice_vec(s, 0, len - 2);
    let pm = match meridiem_exec(s, len - 2) {
        Some(pm) => pm,
        None => return None,
    };
    match parse_unsigned(&head, 255) {
        Some(h) => {
            let mut text: Vec<char> = Vec::new();
            push_decimal(h as u64, &mut text);
            push_str(&mut text, ":00");
            if pm {
                push_str(&mut text, "pm");
            } else {
                push_str(&mut text, "am");
            }
            assert(text@ =~= hour_with_minutes(h as nat, pm));
            let t = string_of(&text);
            read_time(t.as_str(), "%I:%M%p")
        },
        None => {
            assert(unsigned_value(head@) matches Some(v) ==> v > 255);
            None
        },
    }
}

/// Reads a time-part text: `H:M`, `H:M:S` (24-hour), `H:Mam`/`H:Mpm`, or `Ham`/`Hpm`.
pub fn parse_time_portion(s: &Vec<char>) -> (r: Option<TimeOfDay>)
    ensures
        r == time_part(s@),
        r matches Some(t) ==> t.valid(),
{
    let text = string_of(s);
    if let Some(t) = read_time(text.as_str(), "%H:%M") {
        return Some(t);
    }
    if let Some(t) = read_time(text.as_str(), "%H:%M:%S") {
        return Some(t);
    }
    if let Some(t) = read_time(text.as_str(), "%I:%M%p") {
        return Some(t);
    }
    bare_hour_time_exec(s)
}

/// The first of the explicit formats `%Y/%m/%d`, `%Y-%m-%d`, `%m/%d/%Y`, `%m-%d-%Y` that
/// reads `s`.
pub open spec fn explicit_parse(s: Seq<char>) -> Option<(i32, u32, u32)> {
    if parsed_date(s, "%Y/%m/%d"@) is Some {
        parsed_date(s, "%Y/%m/%d"@)
    } else if parsed_date(s, "%Y-%m-%d"@) is Some {
        parsed_date(s, "%Y-%m-%d"@)
    } else if parsed_date(s, "%m/%d/%Y"@) is Some {
        parsed_date(s, "%m/%d/%Y"@)
    } else {
        parsed_date(s, "%m-%d-%Y"@)
    }
}

/// The date of a year, month and day, when it is a valid date of the supported years.
pub open spec fn in_years(p: (i32, u32, u32)) -> Option<Date> {
    if valid_ymd(p.0 as int, p.1 as int, p.2 as int) {
        Some(Date { year: p.0, month: p.1, day: p.2 })
    } else {
        None
    }
}

/// The shorthand `M/D` in the given year, each part read as `str::parse` reads a `u32`.
pub open spec fn month_day_in(s: Seq<char>, year: int) -> Option<Date> {
    let p = find_char(s, '/');
    if p >= s.len() {
        None
    } else {
        let a = s.subrange(0, p);
        let b = s.subrange(p + 1, s.len() as int);
        if find_char(b, '/') < b.len() {
            None
        } else {
            match (unsigned_value(a), unsigned_value(b)) {
                (Some(m), Some(d)) => if m <= u32::MAX && d <= u32::MAX && valid_ymd(year, m, d) {
                    Some(Date { year: year as i32, month: m as u32, day: d as u32 })
                } else {
                    None
                },
                _ => None,
            }
        }
    }
}

/// The date `k` days after `d`.
pub open spec fn days_after(d: Date, k: nat) -> Date
    decreases k,
{
    if k == 0 {
        d
    } else {
        crate::calendar::next_day_spec(days_after(d, (k - 1) as nat))
    }
}

/// Days from weekday `w` to the next weekday `t` strictly after it: 1 to 7.
pub open spec fn weekday_gap(w: int, t: int) -> int {
    let k = (t - w + 7) % 7;
    if k == 0 { 7 } else { k }
}

/// The weekday (0 is Sunday) that a lowercase day name denotes.
pub open spec fn day_name(l: Seq<char>) -> Option<int> {
    if l == "monday"@ {
        Some(1)
    } else if l == "tuesday"@ {
        Some(2)
    } else if l == "wednesday"@ {
        Some(3)
    } else if l == "thursday"@ {
        Some(4)
    } else if l == "friday"@ {
        Some(5)
    } else if l == "saturday"@ {
        Some(6)
    } else if l == "sunday"@ || l == "eow"@ || l == "week"@ {
        Some(0)
    } else {
        None
    }
}

/// The date a lowercase keyword denotes, seen from `today`.
pub open spec fn keyword_date(l: Seq<char>, today: Date) -> Option<Date> {
    if l == "today"@ || l == "eod"@ {
        Some(today)
    } else if l == "yesterday"@ {
        Some(crate::calendar::prev_day_spec(today))
    } else if l == "tomorrow"@ {
        Some(crate::calendar::next_day_spec(today))
    } else if day_name(l) is Some {
        Some(days_after(today, weekday_gap(weekday_of(today), day_name(l)->Some_0) as nat))
    } else if l == "year"@ || l == "eoy"@ {
        Some(Date { year: today.year, month: 12, day: 31 })
    } else if l == "month"@ || l == "eom"@ {
        Some(Date { day: days_in_month(today.year as int, today.month as int) as u32, ..today })
    } else {
        None
    }
}

/// What a date-part text denotes, seen from `today`: a keyword, an explicit date, or the
/// `M/D` shorthand in the current year.
pub open spec fn date_part(s: Seq<char>, today: Date) -> Option<Date> {
    match keyword_date(lower_of(s), today) {
        Some(d) => Some(d),
        None => match explicit_parse(s) {
            Some(p) => in_years(p),
            None => month_day_in(s, today.year as int),
        },
    }
}

fn explicit_parse_exec(s: &Vec<char>) -> (r: Option<(i32, u32, u32)>)
    ensures
        r == explicit_parse(s@),
{
    let text = string_of(s);
    if let Some(p) = parse_date_with(text.as_str(), "%Y/%m/%d") {
        return Some(p);
    }
    if let Some(p) = parse_date_with(text.as_str(), "%Y-%m-%d") {
        return Some(p);
    }
    if let Some(p) = parse_date_with(text.as_str(), "%m/%d/%Y") {
        return Some(p);
    }
    parse_date_with(text.as_str(), "%m-%d-%Y")
}

fn month_day_exec(s: &Vec<char>, year: i32) -> (r: Option<Date>)
    ensures
        r == month_day_in(s@, year as int),
        r matches Some(d) ==> d.valid(),
{
    let p = position_of(s, '/');
    if p >= s.len() {
        return None;
    }
    let a = slice_vec(s, 0, p);
    let b = slice_vec(s, p + 1, s.len());
    if position_of(&b, '/') < b.len() {
        return None;
    }
    match (parse_unsigned(&a, u32::MAX), parse_unsigned(&b, u32::MAX)) {
        (Some(m), Some(d)) => Date::from_ymd(year, m, d),
        (x, y) => {
            assert(unsigned_value(a@) matches Some(v) ==> v > u32::MAX || x is Some);
            None
        },
    }
}

/// The date `k` days after `today`, for `k` up to a week.
fn advance(today: &Date, k: u32) -> (r: Date)
    requires
        today.interior(),
        k <= 7,
    ensures
        r == days_after(*today, k as nat),
        r.valid(),
        day_number(r) == day_number(*today) + k,
{
    let mut d = *today;
    let mut i: u32 = 0;
    while i < k
        invariant
            i <= k <= 7,
            today.interior(),
            d == days_after(*today, i as nat),
            d.valid(),
            day_number(d) == day_number(*today) + i,
        decreases k - i,
    {
        proof {
            crate::calendar::lemma_interior_margin(*today);
            if d.year == crate::calendar::MAX_YEAR && crate::calendar::is_last_day(d) {
                assert(day_number(d) == day_number(Date { year: crate::calendar::MAX_YEAR, month: 12, day: 31 }));
            }
        }
        d = d.next_day();
        i = i + 1;
    }
    d
}

/// Looks up a lowercase weekday name (or `eow`, `week`).
pub fn day_name_exec(l: &Vec<char>) -> (r: Option<u32>)
    ensures
        r matches Some(w) ==> day_name(l@) == Some(w as int) && w < 7,
        r is None ==> day_name(l@) is None,
{
    if same_chars(l, "monday") {
        Some(1)
    } else if same_chars(l, "tuesday") {
        Some(2)
    } else if same_chars(l, "wednesday") {
        Some(3)
    } else if same_chars(l, "thursday") {
        Some(4)
    } else if same_chars(l, "friday") {
        Some(5)
    } else if same_chars(l, "saturday") {
        Some(6)
    } else if same_chars(l, "sunday") || same_chars(l, "eow") || same_chars(l, "week") {
        Some(0)
    } else {
        None
    }
}

/// The next date after `today` that falls on weekday `target` (0 is Sunday): never `today`
/// itself, and at most a week ahead.
pub fn next_weekday(today: &Date, target: u32) -> (r: Date)
    requires
        today.interior(),
        target < 7,
    ensures
        r == days_after(*today, weekday_gap(weekday_of(*today), target as int) as nat),
        r.valid(),
        day_number(*today) < day_number(r) <= day_number(*today) + 7,
        weekday_of(r) == target,
{
    let w = today.weekday();
    let k: u32 = (target + 7 - w) % 7;
    let gap: u32 = if k == 0 { 7 } else { k };
    advance(today, gap)
}

/// Looks up a lowercase date keyword, seen from `today`.
pub fn keyword_date_exec(l: &Vec<char>, today: &Date) -> (r: Option<Date>)
    requires
        today.interior(),
    ensures
        r == keyword_date(l@, *today),
        r matches Some(d) ==> d.valid(),
{
    if same_chars(l, "today") || same_chars(l, "eod") {
        Some(*today)
    } else if same_chars(l, "yesterday") {
        Some(today.prev_day())
    } else if same_chars(l, "tomorrow") {
        proof {
            crate::calendar::lemma_interior_margin(*today);
        }
        Some(today.next_day())
    } else if let Some(t) = day_name_exec(l) {
        Some(next_weekday(today, t))
    } else if same_chars(l, "year") || same_chars(l, "eoy") {
        Some(Date { year: today.year, month: 12, day: 31 })
    } else if same_chars(l, "month") || same_chars(l, "eom") {
        Some(today.last_day_of_month())
    } else {
        None
    }
}

/// Reads a date-part text, seen from `today`.
pub fn parse_date_portion(s: &Vec<char>, today: &Date) -> (r: Option<Date>)
    requires
        today.interior(),
    ensures
        r == date_part(s@, *today),
        r matches Some(d) ==> d.valid(),
{
    let l = lower_chars(s);
    if let Some(d) = keyword_date_exec(&l, today) {
        return Some(d);
    }
    match explicit_parse_exec(s) {
        Some((y, m, d)) => Date::from_ymd(y, m, d),
        None => month_day_exec(s, today.year),
    }
}

pub open spec fn at_time_of(d: Date, t: TimeOfDay) -> LocalDateTime {
    LocalDateTime { date: d, hour: t.hour, minute: t.minute, second: t.second }
}

/// The time a date without a time stands for: the end of the day.
pub open spec fn end_of_day() -> TimeOfDay {
    TimeOfDay { hour: 23, minute: 59, second: 59 }
}

/// What a phrase of a date-part and a time-part, or of either alone, denotes seen from
/// `today`. Two parts that do not read as a date then a time fall through to the reading
/// of the whole trimmed phrase as a date, then as a time.
pub open spec fn flexible(s: Seq<char>, today: Date) -> Result<LocalDateTime, TimeParseError> {
    let t = tokens(s);
    if t.len() > 2 {
        Err(TimeParseError::TooManyParts)
    } else if t.len() == 2 && date_part(t[0], today) is Some && time_part(t[1]) is Some {
        Ok(at_time_of(date_part(t[0], today)->Some_0, time_part(t[1])->Some_0))
    } else if date_part(trimmed(s), today) is Some {
        Ok(at_time_of(date_part(trimmed(s), today)->Some_0, end_of_day()))
    } else if time_part(trimmed(s)) is Some {
        Ok(at_time_of(today, time_part(trimmed(s))->Some_0))
    } else {
        Err(TimeParseError::CannotParse)
    }
}

fn join(d: Date, t: TimeOfDay) -> (r: LocalDateTime)
    ensures
        r == at_time_of(d, t),
{
    LocalDateTime { date: d, hour: t.hour, minute: t.minute, second: t.second }
}

/// Reads a free-form date/time phrase, seen from `today`.
pub fn parse_flexible_timestr_from(s: &str, today: &Date) -> (r: Result<LocalDateTime, TimeParseError>)
    requires
        today.interior(),
    ensures
        r == flexible(s@, *today),
        r matches Ok(t) ==> t.valid(),
{
    let cs = chars_of(s);
    let parts = split_tokens(&cs);
    let ghost t = tokens(s@);
    if parts.len() > 2 {
        return Err(TimeParseError::TooManyParts);
    }
    if parts.len() == 2 {
        assert(parts@[0]@ == t[0] && parts@[1]@ == t[1]);
        let d = parse_date_portion(&parts[0], today);
        let tm = parse_time_portion(&parts[1]);
        if let (Some(d), Some(tm)) = (d, tm) {
            return Ok(join(d, tm));
        }
    }
    let whole = trim_chars(&cs);
    if let Some(d) = parse_date_portion(&whole, today) {
        return Ok(join(d, TimeOfDay { hour: 23, minute: 59, second: 59 }));
    }
    if let Some(tm) = parse_time_portion(&whole) {
        return Ok(join(*today, tm));
    }
    Err(TimeParseError::CannotParse)
}

proof fn lemma_days_after(today: Date, k: nat)
    requires
        today.interior(),
        k <= 7,
    ensures
        days_after(today, k).valid(),
        day_number(days_after(today, k)) == day_number(today) + k,
    decreases k,
{
    if k > 0 {
        lemma_days_after(today, (k - 1) as nat);
        let p = days_after(today, (k - 1) as nat);
        crate::calendar::lemma_interior_margin(today);
        if p.year == crate::calendar::MAX_YEAR && crate::calendar::is_last_day(p) {
            assert(day_number(p) == day_number(Date { year: crate::calendar::MAX_YEAR, month: 12, day: 31 }));
        }
        crate::calendar::lemma_next_day(p);
    }
}

/// A weekday name, read on any day, denotes a later day: never that day itself, at most a
/// week ahead, and on the weekday named.
pub proof fn lemma_day_name_ahead(l: Seq<char>, today: Date)
    requires
        today.interior(),
        day_name(l) is Some,
    ensures
        keyword_date(l, today) matches Some(d) && day_number(today) < day_number(d) <= day_number(today) + 7
            && weekday_of(d) == day_name(l)->Some_0,
{
    reveal_strlit("today");
    reveal_strlit("eod");
    reveal_strlit("yesterday");
    reveal_strlit("tomorrow");
    reveal_strlit("monday");
    reveal_strlit("tuesday");
    reveal_strlit("wednesday");
    reveal_strlit("thursday");
    reveal_strlit("friday");
    reveal_strlit("saturday");
    reveal_strlit("sunday");
    reveal_strlit("eow");
    reveal_strlit("week");
    assert("today"@.len() == 5 && "eod"@.len() == 3 && "yesterday"@.len() == 9 && "tomorrow"@.len() == 8);
    assert("monday"@.len() == 6 && "tuesday"@.len() == 7 && "wednesday"@.len() == 9);
    assert("thursday"@.len() == 8 && "friday"@.len() == 6 && "saturday"@.len() == 8);
    assert("sunday"@.len() == 6 && "eow"@.len() == 3 && "week"@.len() == 4);
    assert("eod"@[2] != "eow"@[2]);
    assert("yesterday"@[0] != "wednesday"@[0]);
    assert("tomorrow"@[1] != "thursday"@[1]);
    assert("tomorrow"@[0] != "saturday"@[0]);
    assert(l != "today"@ && l != "eod"@ && l != "yesterday"@ && l != "tomorrow"@);
    let w = weekday_of(today);
    let t = day_name(l)->Some_0;
    let k = weekday_gap(w, t);
    assert(1 <= k <= 7);
    lemma_days_after(today, k as nat);
}

} // verus!
