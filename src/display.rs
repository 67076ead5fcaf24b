use vstd::prelude::*;

use crate::calendar::{day_number, weekday_of, Date, LocalDateTime};
use crate::clock::{local_at, local_now};
use crate::item::Item;
use crate::status::{status_name, translate_status};
use crate::text::{decimal, owned, push_decimal, push_str, string_of};

verus! {

/// The hour on a 12-hour clock: 12 for midnight and noon.
pub open spec fn clock_hour_12(hour: u32) -> nat {
    if hour == 0 {
        12
    } else if hour > 12 {
        (hour - 12) as nat
    } else {
        hour as nat
    }
}

/// A number written with at least two digits.
pub open spec fn two_digits(n: nat) -> Seq<char> {
    if n < 10 { seq!['0'] + decimal(n) } else { decimal(n) }
}

/// A time of day on a 12-hour clock, such as `3:05PM` or `12:00AM`.
pub open spec fn hour_text(hour: u32, minute: u32) -> Seq<char> {
    decimal(clock_hour_12(hour)) + seq![':'] + two_digits(minute as nat) + (if hour < 12 {
        "AM"@
    } else {
        "PM"@
    })
}

/// Writes a time of day on a 12-hour clock.
pub fn format_hour(hour: u32, minute: u32) -> (r: String)
    ensures
        r@ == hour_text(hour, minute),
{
    let hour12: u32 = if hour == 0 {
        12
    } else if hour > 12 {
        hour - 12
    } else {
        hour
    };
    let mut out: Vec<char> = Vec::new();
    push_decimal(hour12 as u64, &mut out);
    out.push(':');
    if minute < 10 {
        out.push('0');
    }
    push_decimal(minute as u64, &mut out);
    if hour < 12 {
        push_str(&mut out, "AM");
    } else {
        push_str(&mut out, "PM");
    }
    assert(out@ =~= hour_text(hour, minute));
    string_of(&out)
}

/// A count with its noun, which takes an `s` unless the count is one.
pub open spec fn counted(n: usize, word: Seq<char>) -> Seq<char> {
    decimal(n as nat) + seq![' '] + word + (if n == 1 { Seq::<char>::empty() } else { seq!['s'] })
}

/// Writes a count with its noun, such as `1 task` or `3 tasks`.
pub fn pluralize(n: usize, word: &str) -> (r: String)
    ensures
        r@ == counted(n, word@),
{
    let mut out: Vec<char> = Vec::new();
    push_decimal(n as u64, &mut out);
    out.push(' ');
    push_str(&mut out, word);
    if n != 1 {
        out.push('s');
    }
    assert(out@ =~= counted(n, word@));
    string_of(&out)
}

/// The English name of weekday `w` (0 is Sunday).
pub open spec fn weekday_name(w: int) -> Seq<char> {
    if w == 0 {
        "Sunday"@
    } else if w == 1 {
        "Monday"@
    } else if w == 2 {
        "Tuesday"@
    } else if w == 3 {
        "Wednesday"@
    } else if w == 4 {
        "Thursday"@
    } else if w == 5 {
        "Friday"@
    } else {
        "Saturday"@
    }
}

/// Day number of the Monday that starts the (ISO, Monday-first) week of `d`.
pub open spec fn week_start(d: Date) -> int {
    day_number(d) - (weekday_of(d) + 6) % 7
}

/// `Y/M/D`, unpadded.
pub open spec fn date_text(d: Date) -> Seq<char> {
    decimal(d.year as nat) + seq!['/'] + decimal(d.month as nat) + seq!['/'] + decimal(d.day as nat)
}

/// `Y/MM/DD`, month and day zero-padded.
pub open spec fn padded_date_text(d: Date) -> Seq<char> {
    decimal(d.year as nat) + seq!['/'] + two_digits(d.month as nat) + seq!['/'] + two_digits(d.day as nat)
}

/// `M/D`, unpadded.
pub open spec fn month_day_text(d: Date) -> Seq<char> {
    decimal(d.month as nat) + seq!['/'] + decimal(d.day as nat)
}

/// Whether a time is the end of its day, which stands for a date given without a time.
pub open spec fn is_end_of_day(t: LocalDateTime) -> bool {
    t.hour == 23 && t.minute == 59 && t.second == 59
}

/// `label`, followed by the time of day unless `t` is the end of its day.
pub open spec fn with_time(label: Seq<char>, t: LocalDateTime) -> Seq<char> {
    if is_end_of_day(t) {
        label
    } else {
        label + seq![' '] + hour_text(t.hour, t.minute)
    }
}

/// How a time is shown relative to `now`: today, a record with its full date, a past or
/// other-year date, tomorrow, a weekday within the coming week (with `Next ` when it falls
/// in the following week), or month and day.
pub open spec fn relative_text(t: LocalDateTime, now: LocalDateTime, is_record: bool) -> Seq<char> {
    let dt = day_number(t.date);
    let dn = day_number(now.date);
    if dt == dn {
        with_time("Today"@, t)
    } else if is_record {
        date_text(t.date) + seq![' '] + hour_text(t.hour, t.minute)
    } else if dt < dn || t.date.year != now.date.year {
        padded_date_text(t.date)
    } else if dt == dn + 1 {
        with_time("Tomorrow"@, t)
    } else if dt <= dn + 7 {
        let prefix = if week_start(t.date) != week_start(now.date) { "Next "@ } else { Seq::<char>::empty() };
        with_time(prefix + weekday_name(weekday_of(t.date)), t)
    } else {
        with_time(month_day_text(t.date), t)
    }
}

fn push_two_digits(n: u32, out: &mut Vec<char>)
    ensures
        final(out)@ == old(out)@ + two_digits(n as nat),
{
    if n < 10 {
        out.push('0');
    }
    push_decimal(n as u64, out);
}

fn push_hour_text(hour: u32, minute: u32, out: &mut Vec<char>)
    ensures
        final(out)@ == old(out)@ + hour_text(hour, minute),
{
    let ghost start = out@;
    let hour12: u32 = if hour == 0 {
        12
    } else if hour > 12 {
        hour - 12
    } else {
        hour
    };
    push_decimal(hour12 as u64, out);
    out.push(':');
    push_two_digits(minute, out);
    if hour < 12 {
        push_str(out, "AM");
    } else {
        push_str(out, "PM");
    }
    assert(out@ =~= start + hour_text(hour, minute));
}

fn push_with_time(t: &LocalDateTime, out: &mut Vec<char>)
    ensures
        is_end_of_day(*t) ==> final(out)@ == old(out)@,
        !is_end_of_day(*t) ==> final(out)@ == old(out)@ + seq![' '] + hour_text(t.hour, t.minute),
{
    if !(t.hour == 23 && t.minute == 59 && t.second == 59) {
        out.push(' ');
        push_hour_text(t.hour, t.minute, out);
    }
}

fn weekday_word(w: u32) -> (r: &'static str)
    ensures
        r@ == weekday_name(w as int),
{
    if w == 0 {
        "Sunday"
    } else if w == 1 {
        "Monday"
    } else if w == 2 {
        "Tuesday"
    } else if w == 3 {
        "Wednesday"
    } else if w == 4 {
        "Thursday"
    } else if w == 5 {
        "Friday"
    } else {
        "Saturday"
    }
}

/// Shows the local time `t` relative to the local time `now`.
pub fn relative_time_text(t: &LocalDateTime, now: &LocalDateTime, is_record: bool) -> (r: String)
    requires
        t.valid(),
        now.valid(),
    ensures
        r@ == relative_text(*t, *now, is_record),
{
    let dt = t.date.number();
    let dn = now.date.number();
    let mut out: Vec<char> = Vec::new();
    if dt == dn {
        push_str(&mut out, "Today");
        push_with_time(t, &mut out);
    } else if is_record {
        push_decimal(t.date.year as u64, &mut out);
        out.push('/');
        push_decimal(t.date.month as u64, &mut out);
        out.push('/');
        push_decimal(t.date.day as u64, &mut out);
        out.push(' ');
        push_hour_text(t.hour, t.minute, &mut out);
    } else if dt < dn || t.date.year != now.date.year {
        push_decimal(t.date.year as u64, &mut out);
        out.push('/');
        push_two_digits(t.date.month, &mut out);
        out.push('/');
        push_two_digits(t.date.day, &mut out);
    } else if dt == dn + 1 {
        push_str(&mut out, "Tomorrow");
        push_with_time(t, &mut out);
    } else if dt <= dn + 7 {
        let wt = t.date.weekday();
        let wn = now.date.weekday();
        let st = dt - ((wt as i64 + 6) % 7);
        let sn = dn - ((wn as i64 + 6) % 7);
        if st != sn {
            push_str(&mut out, "Next ");
        }
        push_str(&mut out, weekday_word(wt));
        push_with_time(t, &mut out);
    } else {
        push_decimal(t.date.month as u64, &mut out);
        out.push('/');
        push_decimal(t.date.day as u64, &mut out);
        push_with_time(t, &mut out);
    }
    assert(out@ =~= relative_text(*t, *now, is_record));
    string_of(&out)
}

/// Shows an instant relative to the present moment, in the local time zone.
pub fn timestamp_to_display_string(timestamp: i64, is_record: bool) -> (r: String)
    ensures
        r@ == "Invalid timestamp"@ || exists|t: LocalDateTime, now: LocalDateTime|
            t.valid() && now.valid() && r@ == #[trigger] relative_text(t, now, is_record),
{
    let t = match local_at(timestamp) {
        Some(t) => t,
        None => return owned("Invalid timestamp"),
    };
    let now = match local_now() {
        Some(n) => n,
        None => return owned("Invalid timestamp"),
    };
    relative_time_text(&t, &now, is_record)
}

/// One row of a listing.
pub struct DisplayRow {
    pub index: String,
    pub category: String,
    pub content: String,
    pub timestr: String,
}

impl DisplayRow {
    /// The row of a task: its due time shown relative to now, with its status unless ongoing.
    pub fn from_task(index: usize, task: &Item) -> (r: Self)
        requires
            task.target_time is Some,
        ensures
            r.index@ == decimal(index as nat),
            r.category == task.category,
            r.content == task.content,
            task.status != 0 ==> exists|p: Seq<char>| r.timestr@ == p + " ("@ + status_name(task.status) + ")"@,
    {
        let shown = timestamp_to_display_string(task.target_time.unwrap(), false);
        let mut out: Vec<char> = crate::text::chars_of(shown.as_str());
        let ghost shown_chars = out@;
        if task.status != 0 {
            let status = translate_status(task.status);
            push_str(&mut out, " (");
            push_str(&mut out, status.as_str());
            push_str(&mut out, ")");
            assert(out@ =~= shown_chars + " ("@ + status_name(task.status) + ")"@);
        }
        let mut idx: Vec<char> = Vec::new();
        push_decimal(index as u64, &mut idx);
        DisplayRow {
            index: string_of(&idx),
            category: task.category.clone(),
            content: task.content.clone(),
            timestr: string_of(&out),
        }
    }

    /// The row of a record: its creation time shown relative to now.
    pub fn from_record(index: usize, record: &Item) -> (r: Self)
        ensures
            r.index@ == decimal(index as nat),
            r.category == record.category,
            r.content == record.content,
    {
        let mut idx: Vec<char> = Vec::new();
        push_decimal(index as u64, &mut idx);
        DisplayRow {
            index: string_of(&idx),
            category: record.category.clone(),
            content: record.content.clone(),
            timestr: timestamp_to_display_string(record.create_time, true),
        }
    }
}

} // verus!
