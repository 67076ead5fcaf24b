use chrono::{Local, NaiveDateTime, Utc};
use taskcal::calendar::{Date, LocalDateTime, TimeOfDay};
use taskcal::clock::{
    days_after_to_unix_epoch, days_before_to_unix_epoch, parse_flexible_timestr, shift_days,
    to_unix_epoch,
};
use taskcal::text::chars_of;
use taskcal::timestr::{
    next_weekday, parse_date_portion, parse_flexible_timestr_from, parse_time_portion,
    TimeParseError,
};

fn date(year: i32, month: u32, day: u32) -> Date {
    Date { year, month, day }
}

fn dt(d: Date, hour: u32, minute: u32, second: u32) -> LocalDateTime {
    LocalDateTime { date: d, hour, minute, second }
}

fn date_of(s: &str, today: Date) -> Option<Date> {
    parse_date_portion(&chars_of(s), &today)
}

fn time_of(s: &str) -> Option<TimeOfDay> {
    parse_time_portion(&chars_of(s))
}

#[test]
fn test_valid_inputs() {
    // Collection of inputs that should be successfully parsed
    let valid_inputs = [
        "2025-10-15",
        "14:30",
        "3PM",
        "2025-10-15 14:30",
        "  2025-10-15  ",
        "today",
        "eod",
        "tomorrow 5PM",
        "tomorrow",
        "monday",
        "friday",
        "friday 3PM",
        "3/24",
    ];

    for input in valid_inputs {
        let result = parse_flexible_timestr(input);
        assert!(
            result.is_ok(),
            "Should parse valid input '{}' but got error: {:?}",
            input,
            result.err()
        );
        let unix_epoch = to_unix_epoch(input);
        assert!(
            unix_epoch.is_ok(),
            "Should parse valid input '{}' but got error: {:?}",
            input,
            unix_epoch.err()
        );
    }
}

#[test]
fn test_invalid_inputs() {
    // Collection of inputs that should fail to parse
    let invalid_inputs = [
        "",
        "not a date or time",
        "2025-10-15 14:30 0300TZ",
        "invalid-date 12:30",
        "2025-13-45",
        "25:70",
        "20PM",
        "13AM",
        "monday 0AM",
    ];

    for input in invalid_inputs {
        let result = parse_flexible_timestr(input);
        assert!(
            result.is_err(),
            "Expected error for invalid input '{}' but got success",
            input
        );
    }
}

#[test]
fn test_unix_epoch() {
    let btime = "2025-02-23 20:35:00";
    let naive_dt = NaiveDateTime::parse_from_str(btime, "%Y-%m-%d %H:%M:%S").unwrap();
    let local_dt = naive_dt.and_local_timezone(Local).unwrap();
    let utc_dt = local_dt.with_timezone(&Utc);
    let expected_timestamp = utc_dt.timestamp();

    let unix_epoch = to_unix_epoch(btime).unwrap();
    assert_eq!(
        unix_epoch,
        expected_timestamp,
        "to_unix_epoch should use local timezone in conversion. \
         Expected timestamp: {} (using local timezone: {}), \
         but got: {}",
        expected_timestamp,
        Local::now().offset(),
        unix_epoch
    );
}

#[test]
fn month_keyword_in_leap_february() {
    assert_eq!(date_of("month", date(2024, 2, 10)), Some(date(2024, 2, 29)));
    assert_eq!(date_of("EOM", date(2023, 2, 10)), Some(date(2023, 2, 28)));
    assert_eq!(date_of("eom", date(2024, 12, 5)), Some(date(2024, 12, 31)));
}

#[test]
fn keyword_dates() {
    let today = date(2024, 3, 15); // a Friday
    assert_eq!(date_of("today", today), Some(today));
    assert_eq!(date_of("Tomorrow", today), Some(date(2024, 3, 16)));
    assert_eq!(date_of("yesterday", today), Some(date(2024, 3, 14)));
    assert_eq!(date_of("year", today), Some(date(2024, 12, 31)));
    assert_eq!(date_of("tomorrow", date(2024, 12, 31)), Some(date(2025, 1, 1)));
    assert_eq!(date_of("yesterday", date(2024, 3, 1)), Some(date(2024, 2, 29)));
}

#[test]
fn weekday_names_skip_today() {
    let friday = date(2024, 3, 15);
    assert_eq!(date_of("friday", friday), Some(date(2024, 3, 22)));
    assert_eq!(date_of("saturday", friday), Some(date(2024, 3, 16)));
    assert_eq!(date_of("Thursday", friday), Some(date(2024, 3, 21)));
    assert_eq!(date_of("sunday", friday), Some(date(2024, 3, 17)));
    assert_eq!(date_of("week", friday), Some(date(2024, 3, 17)));
    assert_eq!(date_of("eow", date(2024, 3, 17)), Some(date(2024, 3, 24)));
    for target in 0..7u32 {
        let d = next_weekday(&friday, target);
        assert!(d != friday);
        assert_eq!(d.weekday(), target);
        assert!(d.number() > friday.number() && d.number() <= friday.number() + 7);
    }
}

#[test]
fn explicit_date_formats() {
    let today = date(2024, 3, 15);
    assert_eq!(date_of("2025/06/12", today), Some(date(2025, 6, 12)));
    assert_eq!(date_of("2025-06-12", today), Some(date(2025, 6, 12)));
    assert_eq!(date_of("06/12/2025", today), Some(date(2025, 6, 12)));
    assert_eq!(date_of("06-12-2025", today), Some(date(2025, 6, 12)));
    assert_eq!(date_of("3/24", today), Some(date(2024, 3, 24)));
    assert_eq!(date_of("2/29", date(2023, 5, 1)), None);
    assert_eq!(date_of("2025-02-30", today), None);
    assert_eq!(date_of("12345/01/01", today), None);
}

#[test]
fn explicit_dates_round_trip() {
    let today = date(2024, 3, 15);
    for d in [date(2025, 6, 12), date(1999, 12, 31), date(2024, 2, 29), date(7, 1, 2)] {
        let ymd_slash = format!("{:04}/{:02}/{:02}", d.year, d.month, d.day);
        let ymd_dash = format!("{:04}-{:02}-{:02}", d.year, d.month, d.day);
        let mdy_slash = format!("{:02}/{:02}/{:04}", d.month, d.day, d.year);
        let mdy_dash = format!("{:02}-{:02}-{:04}", d.month, d.day, d.year);
        for s in [ymd_slash, ymd_dash, mdy_slash, mdy_dash] {
            assert_eq!(date_of(&s, today), Some(d), "{}", s);
        }
    }
}

#[test]
fn time_formats() {
    let t = |hour, minute, second| Some(TimeOfDay { hour, minute, second });
    assert_eq!(time_of("21:06"), t(21, 6, 0));
    assert_eq!(time_of("21:06:30"), t(21, 6, 30));
    assert_eq!(time_of("3:00PM"), t(15, 0, 0));
    assert_eq!(time_of("12:15am"), t(0, 15, 0));
    assert_eq!(time_of("12PM"), t(12, 0, 0));
    assert_eq!(time_of("12AM"), t(0, 0, 0));
    assert_eq!(time_of("9am"), t(9, 0, 0));
    assert_eq!(time_of("24:00"), None);
    assert_eq!(time_of("13:00PM"), None);
    assert_eq!(time_of("0AM"), None);
}

#[test]
fn flexible_phrases_from_fixed_day() {
    let today = date(2024, 3, 15);
    assert_eq!(
        parse_flexible_timestr_from("tomorrow 5PM", &today),
        Ok(dt(date(2024, 3, 16), 17, 0, 0))
    );
    assert_eq!(
        parse_flexible_timestr_from("2025-10-15", &today),
        Ok(dt(date(2025, 10, 15), 23, 59, 59))
    );
    assert_eq!(parse_flexible_timestr_from("14:30", &today), Ok(dt(today, 14, 30, 0)));
    assert_eq!(
        parse_flexible_timestr_from("a b c", &today),
        Err(TimeParseError::TooManyParts)
    );
    assert_eq!(
        parse_flexible_timestr_from("monday 0AM", &today),
        Err(TimeParseError::CannotParse)
    );
    assert_eq!(parse_flexible_timestr_from("", &today), Err(TimeParseError::CannotParse));
}

#[test]
fn shifting_by_days() {
    assert_eq!(shift_days(1_000_000, 2, true), Some(1_000_000 - 2 * 86400));
    assert_eq!(shift_days(1_000_000, 2, false), Some(1_000_000 + 2 * 86400));
    assert_eq!(shift_days(i64::MIN + 5, 1, true), None);
    let before = days_before_to_unix_epoch(1).unwrap();
    let after = days_after_to_unix_epoch(1).unwrap();
    assert!(after - before >= 2 * 86400 && after - before < 2 * 86400 + 5);
}

#[test]
fn whitespace_inside_numeric_fields() {
    let today = date(2024, 3, 15);
    assert_eq!(
        parse_flexible_timestr_from("2025/06/ 12", &today),
        Ok(dt(date(2025, 6, 12), 23, 59, 59))
    );
    assert_eq!(date_of("+2025-06-12", today), Some(date(2025, 6, 12)));
    assert_eq!(taskcal::recurring::parse_recurring_timestr("Daily 9: 30").unwrap(), "30 9 * * *");
}
