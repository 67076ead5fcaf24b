use taskcal::calendar::{Date, LocalDateTime};
use taskcal::clock::{
    get_last_occurrence_from, get_next_occurrence_from, get_occurrence_from, CronError,
};
use taskcal::schedule::{OccurrenceError, Schedule, ScheduleFormatError, WeekdaySpec};

/// A local date and time written `YYYY-MM-DD HH:MM`.
fn at(s: &str) -> LocalDateTime {
    let n = |a: usize, b: usize| s[a..b].parse::<u32>().unwrap();
    LocalDateTime {
        date: Date { year: n(0, 4) as i32, month: n(5, 7), day: n(8, 10) },
        hour: n(11, 13),
        minute: n(14, 16),
        second: 0,
    }
}

#[test]
fn test_next_occurrence() {
    let test_cases = vec![
        // (now, cron, expected)
        // Daily tests
        ("2024-03-15 10:00", "30 14 * * *", "2024-03-15 14:30"), // Same day, future time
        ("2024-03-15 15:00", "30 14 * * *", "2024-03-16 14:30"), // Next day
        ("2024-03-15 23:00", "30 2 * * *", "2024-03-16 02:30"),  // Next day early AM
        // Weekly tests - single day
        ("2024-03-15 10:00", "0 9 * * 1", "2024-03-18 09:00"), // Friday -> Monday
        ("2024-03-18 10:00", "0 9 * * 1", "2024-03-25 09:00"), // Monday after time -> next Monday
        ("2024-03-18 08:00", "0 9 * * 1", "2024-03-18 09:00"), // Monday before time -> same Monday
        ("2024-03-17 08:00", "0 9 * * 7", "2024-03-17 09:00"), // Sunday before time -> same Sunday
        ("2024-03-17 10:00", "0 9 * * 7", "2024-03-24 09:00"), // Sunday after time -> next Sunday
        // Weekly tests - range
        ("2024-03-16 10:00", "0 9 * * 1-5", "2024-03-18 09:00"), // Sat -> Mon
        ("2024-03-17 10:00", "0 9 * * 1-5", "2024-03-18 09:00"), // Sun -> Mon
        ("2024-03-18 08:00", "0 9 * * 1-5", "2024-03-18 09:00"), // Mon before time
        ("2024-03-18 10:00", "0 9 * * 1-5", "2024-03-19 09:00"), // Mon after time -> Tue
        ("2024-03-20 08:00", "0 9 * * 1-5", "2024-03-20 09:00"), // Wed before time -> Wed
        ("2024-03-20 10:00", "0 9 * * 1-5", "2024-03-21 09:00"), // Wed after time -> Thu
        ("2024-03-15 10:00", "0 9 * * 6-7", "2024-03-16 09:00"), // Fri -> Sat
        ("2024-03-16 08:00", "0 9 * * 6-7", "2024-03-16 09:00"), // Sat before time -> Sat
        ("2024-03-16 10:00", "0 9 * * 6-7", "2024-03-17 09:00"), // Sat after time -> Sun
        ("2024-03-17 10:00", "0 9 * * 6-7", "2024-03-23 09:00"), // Sun after time -> next Sat
        // Monthly tests
        ("2024-03-10 10:00", "0 9 15 * *", "2024-03-15 09:00"), // Same month
        ("2024-03-20 10:00", "0 9 15 * *", "2024-04-15 09:00"), // Next month
        ("2024-03-15 08:00", "0 9 15 * *", "2024-03-15 09:00"), // Same day before time
        ("2024-03-15 10:00", "0 9 15 * *", "2024-04-15 09:00"), // Same day after time
        // Monthly edge case - Feb 30 doesn't exist
        ("2024-02-15 10:00", "0 9 30 * *", "2024-03-30 09:00"), // Skip Feb
        // Yearly tests
        ("2024-03-15 10:00", "0 9 25 12 *", "2024-12-25 09:00"), // Same year
        ("2024-12-26 10:00", "0 9 25 12 *", "2025-12-25 09:00"), // Next year
        ("2024-12-25 08:00", "0 9 25 12 *", "2024-12-25 09:00"), // Same day before time
        ("2024-12-25 10:00", "0 9 25 12 *", "2025-12-25 09:00"), // Same day after time
    ];

    for (now_str, cron, expected_str) in test_cases {
        let result = get_occurrence_from(cron, &at(now_str), true);
        assert!(
            result.is_ok(),
            "Failed for cron '{}' at '{}': {:?}",
            cron,
            now_str,
            result.err()
        );
        assert_eq!(
            result.unwrap(),
            at(expected_str),
            "Cron '{}' at '{}': expected '{}'",
            cron,
            now_str,
            expected_str
        );
    }
}

#[test]
fn test_last_occurrence() {
    let test_cases = vec![
        // (now, cron, expected)
        // Daily tests
        ("2024-03-15 10:00", "30 14 * * *", "2024-03-14 14:30"), // Same day, past time -> yesterday
        ("2024-03-15 15:00", "30 14 * * *", "2024-03-15 14:30"), // Same day, past
        ("2024-03-16 02:00", "30 23 * * *", "2024-03-15 23:30"), // Early AM -> yesterday
        // Weekly tests - single day
        ("2024-03-18 10:00", "0 9 * * 1", "2024-03-18 09:00"), // Monday after time -> same Monday
        ("2024-03-18 08:00", "0 9 * * 1", "2024-03-11 09:00"), // Monday before time -> previous Monday
        ("2024-03-17 10:00", "0 9 * * 7", "2024-03-17 09:00"), // Sunday after time -> same Sunday
        ("2024-03-17 08:00", "0 9 * * 7", "2024-03-10 09:00"), // Sunday before time -> previous Sunday
        // Weekly tests - range
        ("2024-03-18 10:00", "0 9 * * 1-5", "2024-03-18 09:00"), // Mon after time -> same Mon
        ("2024-03-18 08:00", "0 9 * * 1-5", "2024-03-15 09:00"), // Mon before time -> Fri
        ("2024-03-20 10:00", "0 9 * * 1-5", "2024-03-20 09:00"), // Wed after time -> same Wed
        ("2024-03-20 08:00", "0 9 * * 1-5", "2024-03-19 09:00"), // Wed before time -> Tue
        ("2024-03-17 10:00", "0 9 * * 6-7", "2024-03-17 09:00"), // Sun after time -> same Sun
        ("2024-03-17 08:00", "0 9 * * 6-7", "2024-03-16 09:00"), // Sun before time -> Sat
        ("2024-03-16 10:00", "0 9 * * 6-7", "2024-03-16 09:00"), // Sat after time -> same Sat
        ("2024-03-16 08:00", "0 9 * * 6-7", "2024-03-10 09:00"), // Sat before time -> previous Sun
        // Monthly tests
        ("2024-03-20 10:00", "0 9 15 * *", "2024-03-15 09:00"), // After day -> same month
        ("2024-03-10 10:00", "0 9 15 * *", "2024-02-15 09:00"), // Before day -> previous month
        ("2024-03-15 10:00", "0 9 15 * *", "2024-03-15 09:00"), // Same day after time
        ("2024-03-15 08:00", "0 9 15 * *", "2024-02-15 09:00"), // Same day before time
        // Monthly edge case - Feb 30 doesn't exist, skip to Jan
        ("2024-03-15 10:00", "0 9 30 * *", "2024-01-30 09:00"), // Skip Feb, go to Jan 30
        // Yearly tests
        ("2024-12-26 10:00", "0 9 25 12 *", "2024-12-25 09:00"), // After date -> same year
        ("2024-03-15 10:00", "0 9 25 12 *", "2023-12-25 09:00"), // Before date -> previous year
        ("2024-12-25 10:00", "0 9 25 12 *", "2024-12-25 09:00"), // Same day after time
        ("2024-12-25 08:00", "0 9 25 12 *", "2023-12-25 09:00"), // Same day before time
    ];

    for (now_str, cron, expected_str) in test_cases {
        let result = get_occurrence_from(cron, &at(now_str), false);
        assert!(
            result.is_ok(),
            "Failed for cron '{}' at '{}': {:?}",
            cron,
            now_str,
            result.err()
        );
        assert_eq!(
            result.unwrap(),
            at(expected_str),
            "Cron '{}' at '{}': expected '{}'",
            cron,
            now_str,
            expected_str
        );
    }
}

#[test]
fn scenario_daily_next_day() {
    assert_eq!(
        get_next_occurrence_from("30 14 * * *", &at("2024-03-15 15:00")),
        Ok(at("2024-03-16 14:30"))
    );
}

#[test]
fn scenario_weekdays_from_saturday() {
    assert_eq!(
        get_next_occurrence_from("0 9 * * 1-5", &at("2024-03-16 10:00")),
        Ok(at("2024-03-18 09:00"))
    );
}

#[test]
fn scenario_last_thirtieth_skips_february() {
    assert_eq!(
        get_last_occurrence_from("0 9 30 * *", &at("2024-03-15 10:00")),
        Ok(at("2024-01-30 09:00"))
    );
}

#[test]
fn day_31_from_february_lands_in_march() {
    assert_eq!(
        get_next_occurrence_from("0 9 31 * *", &at("2023-02-10 12:00")),
        Ok(at("2023-03-31 09:00"))
    );
    assert_eq!(
        get_next_occurrence_from("59 23 31 * *", &at("2024-02-29 23:59")),
        Ok(at("2024-03-31 23:59"))
    );
}

#[test]
fn weekly_chain_strictly_increases() {
    let mut now = at("2024-03-13 12:00");
    let mut seen = Vec::new();
    for _ in 0..10 {
        let next = get_next_occurrence_from("15 8 * * 2-4", &now).unwrap();
        assert!(next.seconds() > now.seconds());
        seen.push(next);
        now = next;
    }
    assert_eq!(seen[0], at("2024-03-14 08:15"));
    assert_eq!(seen[1], at("2024-03-19 08:15"));
    assert_eq!(seen[2], at("2024-03-20 08:15"));
    assert_eq!(seen[3], at("2024-03-21 08:15"));
    assert_eq!(seen[4], at("2024-03-26 08:15"));
}

#[test]
fn forward_monthly_gives_up_after_one_month() {
    assert_eq!(
        get_next_occurrence_from("0 9 31 * *", &at("2024-03-31 10:00")),
        Err(CronError::Occurrence(OccurrenceError::InvalidDayForMonth { day: 31, month: 4 }))
    );
}

#[test]
fn yearly_leap_day_error() {
    assert_eq!(
        get_next_occurrence_from("0 9 29 2 *", &at("2024-03-01 10:00")),
        Err(CronError::Occurrence(OccurrenceError::InvalidDate { day: 29, month: 2, year: 2025 }))
    );
    assert_eq!(
        get_next_occurrence_from("0 9 29 2 *", &at("2027-03-01 10:00")),
        Ok(at("2028-02-29 09:00"))
    );
}

#[test]
fn edge_of_supported_years() {
    assert_eq!(
        get_next_occurrence_from("0 9 * * *", &at("9999-06-01 10:00")),
        Err(CronError::Occurrence(OccurrenceError::OutOfRange))
    );
}

#[test]
fn canonical_format_errors() {
    assert_eq!(
        get_next_occurrence_from("0 9 * *", &at("2024-03-15 10:00")),
        Err(CronError::Format(ScheduleFormatError::FieldCount))
    );
    assert_eq!(
        get_next_occurrence_from("60 9 * * *", &at("2024-03-15 10:00")),
        Err(CronError::Format(ScheduleFormatError::InvalidField))
    );
    assert_eq!(
        get_next_occurrence_from("0 9 * 3 *", &at("2024-03-15 10:00")),
        Err(CronError::Format(ScheduleFormatError::UnsupportedPattern))
    );
    assert_eq!(
        get_next_occurrence_from("0 9 5 * 1", &at("2024-03-15 10:00")),
        Err(CronError::Format(ScheduleFormatError::UnsupportedPattern))
    );
    assert_eq!(
        get_next_occurrence_from("0 9 * * 5-1", &at("2024-03-15 10:00")),
        Err(CronError::Format(ScheduleFormatError::InvalidField))
    );
}

#[test]
fn canonical_text_round_trip() {
    let schedules = [
        Schedule::Daily { minute: 30, hour: 14 },
        Schedule::Weekly { minute: 0, hour: 9, days: WeekdaySpec::Range(1, 5) },
        Schedule::Weekly { minute: 5, hour: 0, days: WeekdaySpec::Single(0) },
        Schedule::Monthly { minute: 59, hour: 23, day: 31 },
        Schedule::Yearly { minute: 0, hour: 12, day: 29, month: 2 },
    ];
    for s in schedules {
        let text = s.to_canonical();
        assert_eq!(Schedule::parse_canonical(&text), Ok(s));
    }
    assert_eq!(Schedule::Weekly { minute: 0, hour: 9, days: WeekdaySpec::Range(6, 7) }.to_canonical(), "0 9 * * 6-7");
    assert_eq!(
        Schedule::parse_canonical("0 9 * * 7"),
        Ok(Schedule::Weekly { minute: 0, hour: 9, days: WeekdaySpec::Single(0) })
    );
}
