use taskcal::recurring::{compile, parse_recurring_timestr, CompileError};
use taskcal::schedule::{Schedule, WeekdaySpec};

#[test]
fn test_recurring_valid_inputs() {
    let test_cases = [
        // Daily
        ("Daily", "59 23 * * *"),
        ("Daily 5PM", "0 17 * * *"),
        ("Daily 9:30AM", "30 9 * * *"),
        // Weekly
        ("Weekly", "59 23 * * 0"),
        ("Weekly Monday", "59 23 * * 1"),
        ("Weekly Monday 5PM", "0 17 * * 1"),
        ("Weekly Monday-Friday", "59 23 * * 1-5"),
        ("Weekly Monday-Friday 3PM", "0 15 * * 1-5"),
        ("Weekly Saturday-Sunday", "59 23 * * 6-7"),
        ("Weekly Sat-Sun 10AM", "0 10 * * 6-7"),
        // Monthly
        ("Monthly", "59 23 1 * *"),
        ("Monthly 3rd", "59 23 3 * *"),
        ("Monthly 15th 9AM", "0 9 15 * *"),
        // Yearly
        ("Yearly", "59 23 31 12 *"),
        ("Yearly 2/14", "59 23 14 2 *"),
        ("Yearly 7/4 12PM", "0 12 4 7 *"),
        ("Yearly 12/25", "59 23 25 12 *"),
        // Every - time patterns (maps to Daily)
        ("Every 9PM", "0 21 * * *"),
        ("Every 9:30AM", "30 9 * * *"),
        ("Every Day", "59 23 * * *"),
        ("Every Day 5PM", "0 17 * * *"),
        // Every - weekday patterns (maps to Weekly)
        ("Every Monday", "59 23 * * 1"),
        ("Every Monday 5PM", "0 17 * * 1"),
        ("Every Friday 3PM", "0 15 * * 5"),
        // Every - ordinal day patterns (maps to Monthly)
        ("Every 9th of the Month", "59 23 9 * *"),
        ("Every 9th of Month", "59 23 9 * *"),
        ("Every 15th of the Month 9AM", "0 9 15 * *"),
        ("Every 1st of the Month", "59 23 1 * *"),
        ("Every 1st of Month", "59 23 1 * *"),
        ("Every 1st of the Month 10AM", "0 10 1 * *"),
        // Every - month/day patterns (maps to Yearly)
        ("Every 6/12", "59 23 12 6 *"),
        ("Every 2/14 5PM", "0 17 14 2 *"),
    ];

    for (input, expected) in test_cases {
        assert_eq!(
            parse_recurring_timestr(input).unwrap(),
            expected,
            "Failed for input: '{}'",
            input
        );
    }
}

#[test]
fn test_recurring_invalid_inputs() {
    assert!(parse_recurring_timestr("").is_err());
    assert!(parse_recurring_timestr("Invalid").is_err());
    assert!(parse_recurring_timestr("Monthly 32nd").is_err());
    assert!(parse_recurring_timestr("Weekly InvalidDay").is_err());
    assert!(parse_recurring_timestr("13/45").is_err());

    // Invalid dates should be rejected (Feb 30, June 31, etc.)
    assert!(parse_recurring_timestr("Yearly 2/30").is_err());
    assert!(parse_recurring_timestr("Yearly 6/31").is_err());

    // Standalone month/day patterns should be rejected (conflict with one-time tasks)
    assert!(parse_recurring_timestr("2/14").is_err());
    assert!(parse_recurring_timestr("12/25").is_err());
    assert!(parse_recurring_timestr("February 14th").is_err());
    assert!(parse_recurring_timestr("July 4th").is_err());

    // Invalid Every patterns
    assert!(parse_recurring_timestr("Every").is_err());
    assert!(parse_recurring_timestr("Every 1st").is_err()); // Must use "of the Month"
    assert!(parse_recurring_timestr("Every 9th").is_err()); // Must use "of the Month"
    assert!(parse_recurring_timestr("Every 15th 9AM").is_err()); // Must use "of the Month"
    assert!(parse_recurring_timestr("Every InvalidDay").is_err());
    assert!(parse_recurring_timestr("Every 32nd of the Month").is_err());
    assert!(parse_recurring_timestr("Every 2/30").is_err()); // Invalid date
}

#[test]
fn every_ninth_of_the_month_compiles_to_day_nine() {
    assert_eq!(
        compile("Every 9th of the Month"),
        Ok(Schedule::Monthly { minute: 59, hour: 23, day: 9 })
    );
    assert_eq!(parse_recurring_timestr("Every 9th of the Month").unwrap(), "59 23 9 * *");
}

#[test]
fn weekend_range_ends_on_seven() {
    assert_eq!(
        compile("Weekly Saturday-Sunday"),
        Ok(Schedule::Weekly { minute: 59, hour: 23, days: WeekdaySpec::Range(6, 7) })
    );
}

#[test]
fn compile_error_variants() {
    assert_eq!(compile("   "), Err(CompileError::Empty));
    assert_eq!(compile("Hourly"), Err(CompileError::UnsupportedPattern));
    assert_eq!(compile("Every 9th"), Err(CompileError::UnsupportedPattern));
    assert_eq!(compile("Weekly Funday"), Err(CompileError::InvalidWeekday));
    assert_eq!(compile("Weekly Mon-Tue-Wed"), Err(CompileError::InvalidWeekday));
    assert_eq!(compile("Weekly Fri-Mon"), Err(CompileError::InvalidRange));
    assert_eq!(compile("Monthly 0th"), Err(CompileError::InvalidOrdinal));
    assert_eq!(compile("Monthly 32nd"), Err(CompileError::InvalidOrdinal));
    assert_eq!(compile("Yearly 2/30"), Err(CompileError::InvalidDate));
    assert_eq!(compile("Yearly 2-14"), Err(CompileError::InvalidDate));
    assert_eq!(compile("Daily 25:00"), Err(CompileError::InvalidTime));
    assert_eq!(compile("Daily 5 PM"), Err(CompileError::InvalidTime));
}

#[test]
fn keywords_ignore_case() {
    assert_eq!(parse_recurring_timestr("DAILY 5pm").unwrap(), "0 17 * * *");
    assert_eq!(parse_recurring_timestr("weekly TUES-thurs").unwrap(), "59 23 * * 2-4");
    assert_eq!(parse_recurring_timestr("every 2ND OF THE MONTH").unwrap(), "59 23 2 * *");
}

#[test]
fn leap_day_is_accepted_yearly() {
    assert_eq!(parse_recurring_timestr("Yearly 2/29").unwrap(), "59 23 29 2 *");
}

#[test]
fn sunday_range_start_stays_zero() {
    assert_eq!(parse_recurring_timestr("Weekly Sun-Tue").unwrap(), "59 23 * * 0-2");
}
