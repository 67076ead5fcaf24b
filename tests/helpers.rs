use taskcal::args::{syntax_helper, validate_index, validate_limit, validate_timestr, CountError};
use taskcal::calendar::Date;
use taskcal::display::{format_hour, pluralize};
use taskcal::recurring::compile;
use taskcal::schedule::Schedule;
use taskcal::status::{parse_status, status_to_string, translate_status};
use taskcal::text::chars_of;
use taskcal::timestr::parse_date_portion;

#[test]
fn status_names() {
    assert_eq!(status_to_string(0), "ongoing");
    assert_eq!(status_to_string(6), "pending");
    assert_eq!(status_to_string(9), "unknown");
    assert_eq!(translate_status(2), "cancelled".to_string());
}

#[test]
fn status_words_and_codes() {
    assert_eq!(parse_status("Done"), Ok(1));
    assert_eq!(parse_status("canceled"), Ok(2));
    assert_eq!(parse_status("SHELVED"), Ok(4));
    assert_eq!(parse_status("closed"), Ok(253));
    assert_eq!(parse_status("open"), Ok(254));
    assert_eq!(parse_status("all"), Ok(255));
    assert_eq!(parse_status("42"), Ok(42));
    assert_eq!(parse_status("256"), Err("256".to_string()));
    assert_eq!(parse_status("finished"), Err("finished".to_string()));
}

#[test]
fn count_values() {
    assert_eq!(validate_limit("100"), Ok(100));
    assert_eq!(validate_limit("65536"), Ok(65536));
    assert_eq!(validate_limit("65537"), Err(CountError::TooLarge));
    assert_eq!(validate_limit("0"), Err(CountError::TooSmall));
    assert_eq!(validate_limit("ten"), Err(CountError::NotANumber));
    assert_eq!(validate_index("99999999999999999999999"), Err(CountError::TooLarge));
    assert_eq!(validate_index("3"), Ok(3));
}

#[test]
fn syntax_hints() {
    assert_eq!(syntax_helper("task", "groceries"), Ok("groceries".to_string()));
    assert_eq!(
        syntax_helper("task", "list"),
        Err("Do you mean 'list task' instead of 'task list'".to_string())
    );
    assert_eq!(
        syntax_helper("record", "help"),
        Err("Do you mean --help instead of help".to_string())
    );
}

#[test]
fn hour_formatting() {
    assert_eq!(format_hour(0, 5), "12:05AM");
    assert_eq!(format_hour(12, 0), "12:00PM");
    assert_eq!(format_hour(15, 30), "3:30PM");
    assert_eq!(format_hour(9, 45), "9:45AM");
}

#[test]
fn pluralizing() {
    assert_eq!(pluralize(1, "task"), "1 task");
    assert_eq!(pluralize(0, "task"), "0 tasks");
    assert_eq!(pluralize(12, "record"), "12 records");
}

#[test]
fn date_formats_read_back() {
    let d = Date { year: 2025, month: 6, day: 2 };
    let today = Date { year: 2024, month: 1, day: 1 };
    for text in ["2025/06/02", "2025-06-02", "06/02/2025", "06-02-2025"] {
        let back = parse_date_portion(&chars_of(text), &today).unwrap();
        assert_eq!(back, d, "{}", text);
    }
}

#[test]
fn compiled_schedules_are_idempotent() {
    for phrase in ["Daily 5PM", "Weekly Sat-Sun 10AM", "Every 9th of the Month", "Yearly 2/29", "Weekly"] {
        let s = compile(phrase).unwrap();
        let text = s.to_canonical();
        assert_eq!(Schedule::parse_canonical(&text), Ok(s), "{}", phrase);
    }
}

#[test]
fn timestr_values() {
    assert_eq!(validate_timestr("tomorrow 5PM"), Ok("tomorrow 5PM".to_string()));
    assert!(validate_timestr("soonish").is_err());
}

#[test]
fn error_messages_name_the_input() {
    let e = compile("Fortnightly 5PM").unwrap_err();
    assert_eq!(
        e.describe("Fortnightly 5PM"),
        "Unrecognized recurring time format: 'Fortnightly 5PM'"
    );
    let t = taskcal::timestr::parse_flexible_timestr_from("a b c", &Date { year: 2024, month: 1, day: 1 })
        .unwrap_err();
    assert_eq!(t.describe("a b c"), "There are too many parts in timestr 'a b c'");
    let c = taskcal::clock::get_occurrence_from("0 9 *", &taskcal::calendar::LocalDateTime {
        date: Date { year: 2024, month: 1, day: 1 },
        hour: 0,
        minute: 0,
        second: 0,
    }, true)
    .unwrap_err();
    assert_eq!(c.describe("0 9 *"), "Invalid cron format: '0 9 *'");
}
