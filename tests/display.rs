use taskcal::calendar::{Date, LocalDateTime};
use taskcal::display::{relative_time_text, DisplayRow};
use taskcal::item::Item;

fn at(year: i32, month: u32, day: u32, hour: u32, minute: u32, second: u32) -> LocalDateTime {
    LocalDateTime { date: Date { year, month, day }, hour, minute, second }
}

#[test]
fn relative_texts() {
    let now = at(2024, 3, 13, 10, 0, 0); // a Wednesday
    let show = |t: LocalDateTime, rec: bool| relative_time_text(&t, &now, rec);
    assert_eq!(show(at(2024, 3, 13, 23, 59, 59), false), "Today");
    assert_eq!(show(at(2024, 3, 13, 15, 5, 0), false), "Today 3:05PM");
    assert_eq!(show(at(2024, 3, 14, 23, 59, 59), false), "Tomorrow");
    assert_eq!(show(at(2024, 3, 14, 9, 0, 0), false), "Tomorrow 9:00AM");
    assert_eq!(show(at(2024, 3, 16, 23, 59, 59), false), "Saturday");
    assert_eq!(show(at(2024, 3, 18, 8, 30, 0), false), "Next Monday 8:30AM");
    assert_eq!(show(at(2024, 3, 20, 23, 59, 59), false), "Next Wednesday");
    assert_eq!(show(at(2024, 4, 2, 23, 59, 59), false), "4/2");
    assert_eq!(show(at(2024, 4, 2, 0, 15, 0), false), "4/2 12:15AM");
    assert_eq!(show(at(2024, 3, 1, 12, 0, 0), false), "2024/03/01");
    assert_eq!(show(at(2025, 1, 5, 12, 0, 0), false), "2025/01/05");
    assert_eq!(show(at(2024, 3, 1, 12, 0, 0), true), "2024/3/1 12:00PM");
    assert_eq!(show(at(2024, 3, 13, 7, 0, 0), true), "Today 7:00AM");
}

#[test]
fn rows_of_tasks_and_records() {
    let mut task = Item::with_target_time(
        "task".to_string(),
        "home".to_string(),
        "water plants".to_string(),
        Some(1_700_000_000),
    );
    task.status = 1;
    let row = DisplayRow::from_task(3, &task);
    assert_eq!(row.index, "3");
    assert_eq!(row.category, "home");
    assert_eq!(row.content, "water plants");
    assert!(row.timestr.ends_with(" (completed)"));

    let record = Item::with_create_time(
        "record".to_string(),
        "feeding".to_string(),
        "120ml".to_string(),
        1_700_000_000,
    );
    let row = DisplayRow::from_record(12, &record);
    assert_eq!(row.index, "12");
    assert_eq!(row.category, "feeding");
    assert!(!row.timestr.is_empty());
}
