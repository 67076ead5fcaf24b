use std::time::{SystemTime, UNIX_EPOCH};

use taskcal::item::{parse_action_filter, Item, ItemQuery, Offset};

#[test]
fn test_new_item() {
    let item = Item::new(
        "action".to_string(),
        "category".to_string(),
        "content".to_string(),
    );

    assert_eq!(item.action, "action");
    assert_eq!(item.category, "category");
    assert_eq!(item.content, "content");
    assert!(item.id.is_none());
    assert!(item.target_time.is_none());
    assert!(item.modify_time.is_none());
    assert_eq!(item.status, 0);
}

#[test]
fn test_with_target_time() {
    let target_time = SystemTime::now()
        .duration_since(UNIX_EPOCH)
        .unwrap()
        .as_secs() as i64
        + 3600; // One hour in the future

    let item = Item::with_target_time(
        "action".to_string(),
        "category".to_string(),
        "content".to_string(),
        Some(target_time),
    );

    assert_eq!(item.action, "action");
    assert_eq!(item.category, "category");
    assert_eq!(item.content, "content");
    assert_eq!(item.target_time, Some(target_time));
}

#[test]
fn test_with_create_time() {
    let create_time = 1700000000;

    let item = Item::with_create_time(
        "action".to_string(),
        "category".to_string(),
        "content".to_string(),
        create_time,
    );

    assert_eq!(item.create_time, create_time);
}

#[test]
fn test_item_query_builder() {
    // Test default values from new()
    let query = ItemQuery::new();
    assert_eq!(query.action, None);
    assert_eq!(query.category, None);
    assert_eq!(query.create_time_min, None);
    assert_eq!(query.create_time_max, None);
    assert_eq!(query.target_time_min, None);
    assert_eq!(query.target_time_max, None);
    assert_eq!(query.statuses, None);
    assert_eq!(query.limit, None);
    assert_eq!(query.offset, Offset::Unset);
    assert_eq!(query.order_by, None);

    let query = ItemQuery::new().with_action("task");
    assert_eq!(query.action, Some("task"));

    let query = ItemQuery::new().with_create_time_range(Some(1000), Some(2000));
    assert_eq!(query.create_time_min, Some(1000));
    assert_eq!(query.create_time_max, Some(2000));

    let query = ItemQuery::new().with_target_time_range(Some(3000), Some(4000));
    assert_eq!(query.target_time_min, Some(3000));
    assert_eq!(query.target_time_max, Some(4000));

    let query = ItemQuery::new().with_statuses(vec![0]);
    assert_eq!(query.statuses, Some(vec![0]));

    let query = ItemQuery::new().with_limit(100);
    assert_eq!(query.limit, Some(100));

    // Test chaining
    let query = ItemQuery::new()
        .with_action("record")
        .with_category("feeding")
        .with_create_time_min(40000)
        .with_limit(100);

    assert_eq!(query.action, Some("record"));
    assert_eq!(query.category, Some("feeding"));
    assert_eq!(query.create_time_min, Some(40000));
    assert_eq!(query.create_time_max, None);
    assert_eq!(query.target_time_min, None);
    assert_eq!(query.target_time_max, None);
    assert_eq!(query.statuses, None);
    assert_eq!(query.limit, Some(100));
    assert_eq!(query.offset, Offset::Unset);
    assert_eq!(query.order_by, None);
}

#[test]
fn query_builder_remaining_setters() {
    let query = ItemQuery::new()
        .with_content_like("milk")
        .with_create_time_max(7)
        .with_target_time_min(8)
        .with_target_time_max(9)
        .with_offset(Offset::Id(42))
        .with_order_by("create_time");
    assert_eq!(query.content_like, Some("milk"));
    assert_eq!(query.create_time_max, Some(7));
    assert_eq!(query.target_time_min, Some(8));
    assert_eq!(query.target_time_max, Some(9));
    assert_eq!(query.offset, Offset::Id(42));
    assert_eq!(query.order_by, Some("create_time"));
    assert_eq!(query.action, None);
}

#[test]
fn test_parse_action_filter() {
    assert_eq!(parse_action_filter("all").unwrap(), None);
    assert_eq!(
        parse_action_filter("task").unwrap(),
        Some(vec!["task".to_string()])
    );
    assert_eq!(
        parse_action_filter("record").unwrap(),
        Some(vec!["record".to_string()])
    );
    assert!(parse_action_filter("invalid").is_err());
}

#[test]
fn action_filter_other_kinds() {
    assert_eq!(
        parse_action_filter("recurring_task_record").unwrap(),
        Some(vec!["recurring_task_record".to_string()])
    );
    assert_eq!(parse_action_filter("Task"), Err("Task".to_string()));
}
