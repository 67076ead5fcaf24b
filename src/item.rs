use vstd::prelude::*;

use crate::clock::now_epoch;
use crate::text::{chars_of, same_chars, string_of};

verus! {

/// A task or record entry.
#[derive(Debug, Clone)]
pub struct Item {
    pub id: Option<i64>,
    pub action: String,
    pub category: String,
    pub content: String,
    pub create_time: i64,
    pub target_time: Option<i64>,
    pub modify_time: Option<i64>,
    pub status: u8,
}

impl Item {
    /// A new, unsaved, ongoing entry created now.
    pub fn new(action: String, category: String, content: String) -> (r: Self)
        ensures
            r.id is None,
            r.action == action,
            r.category == category,
            r.content == content,
            r.target_time is None,
            r.modify_time is None,
            r.status == 0,
    {
        let now = now_epoch();
        Item {
            id: None,
            action,
            category,
            content,
            create_time: now,
            target_time: None,
            modify_time: None,
            status: 0,
        }
    }

    /// A new entry created now, due at `target_time`.
    pub fn with_target_time(action: String, category: String, content: String, target_time: Option<i64>) -> (r: Self)
        ensures
            r.id is None,
            r.action == action,
            r.category == category,
            r.content == content,
            r.target_time == target_time,
            r.modify_time is None,
            r.status == 0,
    {
        let mut item = Self::new(action, category, content);
        item.target_time = target_time;
        item
    }

    /// A new entry with a given creation time, for backfills.
    pub fn with_create_time(action: String, category: String, content: String, create_time: i64) -> (r: Self)
        ensures
            r.id is None,
            r.action == action,
            r.category == category,
            r.content == content,
            r.create_time == create_time,
            r.target_time is None,
            r.modify_time is None,
            r.status == 0,
    {
        let mut item = Self::new(action, category, content);
        item.create_time = create_time;
        item
    }
}

/// Where a page of a listing starts; `Unset` starts at the beginning.
#[derive(Debug, PartialEq, Eq, Structural, Clone, Copy)]
pub enum Offset {
    Unset,
    Id(i64),
    CreateTime(i64),
    TargetTime(i64),
}

/// The filters, order and page of a query over entries.
#[derive(Debug)]
pub struct ItemQuery<'a> {
    pub action: Option<&'a str>,
    pub category: Option<&'a str>,
    pub content_like: Option<&'a str>,
    pub create_time_min: Option<i64>,
    pub create_time_max: Option<i64>,
    pub target_time_min: Option<i64>,
    pub target_time_max: Option<i64>,
    pub statuses: Option<Vec<u8>>,
    pub limit: Option<usize>,
    pub offset: Offset,
    pub order_by: Option<&'a str>,
}

impl<'a> ItemQuery<'a> {
    /// A query with no filter, no limit, and no offset.
    pub fn new() -> (r: Self)
        ensures
            r.action is None && r.category is None && r.content_like is None,
            r.create_time_min is None && r.create_time_max is None,
            r.target_time_min is None && r.target_time_max is None,
            r.statuses is None && r.limit is None && r.offset == Offset::Unset,
            r.order_by is None,
    {
        ItemQuery {
            action: None,
            category: None,
            content_like: None,
            create_time_min: None,
            create_time_max: None,
            target_time_min: None,
            target_time_max: None,
            statuses: None,
            limit: None,
            offset: Offset::Unset,
            order_by: None,
        }
    }

    pub fn with_action(self, action: &'a str) -> (r: Self)
        ensures
            r.action == Some(action),
            r.category == self.category && r.content_like == self.content_like,
            r.create_time_min == self.create_time_min && r.create_time_max == self.create_time_max,
            r.target_time_min == self.target_time_min && r.target_time_max == self.target_time_max,
            r.statuses == self.statuses && r.limit == self.limit && r.offset == self.offset,
            r.order_by == self.order_by,
    {
        ItemQuery { action: Some(action), ..self }
    }

    pub fn with_category(self, category: &'a str) -> (r: Self)
        ensures
            r.category == Some(category),
            r.action == self.action && r.content_like == self.content_like,
            r.create_time_min == self.create_time_min && r.create_time_max == self.create_time_max,
            r.target_time_min == self.target_time_min && r.target_time_max == self.target_time_max,
            r.statuses == self.statuses && r.limit == self.limit && r.offset == self.offset,
            r.order_by == self.order_by,
    {
        ItemQuery { category: Some(category), ..self }
    }

    pub fn with_content_like(self, content: &'a str) -> (r: Self)
        ensures
            r.content_like == Some(content),
            r.action == self.action && r.category == self.category,
            r.create_time_min == self.create_time_min && r.create_time_max == self.create_time_max,
            r.target_time_min == self.target_time_min && r.target_time_max == self.target_time_max,
            r.statuses == self.statuses && r.limit == self.limit && r.offset == self.offset,
            r.order_by == self.order_by,
    {
        ItemQuery { content_like: Some(content), ..self }
    }

    pub fn with_create_time_range(self, min: Option<i64>, max: Option<i64>) -> (r: Self)
        ensures
            r.create_time_min == min && r.create_time_max == max,
            r.action == self.action && r.category == self.category && r.content_like == self.content_like,
            r.target_time_min == self.target_time_min && r.target_time_max == self.target_time_max,
            r.statuses == self.statuses && r.limit == self.limit && r.offset == self.offset,
            r.order_by == self.order_by,
    {
        ItemQuery { create_time_min: min, create_time_max: max, ..self }
    }

    pub fn with_target_time_range(self, min: Option<i64>, max: Option<i64>) -> (r: Self)
        ensures
            r.target_time_min == min && r.target_time_max == max,
            r.action == self.action && r.category == self.category && r.content_like == self.content_like,
            r.create_time_min == self.create_time_min && r.create_time_max == self.create_time_max,
            r.statuses == self.statuses && r.limit == self.limit && r.offset == self.offset,
            r.order_by == self.order_by,
    {
        ItemQuery { target_time_min: min, target_time_max: max, ..self }
    }

    pub fn with_create_time_min(self, create_time_min: i64) -> (r: Self)
        ensures
            r.create_time_min == Some(create_time_min) && r.create_time_max == self.create_time_max,
            r.action == self.action && r.category == self.category && r.content_like == self.content_like,
            r.target_time_min == self.target_time_min && r.target_time_max == self.target_time_max,
            r.statuses == self.statuses && r.limit == self.limit && r.offset == self.offset,
            r.order_by == self.order_by,
    {
        ItemQuery { create_time_min: Some(create_time_min), ..self }
    }

    pub fn with_create_time_max(self, create_time_max: i64) -> (r: Self)
        ensures
            r.create_time_max == Some(create_time_max) && r.create_time_min == self.create_time_min,
            r.action == self.action && r.category == self.category && r.content_like == self.content_like,
            r.target_time_min == self.target_time_min && r.target_time_max == self.target_time_max,
            r.statuses == self.statuses && r.limit == self.limit && r.offset == self.offset,
            r.order_by == self.order_by,
    {
        ItemQuery { create_time_max: Some(create_time_max), ..self }
    }

    pub fn with_target_time_min(self, target_time_min: i64) -> (r: Self)
        ensures
            r.target_time_min == Some(target_time_min) && r.target_time_max == self.target_time_max,
            r.action == self.action && r.category == self.category && r.content_like == self.content_like,
            r.create_time_min == self.create_time_min && r.create_time_max == self.create_time_max,
            r.statuses == self.statuses && r.limit == self.limit && r.offset == self.offset,
            r.order_by == self.order_by,
    {
        ItemQuery { target_time_min: Some(target_time_min), ..self }
    }

    pub fn with_target_time_max(self, target_time_max: i64) -> (r: Self)
        ensures
            r.target_time_max == Some(target_time_max) && r.target_time_min == self.target_time_min,
            r.action == self.action && r.category == self.category && r.content_like == self.content_like,
            r.create_time_min == self.create_time_min && r.create_time_max == self.create_time_max,
            r.statuses == self.statuses && r.limit == self.limit && r.offset == self.offset,
            r.order_by == self.order_by,
    {
        ItemQuery { target_time_max: Some(target_time_max), ..self }
    }

    pub fn with_statuses(self, statuses: Vec<u8>) -> (r: Self)
        ensures
            r.statuses == Some(statuses),
            r.action == self.action && r.category == self.category && r.content_like == self.content_like,
            r.create_time_min == self.create_time_min && r.create_time_max == self.create_time_max,
            r.target_time_min == self.target_time_min && r.target_time_max == self.target_time_max,
            r.limit == self.limit && r.offset == self.offset && r.order_by == self.order_by,
    {
        ItemQuery { statuses: Some(statuses), ..self }
    }

    pub fn with_limit(self, limit: usize) -> (r: Self)
        ensures
            r.limit == Some(limit),
            r.action == self.action && r.category == self.category && r.content_like == self.content_like,
            r.create_time_min == self.create_time_min && r.create_time_max == self.create_time_max,
            r.target_time_min == self.target_time_min && r.target_time_max == self.target_time_max,
            r.statuses == self.statuses && r.offset == self.offset && r.order_by == self.order_by,
    {
        ItemQuery { limit: Some(limit), ..self }
    }

    pub fn with_offset(self, offset: Offset) -> (r: Self)
        ensures
            r.offset == offset,
            r.action == self.action && r.category == self.category && r.content_like == self.content_like,
            r.create_time_min == self.create_time_min && r.create_time_max == self.create_time_max,
            r.target_time_min == self.target_time_min && r.target_time_max == self.target_time_max,
            r.statuses == self.statuses && r.limit == self.limit && r.order_by == self.order_by,
    {
        ItemQuery { offset, ..self }
    }

    pub fn with_order_by(self, order_by: &'a str) -> (r: Self)
        ensures
            r.order_by == Some(order_by),
            r.action == self.action && r.category == self.category && r.content_like == self.content_like,
            r.create_time_min == self.create_time_min && r.create_time_max == self.create_time_max,
            r.target_time_min == self.target_time_min && r.target_time_max == self.target_time_max,
            r.statuses == self.statuses && r.limit == self.limit && r.offset == self.offset,
    {
        ItemQuery { order_by: Some(order_by), ..self }
    }
}

/// Changes a batch update applies; an absent field stays as it is.
#[derive(Debug)]
pub struct ItemUpdates {
    pub category: Option<String>,
    pub status: Option<u8>,
    pub target_time: Option<i64>,
}

/// Counts of entries of one category, by action kind.
#[derive(Debug)]
pub struct StatRow {
    pub category: String,
    pub task: usize,
    pub record: usize,
    pub recurring_task: usize,
    pub recurring_task_record: usize,
    pub total: usize,
}

/// Per-category counts with their column totals.
#[derive(Debug)]
pub struct StatTable {
    pub rows: Vec<StatRow>,
    pub totals: StatRow,
}

/// The action kinds a batch operation may select.
pub open spec fn action_kinds() -> Set<Seq<char>> {
    set!["task"@, "record"@, "recurring_task"@, "recurring_task_record"@]
}

/// Reads the action selector of a batch operation: `all` selects every kind (`None`); a
/// single kind selects itself; anything else is refused, handing back the text given.
pub fn parse_action_filter(action: &str) -> (r: Result<Option<Vec<String>>, String>)
    ensures
        action@ == "all"@ ==> r == Ok::<Option<Vec<String>>, String>(None),
        action_kinds().contains(action@) ==> (r matches Ok(Some(v)) && v@.len() == 1 && v@[0]@ == action@),
        action@ != "all"@ && !action_kinds().contains(action@) ==> (r matches Err(e) && e@ == action@),
{
    let cs = chars_of(action);
    let text = string_of(&cs);
    if same_chars(&cs, "all") {
        proof {
            reveal_strlit("all");
            reveal_strlit("task");
            reveal_strlit("record");
            reveal_strlit("recurring_task");
            reveal_strlit("recurring_task_record");
            assert("all"@.len() == 3 && "task"@.len() == 4 && "record"@.len() == 6);
            assert("recurring_task"@.len() == 14 && "recurring_task_record"@.len() == 21);
            assert(!action_kinds().contains(action@));
        }
        Ok(None)
    } else if same_chars(&cs, "task") || same_chars(&cs, "record") || same_chars(&cs, "recurring_task")
        || same_chars(&cs, "recurring_task_record") {
        Ok(Some(vec![text]))
    } else {
        Err(text)
    }
}

} // verus!
