use planner::filter::TaskFilter;
use planner::model::{Date, Id, Task, Timestamp};

fn task(id: u128, date: Option<i32>, backlog: Option<u128>) -> Task {
    Task {
        id: Id(id),
        title: String::from("Buy milk"),
        important: false,
        urgent: false,
        content: None,
        completed: false,
        role_id: None,
        backlog_id: backlog.map(Id),
        scheduled_date: date.map(|days| Date { days }),
        created_at: Timestamp { secs: 1_700_000_000, nanos: 0 },
        updated_at: None,
        deleted_at: None,
    }
}

#[test]
fn inbox_filter_sets_no_field() {
    let inbox = TaskFilter::inbox();
    assert_eq!(inbox.scheduled_date, None);
    assert_eq!(inbox.backlog_id, None);
    assert!(inbox.is_inbox());
    assert!(inbox.is_single());
}

#[test]
fn day_and_backlog_filters_set_one_field() {
    let day = TaskFilter::for_day(Date { days: 738_000 });
    assert_eq!(day.scheduled_date, Some(Date { days: 738_000 }));
    assert_eq!(day.backlog_id, None);
    let board = TaskFilter::for_backlog(Id(7));
    assert_eq!(board.scheduled_date, None);
    assert_eq!(board.backlog_id, Some(Id(7)));
    assert!(!day.is_inbox() && !board.is_inbox());
    assert!(day.is_single() && board.is_single());
}

#[test]
fn filter_with_both_fields_is_not_single() {
    let both = TaskFilter { scheduled_date: Some(Date { days: 1 }), backlog_id: Some(Id(2)) };
    assert!(!both.is_single());
    assert!(!both.is_inbox());
}

#[test]
fn inbox_takes_only_unfiled_tasks() {
    let inbox = TaskFilter::inbox();
    assert!(inbox.matches(&task(1, None, None)));
    assert!(!inbox.matches(&task(1, Some(738_000), None)));
    assert!(!inbox.matches(&task(1, None, Some(7))));
    assert!(!inbox.matches(&task(1, Some(738_000), Some(7))));
}

#[test]
fn day_filter_takes_tasks_of_that_day() {
    let day = TaskFilter::for_day(Date { days: 738_000 });
    assert!(day.matches(&task(1, Some(738_000), None)));
    assert!(day.matches(&task(1, Some(738_000), Some(7))));
    assert!(!day.matches(&task(1, Some(738_001), None)));
    assert!(!day.matches(&task(1, None, None)));
    assert!(!day.matches(&task(1, None, Some(7))));
}

#[test]
fn backlog_filter_takes_tasks_of_that_backlog() {
    let board = TaskFilter::for_backlog(Id(7));
    assert!(board.matches(&task(1, None, Some(7))));
    assert!(board.matches(&task(1, Some(738_000), Some(7))));
    assert!(!board.matches(&task(1, None, Some(8))));
    assert!(!board.matches(&task(1, None, None)));
}

#[test]
fn filter_with_both_fields_asks_for_both() {
    let both = TaskFilter { scheduled_date: Some(Date { days: 5 }), backlog_id: Some(Id(7)) };
    assert!(both.matches(&task(1, Some(5), Some(7))));
    assert!(!both.matches(&task(1, Some(5), None)));
    assert!(!both.matches(&task(1, None, Some(7))));
    assert!(!both.matches(&task(1, Some(6), Some(7))));
}

#[test]
fn deleted_task_is_listed_nowhere() {
    let mut gone = task(1, Some(738_000), None);
    gone.deleted_at = Some(Timestamp { secs: 1_700_000_100, nanos: 0 });
    let day = TaskFilter::for_day(Date { days: 738_000 });
    assert!(day.matches(&gone));
    assert!(!day.lists(&gone));
    assert!(day.lists(&task(1, Some(738_000), None)));
    assert!(!TaskFilter::inbox().lists(&gone));
}

#[test]
fn task_with_one_filing_matches_one_filter() {
    let filters = [
        TaskFilter::inbox(),
        TaskFilter::for_day(Date { days: 738_000 }),
        TaskFilter::for_day(Date { days: 738_001 }),
        TaskFilter::for_backlog(Id(7)),
        TaskFilter::for_backlog(Id(8)),
        TaskFilter { scheduled_date: Some(Date { days: 738_000 }), backlog_id: Some(Id(7)) },
    ];
    let tasks = [
        task(1, None, None),
        task(2, Some(738_000), None),
        task(3, Some(738_001), None),
        task(4, None, Some(7)),
        task(5, None, Some(8)),
    ];
    for t in tasks.iter() {
        let mut count = 0;
        for f in filters.iter() {
            if f.matches(t) {
                count += 1;
            }
        }
        assert_eq!(count, 1);
    }
}

#[test]
fn task_with_date_and_backlog_matches_two_single_filters() {
    let t = task(1, Some(738_000), Some(7));
    assert!(TaskFilter::for_day(Date { days: 738_000 }).matches(&t));
    assert!(TaskFilter::for_backlog(Id(7)).matches(&t));
}

#[test]
fn filed_here_compares_date_and_backlog_together() {
    let day = TaskFilter::for_day(Date { days: 738_000 });
    assert!(day.is_filed_here(&task(1, Some(738_000), None)));
    assert!(!day.is_filed_here(&task(1, Some(738_000), Some(7))));
    assert!(!day.is_filed_here(&task(1, Some(738_001), None)));
    assert!(!day.is_filed_here(&task(1, None, None)));
    assert!(TaskFilter::inbox().is_filed_here(&task(1, None, None)));
    assert!(!TaskFilter::inbox().is_filed_here(&task(1, None, Some(7))));
    let both = TaskFilter { scheduled_date: Some(Date { days: 5 }), backlog_id: Some(Id(7)) };
    assert!(both.is_filed_here(&task(1, Some(5), Some(7))));
    assert!(!both.is_filed_here(&task(1, Some(5), None)));
}

#[test]
fn filing_sets_date_and_backlog_only() {
    let before = task(9, Some(738_000), None);
    let board = TaskFilter::for_backlog(Id(7));
    let after = board.file(before.clone());
    let mut expected = before.clone();
    expected.scheduled_date = None;
    expected.backlog_id = Some(Id(7));
    assert_eq!(after, expected);
    assert!(board.matches(&after));
    assert!(!TaskFilter::for_day(Date { days: 738_000 }).matches(&after));
    assert!(!TaskFilter::inbox().matches(&after));
}

#[test]
fn timestamps_are_ordered_by_seconds_then_nanoseconds() {
    let a = Timestamp { secs: 10, nanos: 5 };
    let b = Timestamp { secs: 10, nanos: 6 };
    let c = Timestamp { secs: 11, nanos: 0 };
    assert!(a.is_le(&a));
    assert!(a.is_le(&b));
    assert!(!b.is_le(&a));
    assert!(b.is_le(&c));
    assert!(!c.is_le(&a));
}

#[test]
fn version_field_is_read_from_bits_76_to_79() {
    assert_eq!(Id(0x0190_0000_0000_7000_8000_0000_0000_0000).version(), 7);
    assert_eq!(Id(0x0190_0000_0000_4abc_8000_0000_0000_0000).version(), 4);
    assert_eq!(Id(0).version(), 0);
    assert_eq!(Id(u128::MAX).version(), 15);
}
