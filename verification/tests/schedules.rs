use chrono::{Datelike, NaiveDate, Weekday};
use planner::filter::TaskFilter;
use planner::model::{Date, FIRST_DAY, LAST_DAY};
use planner::panels::{BacklogApp, BacklogBoard, BacklogList, BacklogManager, InboxApp};
use planner::error::GatewayError;
use planner::model::{Backlog, Id};
use planner::schedule::{DailySchedule, ScheduleApp, WeeklySchedule};

fn day_of(y: i32, m: u32, d: u32) -> Date {
    Date { days: NaiveDate::from_ymd_opt(y, m, d).unwrap().num_days_from_ce() }
}

fn monday_by_formula(days: i32) -> i32 {
    days - (days - 1).rem_euclid(7)
}

fn week_days(date: Date) -> Option<Vec<i32>> {
    WeeklySchedule::new(date).map(|w| w.days.iter().map(|d| d.day.days).collect())
}

#[test]
fn calendar_bounds_are_those_of_the_date_type() {
    assert_eq!(FIRST_DAY, NaiveDate::MIN.num_days_from_ce());
    assert_eq!(LAST_DAY, NaiveDate::MAX.num_days_from_ce());
    assert!(NaiveDate::from_num_days_from_ce_opt(FIRST_DAY).is_some());
    assert!(NaiveDate::from_num_days_from_ce_opt(FIRST_DAY - 1).is_none());
    assert!(NaiveDate::from_num_days_from_ce_opt(LAST_DAY).is_some());
    assert!(NaiveDate::from_num_days_from_ce_opt(LAST_DAY + 1).is_none());
    assert!(Date { days: FIRST_DAY }.is_in_calendar());
    assert!(Date { days: LAST_DAY }.is_in_calendar());
    assert!(!Date { days: FIRST_DAY - 1 }.is_in_calendar());
    assert!(!Date { days: LAST_DAY + 1 }.is_in_calendar());
    assert!(Date { days: 0 }.is_in_calendar());
}

#[test]
fn week_of_a_monday_starts_on_that_day() {
    let monday = day_of(2022, 4, 18);
    let week = WeeklySchedule::new(monday).unwrap();
    assert_eq!(week.days.len(), 7);
    for (i, day) in week.days.iter().enumerate() {
        assert_eq!(day.day.days, monday.days + i as i32);
        assert_eq!(day.list.filter, TaskFilter::for_day(day.day));
        assert!(day.list.tasks.is_empty());
        assert_eq!(day.list.new_task, "");
    }
}

#[test]
fn week_of_any_day_runs_from_monday_to_sunday() {
    let expected: Vec<i32> = (0..7).map(|i| day_of(2024, 2, 26).days + i).collect();
    for d in 26..=29 {
        assert_eq!(week_days(day_of(2024, 2, d)), Some(expected.clone()));
    }
    for d in 1..=3 {
        assert_eq!(week_days(day_of(2024, 3, d)), Some(expected.clone()));
    }
    let next: Vec<i32> = (0..7).map(|i| day_of(2024, 3, 4).days + i).collect();
    assert_eq!(week_days(day_of(2024, 3, 4)), Some(next));
}

#[test]
fn week_start_is_the_monday_by_day_number() {
    let anchors = [-95_000_000, -1_000_000, -400, 0, 1, 719_163, 738_000, 95_000_000];
    for anchor in anchors {
        for offset in 0..800 {
            let days = anchor + offset;
            let week = week_days(Date { days }).unwrap();
            let monday = monday_by_formula(days);
            assert_eq!(week, (0..7).map(|i| monday + i).collect::<Vec<i32>>());
            let first = NaiveDate::from_num_days_from_ce_opt(week[0]).unwrap();
            assert_eq!(first.weekday(), Weekday::Mon);
            assert_eq!(
                first,
                NaiveDate::from_num_days_from_ce_opt(days).unwrap().week(Weekday::Mon).first_day()
            );
        }
    }
}

#[test]
fn week_is_missing_where_a_day_leaves_the_calendar() {
    assert_eq!(week_days(Date { days: LAST_DAY + 1 }), None);
    assert_eq!(week_days(Date { days: FIRST_DAY - 1 }), None);
    assert_eq!(week_days(Date { days: i32::MAX }), None);
    assert_eq!(week_days(Date { days: i32::MIN }), None);
    for days in (LAST_DAY - 20)..=LAST_DAY {
        let fits = monday_by_formula(days) + 6 <= LAST_DAY;
        assert_eq!(week_days(Date { days }).is_some(), fits);
    }
    for days in FIRST_DAY..(FIRST_DAY + 20) {
        let fits = monday_by_formula(days) >= FIRST_DAY;
        assert_eq!(week_days(Date { days }).is_some(), fits);
    }
    assert!((LAST_DAY - 20..=LAST_DAY).any(|d| week_days(Date { days: d }).is_none()));
    assert!((FIRST_DAY..FIRST_DAY + 20).any(|d| week_days(Date { days: d }).is_none()));
    assert!((LAST_DAY - 20..=LAST_DAY).any(|d| week_days(Date { days: d }).is_some()));
    assert!((FIRST_DAY..FIRST_DAY + 20).any(|d| week_days(Date { days: d }).is_some()));
}

#[test]
fn week_number_is_the_iso_week() {
    assert_eq!(ScheduleApp::on(day_of(2015, 4, 6)).week_number(), Some(15));
    assert_eq!(ScheduleApp::on(day_of(2014, 12, 29)).week_number(), Some(1));
    assert_eq!(ScheduleApp::on(day_of(2020, 12, 31)).week_number(), Some(53));
    assert_eq!(ScheduleApp::on(day_of(2021, 1, 3)).week_number(), Some(53));
    assert_eq!(ScheduleApp::on(day_of(2021, 1, 4)).week_number(), Some(1));
    for days in 737_000..738_500 {
        let week = ScheduleApp::on(Date { days }).week_number().unwrap();
        assert!(1 <= week && week <= 53);
        assert_eq!(week, NaiveDate::from_num_days_from_ce_opt(days).unwrap().iso_week().week());
    }
    assert!(ScheduleApp::on(Date { days: FIRST_DAY }).week_number().is_some());
    assert!(ScheduleApp::on(Date { days: LAST_DAY }).week_number().is_some());
    assert_eq!(ScheduleApp::on(Date { days: LAST_DAY + 1 }).week_number(), None);
    assert_eq!(ScheduleApp::on(Date { days: FIRST_DAY - 1 }).week_number(), None);
}

#[test]
fn schedule_opens_on_the_current_day() {
    let before = chrono::Utc::now().date_naive().num_days_from_ce();
    let app = ScheduleApp::new();
    let after = chrono::Utc::now().date_naive().num_days_from_ce();
    assert!(before <= app.selected_date.days && app.selected_date.days <= after);
    assert!(app.selected_date.is_in_calendar());
    assert!(app.week().is_some());
    assert!(app.week_number().is_some());
}

#[test]
fn selecting_a_day_changes_the_week() {
    let mut app = ScheduleApp::on(day_of(2024, 2, 28));
    assert_eq!(app.week().unwrap().days[0].day, day_of(2024, 2, 26));
    assert_eq!(app.week_number(), Some(9));
    app.select(day_of(2024, 3, 5));
    assert_eq!(app.selected_date, day_of(2024, 3, 5));
    assert_eq!(app.week().unwrap().days[0].day, day_of(2024, 3, 4));
    assert_eq!(app.week().unwrap().days[6].day, day_of(2024, 3, 10));
    assert_eq!(app.week_number(), Some(10));
}

#[test]
fn daily_schedule_lists_its_day() {
    let day = DailySchedule::new(day_of(2024, 3, 5));
    assert_eq!(day.day, day_of(2024, 3, 5));
    assert_eq!(day.list.filter, TaskFilter::for_day(day_of(2024, 3, 5)));
    assert!(day.list.tasks.is_empty());
}

#[test]
fn inbox_lists_unfiled_tasks() {
    let inbox = InboxApp::new();
    assert_eq!(inbox.list.filter, TaskFilter::inbox());
    assert!(inbox.list.tasks.is_empty());
    assert_eq!(inbox.list.new_task, "");
}

#[test]
fn backlog_board_lists_its_backlog() {
    let board = BacklogBoard::new(Backlog { id: Id(7), name: String::from("Home") });
    assert_eq!(board.backlog, Backlog { id: Id(7), name: String::from("Home") });
    assert_eq!(board.list.filter, TaskFilter::for_backlog(Id(7)));
    assert!(board.list.tasks.is_empty());
}

#[test]
fn backlog_list_has_one_board_for_each_backlog() {
    let list = BacklogList::new(vec![
        Backlog { id: Id(7), name: String::from("Home") },
        Backlog { id: Id(8), name: String::from("Work") },
    ]);
    assert_eq!(list.boards.len(), 2);
    assert_eq!(list.boards[0].backlog.name, "Home");
    assert_eq!(list.boards[0].list.filter, TaskFilter::for_backlog(Id(7)));
    assert_eq!(list.boards[1].backlog.name, "Work");
    assert_eq!(list.boards[1].list.filter, TaskFilter::for_backlog(Id(8)));
    assert!(BacklogList::new(vec![]).boards.is_empty());
}

#[test]
fn backlog_panel_loads_and_opens_its_dialog() {
    let mut app = BacklogApp::new();
    assert!(!app.dialog_open);
    assert!(app.backlogs.is_empty());
    assert!(app.boards().boards.is_empty());
    app.set_dialog_open(true);
    assert!(app.dialog_open);
    app.load(Ok(vec![Backlog { id: Id(7), name: String::from("Home") }]));
    assert_eq!(app.backlogs, vec![Backlog { id: Id(7), name: String::from("Home") }]);
    assert!(app.dialog_open);
    app.load(Err(GatewayError::ConnectionError));
    assert_eq!(app.backlogs.len(), 1);
    let boards = app.boards();
    assert_eq!(boards.boards.len(), 1);
    assert_eq!(boards.boards[0].backlog, app.backlogs[0]);
    assert_eq!(boards.boards[0].list.filter, TaskFilter::for_backlog(Id(7)));
    app.set_dialog_open(false);
    assert!(!app.dialog_open);
    assert_eq!(app.backlogs.len(), 1);
}

#[test]
fn backlog_form_submits_a_name_once_typed() {
    let mut form = BacklogManager::new();
    assert_eq!(form.submit(), None);
    form.input(String::from("Home"));
    assert_eq!(form.submit(), Some(String::from("Home")));
    assert_eq!(form.new_backlog, "Home");
    form.created(Err(GatewayError::ConstraintError));
    assert_eq!(form.new_backlog, "Home");
    form.created(Ok(Backlog { id: Id(7), name: String::from("Home") }));
    assert_eq!(form.new_backlog, "");
    assert_eq!(form.submit(), None);
    form.input(String::from("Wor"));
    form.cancel();
    assert_eq!(form.new_backlog, "");
}
