//! The weekly schedule: the selected day, its week, and one list for each
//! day of that week.

use vstd::prelude::*;
use crate::ambient::{days_after, iso_week, iso_week_of, now, week_start};
use crate::filter::TaskFilter;
use crate::list::{ItemList, ItemListView};
use crate::model::{Date, FIRST_DAY, LAST_DAY};
use crate::panels::empty_list;

verus! {

/// One day of the schedule with the list of the tasks filed under it.
pub struct DailySchedule {
    pub day: Date,
    pub list: ItemList,
}

/// The mathematical value of a [`DailySchedule`].
pub struct DailyScheduleView {
    pub day: Date,
    pub list: ItemListView,
}

impl View for DailySchedule {
    type V = DailyScheduleView;

    open spec fn view(&self) -> DailyScheduleView {
        DailyScheduleView { day: self.day, list: self.list@ }
    }
}

/// A day of the schedule before its list is filled.
pub open spec fn fresh_day(day: Date) -> DailyScheduleView {
    DailyScheduleView {
        day,
        list: empty_list(TaskFilter { scheduled_date: Some(day), backlog_id: None }),
    }
}

impl DailySchedule {
    /// A day of the schedule before its list is filled: the list takes the
    /// tasks that are scheduled for the day.
    pub fn new(day: Date) -> (r: DailySchedule)
        ensures
            r@ == fresh_day(day),
    {
        DailySchedule { day, list: ItemList::new(TaskFilter::for_day(day)) }
    }
}

/// The whole week of the day, Monday to Sunday, lies within the calendar.
pub open spec fn week_fits(date: Date) -> bool {
    date.in_calendar() && FIRST_DAY <= date.monday() && date.monday() + 6 <= LAST_DAY
}

/// The seven days of a week, Monday first.
pub struct WeeklySchedule {
    pub days: Vec<DailySchedule>,
}

impl WeeklySchedule {
    /// The week of `selected_date`: seven fresh days, from the Monday on or
    /// before the day to the Sunday after it. There is no such week where
    /// one of its days lies outside the calendar.
    pub fn new(selected_date: Date) -> (r: Option<WeeklySchedule>)
        ensures
            match r {
                Some(week) => {
                    &&& week_fits(selected_date)
                    &&& week.days@.len() == 7
                    &&& forall|i: int|
                        0 <= i < 7 ==> (#[trigger] week.days@[i])@ == fresh_day(
                            Date { days: (selected_date.monday() + i) as i32 },
                        )
                },
                None => !week_fits(selected_date),
            },
    {
        let monday = match week_start(selected_date) {
            Some(first) => first,
            None => {
                return None;
            },
        };
        let mut days: Vec<DailySchedule> = Vec::new();
        let mut i: u64 = 0;
        while i < 7
            invariant
                i <= 7,
                selected_date.in_calendar(),
                monday.in_calendar(),
                monday.days == selected_date.monday(),
                days@.len() == i,
                forall|j: int|
                    0 <= j < i ==> (#[trigger] days@[j])@ == fresh_day(
                        Date { days: (monday.days + j) as i32 },
                    ),
                i > 0 ==> monday.days + (i - 1) <= LAST_DAY,
            decreases 7 - i,
        {
            match days_after(monday, i) {
                Some(day) => {
                    days.push(DailySchedule::new(day));
                },
                None => {
                    return None;
                },
            }
            i += 1;
        }
        Some(WeeklySchedule { days })
    }
}

/// The schedule panel: the day that the user has selected.
pub struct ScheduleApp {
    pub selected_date: Date,
}

impl ScheduleApp {
    /// The schedule as it opens, on the current day. Which day that is, is
    /// not known beforehand; it lies within the calendar.
    pub fn new() -> (r: ScheduleApp)
        ensures
            r.selected_date.in_calendar(),
    {
        ScheduleApp { selected_date: now().date }
    }

    /// The schedule opened on a given day.
    pub fn on(date: Date) -> (r: ScheduleApp)
        ensures
            r.selected_date == date,
    {
        ScheduleApp { selected_date: date }
    }

    /// The user has picked another day.
    pub fn select(&mut self, date: Date)
        ensures
            final(self).selected_date == date,
    {
        self.selected_date = date;
    }

    /// The number of the ISO 8601 week of the selected day, between 1 and
    /// 53. There is none where the day lies outside the calendar.
    pub fn week_number(&self) -> (r: Option<u32>)
        ensures
            match r {
                Some(week) => self.selected_date.in_calendar() && week == iso_week_of(
                    self.selected_date.days as int,
                ) && 1 <= week <= 53,
                None => !self.selected_date.in_calendar(),
            },
    {
        iso_week(self.selected_date)
    }

    /// The week of the selected day.
    pub fn week(&self) -> (r: Option<WeeklySchedule>)
        ensures
            match r {
                Some(week) => {
                    &&& week_fits(self.selected_date)
                    &&& week.days@.len() == 7
                    &&& forall|i: int|
                        0 <= i < 7 ==> (#[trigger] week.days@[i])@ == fresh_day(
                            Date { days: (self.selected_date.monday() + i) as i32 },
                        )
                },
                None => !week_fits(self.selected_date),
            },
    {
        WeeklySchedule::new(self.selected_date)
    }
}

} // verus!
