//! The membership predicate of a view.

use vstd::prelude::*;
use crate::model::{Date, Id, Task, TaskView};

verus! {

/// Describes which tasks a view shows: the tasks of one day, the tasks of one
/// backlog, or, with both fields empty, the inbox.
#[derive(Clone, Copy, Debug, PartialEq, Eq, Structural)]
pub struct TaskFilter {
    pub scheduled_date: Option<Date>,
    pub backlog_id: Option<Id>,
}

impl TaskFilter {
    /// Whether a task filed under `date` and `backlog` belongs to the view.
    /// The inbox takes the tasks that have neither; any other filter asks
    /// each field that it sets to be equal.
    pub open spec fn accepts(self, date: Option<Date>, backlog: Option<Id>) -> bool {
        if self.scheduled_date is None && self.backlog_id is None {
            date is None && backlog is None
        } else {
            &&& self.scheduled_date is Some ==> date == self.scheduled_date
            &&& self.backlog_id is Some ==> backlog == self.backlog_id
        }
    }

    /// Whether the task belongs to the view, deleted or not.
    pub open spec fn admits(self, task: TaskView) -> bool {
        self.accepts(task.scheduled_date, task.backlog_id)
    }

    /// Whether the task is filed exactly where this filter points: its date
    /// and its backlog are the filter's. This is what a list goes by when a
    /// task is dropped. For a task that has a date or a backlog, but not
    /// both, it is the same as belonging to the view.
    pub open spec fn filed_here(self, task: TaskView) -> bool {
        task.scheduled_date == self.scheduled_date && task.backlog_id == self.backlog_id
    }

    /// Whether a query under this filter returns the task: it belongs to the
    /// view and is not deleted.
    pub open spec fn shows(self, task: TaskView) -> bool {
        task.deleted_at is None && self.admits(task)
    }

    /// At most one of the two fields is set.
    pub open spec fn single(self) -> bool {
        self.scheduled_date is None || self.backlog_id is None
    }

    /// The task with this filter's date and backlog in place of its own.
    pub open spec fn filed(self, task: TaskView) -> TaskView {
        TaskView { scheduled_date: self.scheduled_date, backlog_id: self.backlog_id, ..task }
    }

    /// The filter of the inbox.
    pub fn inbox() -> (r: TaskFilter)
        ensures
            r == (TaskFilter { scheduled_date: None, backlog_id: None }),
    {
        TaskFilter { scheduled_date: None, backlog_id: None }
    }

    /// The filter of one day's list.
    pub fn for_day(day: Date) -> (r: TaskFilter)
        ensures
            r == (TaskFilter { scheduled_date: Some(day), backlog_id: None }),
    {
        TaskFilter { scheduled_date: Some(day), backlog_id: None }
    }

    /// The filter of one backlog's board.
    pub fn for_backlog(backlog: Id) -> (r: TaskFilter)
        ensures
            r == (TaskFilter { scheduled_date: None, backlog_id: Some(backlog) }),
    {
        TaskFilter { scheduled_date: None, backlog_id: Some(backlog) }
    }

    /// Tells whether this is the inbox filter.
    pub fn is_inbox(&self) -> (r: bool)
        ensures
            r == (self.scheduled_date is None && self.backlog_id is None),
    {
        self.scheduled_date.is_none() && self.backlog_id.is_none()
    }

    /// Tells whether at most one field is set.
    pub fn is_single(&self) -> (r: bool)
        ensures
            r == self.single(),
    {
        self.scheduled_date.is_none() || self.backlog_id.is_none()
    }

    /// Tells whether the task belongs to the view, deleted or not.
    pub fn matches(&self, task: &Task) -> (r: bool)
        ensures
            r == self.admits(task@),
    {
        if self.is_inbox() {
            task.scheduled_date.is_none() && task.backlog_id.is_none()
        } else {
            (self.scheduled_date.is_none() || task.scheduled_date == self.scheduled_date) && (
            self.backlog_id.is_none() || task.backlog_id == self.backlog_id)
        }
    }

    /// Tells whether the task is filed exactly where this filter points.
    pub fn is_filed_here(&self, task: &Task) -> (r: bool)
        ensures
            r == self.filed_here(task@),
    {
        task.scheduled_date == self.scheduled_date && task.backlog_id == self.backlog_id
    }

    /// Tells whether a query under this filter returns the task.
    pub fn lists(&self, task: &Task) -> (r: bool)
        ensures
            r == self.shows(task@),
    {
        task.deleted_at.is_none() && self.matches(task)
    }

    /// Files the task under this filter: its date and backlog become the
    /// filter's, everything else stays.
    pub fn file(&self, task: Task) -> (r: Task)
        ensures
            r@ == self.filed(task@),
    {
        let mut filed = task;
        filed.scheduled_date = self.scheduled_date;
        filed.backlog_id = self.backlog_id;
        filed
    }
}

/// A task that has a date or a backlog, but not both, belongs to at most one
/// of two different filters.
pub proof fn lemma_filter_partition(task: TaskView, first: TaskFilter, second: TaskFilter)
    requires
        first != second,
        task.scheduled_date is None || task.backlog_id is None,
    ensures
        !(first.admits(task) && second.admits(task)),
{
}

/// A task filed under a filter belongs to that filter's view, and is filed
/// exactly there and under no other filter.
pub proof fn lemma_filed_is_admitted(task: TaskView, filter: TaskFilter, other: TaskFilter)
    ensures
        filter.admits(filter.filed(task)),
        filter.filed_here(filter.filed(task)),
        other != filter ==> !other.filed_here(filter.filed(task)),
        filter.filed(task).id == task.id,
{
}

/// A task that is filed exactly where a filter points belongs to the
/// filter's view; for a task that has a date or a backlog, but not both,
/// the two say the same.
pub proof fn lemma_filed_here_is_admitted(task: TaskView, filter: TaskFilter)
    ensures
        filter.filed_here(task) ==> filter.admits(task),
        task.scheduled_date is None || task.backlog_id is None ==> (filter.filed_here(task)
            <==> filter.admits(task)),
{
}

/// A task filed under a filter that sets at most one field belongs to no
/// other filter's view.
pub proof fn lemma_filed_is_admitted_once(task: TaskView, filter: TaskFilter, other: TaskFilter)
    requires
        filter.single(),
        other != filter,
    ensures
        !other.admits(filter.filed(task)),
{
}

} // verus!
