//! The persistence gateway's rules on an in-memory table of tasks.

use vstd::prelude::*;
use crate::error::GatewayError;
use crate::filter::TaskFilter;
use crate::model::{Date, Id, Task, TaskView, Timestamp};
use crate::seqs::{holds, lemma_views_push, views};

verus! {

/// The record that creating a task stores: the given title and filing,
/// every flag off, no note, no role, never updated and not deleted.
pub open spec fn fresh_task(
    id: Id,
    title: Seq<char>,
    date: Option<Date>,
    backlog_id: Option<Id>,
    now: Timestamp,
) -> TaskView {
    TaskView {
        id,
        title,
        important: false,
        urgent: false,
        content: None,
        completed: false,
        role_id: None,
        backlog_id,
        scheduled_date: date,
        created_at: now,
        updated_at: None,
        deleted_at: None,
    }
}

/// The time that an update at the clock reading `now` stamps on the stored
/// record `row`: the reading, unless the record was created or last updated
/// later than that; then the latest of those. So the time of update never
/// goes back, whatever the clock does.
pub open spec fn stamp(row: TaskView, now: Timestamp) -> Timestamp {
    let floor = match row.updated_at {
        Some(last) => row.created_at.later_of(last),
        None => row.created_at,
    };
    floor.later_of(now)
}

/// The stored record `row` after an update with `task` at the clock reading
/// `now`: the identifier, the time of creation and the deletion mark stay;
/// every other field is the task's; the time of the update is
/// [`stamp`]`(row, now)`.
pub open spec fn merged(row: TaskView, task: TaskView, now: Timestamp) -> TaskView {
    TaskView {
        id: row.id,
        created_at: row.created_at,
        deleted_at: row.deleted_at,
        updated_at: Some(stamp(row, now)),
        ..task
    }
}

/// The stamp of an update is not earlier than the clock reading, than the
/// record's creation, or than the record's last update.
pub proof fn lemma_stamp_moves_forward(row: TaskView, now: Timestamp)
    ensures
        now.le(stamp(row, now)),
        row.created_at.le(stamp(row, now)),
        row.updated_at is Some ==> row.updated_at->0.le(stamp(row, now)),
        row.created_at.le(now) && (row.updated_at is Some ==> row.updated_at->0.le(now)) ==> stamp(
            row,
            now,
        ) == now,
{
}

/// The stored record `row` after a soft delete at time `now`: a record that
/// is not deleted yet is marked; one that is stays as it is.
pub open spec fn marked(row: TaskView, now: Timestamp) -> TaskView {
    if row.deleted_at is None {
        TaskView { deleted_at: Some(now), ..row }
    } else {
        row
    }
}

/// The predicate "a query under `filter` returns the task".
pub open spec fn shown_by(filter: TaskFilter) -> spec_fn(TaskView) -> bool {
    |t: TaskView| filter.shows(t)
}

/// No two tasks of the sequence carry the same identifier.
pub open spec fn distinct_ids(tasks: Seq<TaskView>) -> bool {
    forall|i: int, j: int|
        0 <= i < j < tasks.len() ==> (#[trigger] tasks[i]).id != (#[trigger] tasks[j]).id
}

/// Every task of the sequence has a title.
pub open spec fn titled(tasks: Seq<TaskView>) -> bool {
    forall|i: int| 0 <= i < tasks.len() ==> (#[trigger] tasks[i]).title.len() > 0
}

/// One request to the task table.
pub enum TableOp {
    /// Store the given task as a new row.
    Insert(TaskView),
    /// Update the row that carries the task's identifier, at this time.
    Update(TaskView, Timestamp),
    /// Mark the row that carries this identifier as deleted at this time.
    Delete(Id, Timestamp),
}

/// The rows of the task table, in the order in which they were stored.
pub struct TaskTableView {
    pub tasks: Seq<TaskView>,
}

impl TaskTableView {
    /// The table's invariant: identifiers are unique and every task has a
    /// title.
    pub open spec fn wf(self) -> bool {
        distinct_ids(self.tasks) && titled(self.tasks)
    }

    /// Some row carries `id`.
    pub open spec fn has(self, id: Id) -> bool {
        holds(self.tasks, id)
    }

    /// A row that carries `id`. In a well-formed table there is at most one.
    pub open spec fn row(self, id: Id) -> TaskView {
        let i = choose|i: int| 0 <= i < self.tasks.len() && (#[trigger] self.tasks[i]).id == id;
        self.tasks[i]
    }

    /// The table with one more row at its end.
    pub open spec fn inserted(self, task: TaskView) -> TaskTableView {
        TaskTableView { tasks: self.tasks.push(task) }
    }

    /// What a query under `filter` returns: the rows that belong to the view
    /// and are not deleted, in the table's order.
    pub open spec fn listed(self, filter: TaskFilter) -> Seq<TaskView> {
        self.tasks.filter(shown_by(filter))
    }

    /// The table after an update with `task` at time `now`.
    pub open spec fn updated(self, task: TaskView, now: Timestamp) -> TaskTableView {
        TaskTableView {
            tasks: self.tasks.map_values(
                |row: TaskView| if row.id == task.id {
                    merged(row, task, now)
                } else {
                    row
                },
            ),
        }
    }

    /// The table after a soft delete of `id` at time `now`.
    pub open spec fn deleted(self, id: Id, now: Timestamp) -> TaskTableView {
        TaskTableView {
            tasks: self.tasks.map_values(
                |row: TaskView| if row.id == id {
                    marked(row, now)
                } else {
                    row
                },
            ),
        }
    }

    /// The table after one request. A request that the table refuses
    /// leaves it as it was: a new row without a title or with a taken
    /// identifier, an update of a missing row or without a title, a delete
    /// of a missing row.
    pub open spec fn step(self, op: TableOp) -> TaskTableView {
        match op {
            TableOp::Insert(task) => if task.title.len() > 0 && !self.has(task.id) {
                self.inserted(task)
            } else {
                self
            },
            TableOp::Update(task, now) => if task.title.len() > 0 && self.has(task.id) {
                self.updated(task, now)
            } else {
                self
            },
            TableOp::Delete(id, now) => if self.has(id) {
                self.deleted(id, now)
            } else {
                self
            },
        }
    }

    /// The table after a sequence of requests, taken in order.
    pub open spec fn run(self, ops: Seq<TableOp>) -> TaskTableView
        decreases ops.len(),
    {
        if ops.len() == 0 {
            self
        } else {
            self.run(ops.drop_last()).step(ops.last())
        }
    }

    /// Some row carries `id`, and every row that does is marked as deleted.
    pub open spec fn gone(self, id: Id) -> bool {
        &&& self.has(id)
        &&& forall|i: int|
            0 <= i < self.tasks.len() && (#[trigger] self.tasks[i]).id == id
                ==> self.tasks[i].deleted_at is Some
    }
}

/// A well-formed table with one more row, which has a title and an
/// identifier that no row carries, is well formed.
pub proof fn lemma_push_keeps_wf(table: TaskTableView, task: TaskView)
    requires
        table.wf(),
        task.title.len() > 0,
        !table.has(task.id),
    ensures
        table.inserted(task).wf(),
{
    let after = table.inserted(task).tasks;
    assert forall|i: int, j: int| 0 <= i < j < after.len() implies (#[trigger] after[i]).id != (
    #[trigger] after[j]).id by {
        if j == table.tasks.len() {
            assert(table.tasks[i].id != task.id);
        } else {
            assert(table.tasks[i].id != table.tasks[j].id);
        }
    }
}

/// In a well-formed table, the row that carries the identifier of the row
/// at a position is the row at that position.
pub proof fn lemma_row_at(table: TaskTableView, i: int)
    requires
        table.wf(),
        0 <= i < table.tasks.len(),
    ensures
        table.has(table.tasks[i].id),
        table.row(table.tasks[i].id) == table.tasks[i],
{
    let id = table.tasks[i].id;
    let k = choose|k: int| 0 <= k < table.tasks.len() && (#[trigger] table.tasks[k]).id == id;
    if k < i {
        assert(table.tasks[k].id != table.tasks[i].id);
    } else if i < k {
        assert(table.tasks[i].id != table.tasks[k].id);
    }
}

/// In a well-formed table, an update touches the one row that carries the
/// task's identifier, and the table stays well formed.
pub proof fn lemma_update_at(table: TaskTableView, i: int, task: TaskView, now: Timestamp)
    requires
        table.wf(),
        0 <= i < table.tasks.len(),
        table.tasks[i].id == task.id,
        task.title.len() > 0,
    ensures
        table.row(task.id) == table.tasks[i],
        table.has(task.id),
        table.updated(task, now).tasks == table.tasks.update(
            i,
            merged(table.tasks[i], task, now),
        ),
        table.updated(task, now).wf(),
{
    lemma_row_at(table, i);
    let after = table.updated(task, now).tasks;
    let direct = table.tasks.update(i, merged(table.tasks[i], task, now));
    assert forall|j: int| 0 <= j < after.len() implies after[j] == direct[j] by {
        if j < i {
            assert(table.tasks[j].id != table.tasks[i].id);
        } else if i < j {
            assert(table.tasks[i].id != table.tasks[j].id);
        }
    }
    assert(after =~= direct);
    assert forall|a: int, b: int| 0 <= a < b < after.len() implies (#[trigger] after[a]).id != (
    #[trigger] after[b]).id by {
        assert(table.tasks[a].id != table.tasks[b].id);
    }
    assert forall|a: int| 0 <= a < after.len() implies (#[trigger] after[a]).title.len() > 0 by {
        assert(table.tasks[a].title.len() > 0);
    }
}

/// In a well-formed table, a soft delete touches the one row that carries
/// the identifier, and the table stays well formed.
pub proof fn lemma_delete_at(table: TaskTableView, i: int, now: Timestamp)
    requires
        table.wf(),
        0 <= i < table.tasks.len(),
    ensures
        table.has(table.tasks[i].id),
        table.deleted(table.tasks[i].id, now).tasks == table.tasks.update(
            i,
            marked(table.tasks[i], now),
        ),
        table.deleted(table.tasks[i].id, now).wf(),
{
    let id = table.tasks[i].id;
    let after = table.deleted(id, now).tasks;
    let direct = table.tasks.update(i, marked(table.tasks[i], now));
    assert forall|j: int| 0 <= j < after.len() implies after[j] == direct[j] by {
        if j < i {
            assert(table.tasks[j].id != table.tasks[i].id);
        } else if i < j {
            assert(table.tasks[i].id != table.tasks[j].id);
        }
    }
    assert(after =~= direct);
    assert forall|a: int, b: int| 0 <= a < b < after.len() implies (#[trigger] after[a]).id != (
    #[trigger] after[b]).id by {
        assert(table.tasks[a].id != table.tasks[b].id);
    }
    assert forall|a: int| 0 <= a < after.len() implies (#[trigger] after[a]).title.len() > 0 by {
        assert(table.tasks[a].title.len() > 0);
    }
}

/// A time of update that is set stays set and does not go back.
pub open spec fn not_before(earlier: Option<Timestamp>, later: Option<Timestamp>) -> bool {
    match earlier {
        Some(time) => later is Some && time.le(later->0),
        None => true,
    }
}

/// Every row of `before` is still a row of `after`, at its place, with its
/// identifier and its time of creation; its time of update has not gone
/// back, and a deletion mark that it had is the mark that it has.
pub open spec fn moved_forward(before: TaskTableView, after: TaskTableView) -> bool {
    &&& before.tasks.len() <= after.tasks.len()
    &&& forall|i: int|
        0 <= i < before.tasks.len() ==> {
            &&& (#[trigger] after.tasks[i]).id == before.tasks[i].id
            &&& after.tasks[i].created_at == before.tasks[i].created_at
            &&& not_before(before.tasks[i].updated_at, after.tasks[i].updated_at)
            &&& before.tasks[i].deleted_at is Some ==> after.tasks[i].deleted_at
                == before.tasks[i].deleted_at
        }
}

/// No request removes a row, changes its identifier or its time of
/// creation, sets its time of update back, or takes a deletion mark away.
pub proof fn lemma_step_moves_forward(table: TaskTableView, op: TableOp)
    ensures
        moved_forward(table, table.step(op)),
{
    let after = table.step(op);
    assert forall|i: int| 0 <= i < table.tasks.len() implies {
        &&& (#[trigger] after.tasks[i]).id == table.tasks[i].id
        &&& after.tasks[i].created_at == table.tasks[i].created_at
        &&& not_before(table.tasks[i].updated_at, after.tasks[i].updated_at)
        &&& table.tasks[i].deleted_at is Some ==> after.tasks[i].deleted_at
            == table.tasks[i].deleted_at
    } by {
        match op {
            TableOp::Update(task, now) => {
                lemma_stamp_moves_forward(table.tasks[i], now);
            },
            _ => {},
        }
    }
}

/// Whatever is asked of the table, in whatever order and whatever the clock
/// reads: no row is lost, no time of update goes back, and no deletion mark
/// is taken away.
pub proof fn lemma_run_moves_forward(table: TaskTableView, ops: Seq<TableOp>)
    ensures
        moved_forward(table, table.run(ops)),
    decreases ops.len(),
{
    if ops.len() > 0 {
        let middle = table.run(ops.drop_last());
        lemma_run_moves_forward(table, ops.drop_last());
        lemma_step_moves_forward(middle, ops.last());
        let after = table.run(ops);
        assert forall|i: int| 0 <= i < table.tasks.len() implies {
            &&& (#[trigger] after.tasks[i]).id == table.tasks[i].id
            &&& after.tasks[i].created_at == table.tasks[i].created_at
            &&& not_before(table.tasks[i].updated_at, after.tasks[i].updated_at)
            &&& table.tasks[i].deleted_at is Some ==> after.tasks[i].deleted_at
                == table.tasks[i].deleted_at
        } by {
            assert(middle.tasks[i].id == table.tasks[i].id);
        }
    }
}

/// A query returns exactly the rows that its filter shows: each task that it
/// returns is a row that belongs to the view and is not deleted, and each
/// such row is returned.
pub proof fn lemma_listed_are_the_shown(table: TaskTableView, filter: TaskFilter, task: TaskView)
    ensures
        table.listed(filter).contains(task) <==> table.tasks.contains(task) && filter.shows(task),
{
    let found = table.listed(filter);
    if found.contains(task) {
        let k = choose|k: int| 0 <= k < found.len() && found[k] == task;
        table.tasks.lemma_filter_pred(shown_by(filter), k);
        table.tasks.lemma_filter_contains_rev(shown_by(filter), task);
    }
    if table.tasks.contains(task) && filter.shows(task) {
        let m = choose|m: int| 0 <= m < table.tasks.len() && table.tasks[m] == task;
        table.tasks.lemma_filter_contains(shown_by(filter), m);
    }
}

/// No double membership: a task that has a date or a backlog, but not both,
/// is returned by the queries of at most one of two different filters.
pub proof fn lemma_listed_under_one_filter(
    table: TaskTableView,
    task: TaskView,
    first: TaskFilter,
    second: TaskFilter,
)
    requires
        first != second,
        task.scheduled_date is None || task.backlog_id is None,
    ensures
        !(table.listed(first).contains(task) && table.listed(second).contains(task)),
{
    lemma_listed_are_the_shown(table, first, task);
    lemma_listed_are_the_shown(table, second, task);
}

/// After a soft delete of `id`, no query returns a task that carries `id`.
pub proof fn lemma_deleted_is_hidden(
    table: TaskTableView,
    id: Id,
    now: Timestamp,
    filter: TaskFilter,
)
    ensures
        !holds(table.deleted(id, now).listed(filter), id),
{
    let after = table.deleted(id, now);
    let found = after.listed(filter);
    if holds(found, id) {
        let k = choose|k: int| 0 <= k < found.len() && (#[trigger] found[k]).id == id;
        after.tasks.lemma_filter_pred(shown_by(filter), k);
        after.tasks.lemma_filter_contains_rev(shown_by(filter), found[k]);
        let m = choose|m: int| 0 <= m < after.tasks.len() && after.tasks[m] == found[k];
        assert(after.tasks[m] == marked(table.tasks[m], now));
    }
}

/// A soft delete of a stored task leaves the task gone.
pub proof fn lemma_delete_makes_gone(table: TaskTableView, id: Id, now: Timestamp)
    requires
        table.has(id),
    ensures
        table.deleted(id, now).gone(id),
{
    let after = table.deleted(id, now);
    let k = choose|k: int| 0 <= k < table.tasks.len() && (#[trigger] table.tasks[k]).id == id;
    assert(after.tasks[k].id == id);
    assert forall|i: int|
        0 <= i < after.tasks.len() && (#[trigger] after.tasks[i]).id
            == id implies after.tasks[i].deleted_at is Some by {
        assert(after.tasks[i] == marked(table.tasks[i], now));
    }
}

/// No request brings a task back that is gone.
pub proof fn lemma_step_keeps_gone(table: TaskTableView, id: Id, op: TableOp)
    requires
        table.gone(id),
    ensures
        table.step(op).gone(id),
{
    let after = table.step(op);
    let k = choose|k: int| 0 <= k < table.tasks.len() && (#[trigger] table.tasks[k]).id == id;
    match op {
        TableOp::Insert(task) => {
            if task.title.len() > 0 && !table.has(task.id) {
                assert(after.tasks[k].id == id);
                assert forall|i: int|
                    0 <= i < after.tasks.len() && (#[trigger] after.tasks[i]).id
                        == id implies after.tasks[i].deleted_at is Some by {
                    if i < table.tasks.len() {
                        assert(table.tasks[i].id == id);
                    }
                }
            }
        },
        TableOp::Update(task, now) => {
            if task.title.len() > 0 && table.has(task.id) {
                assert(after.tasks[k].id == id);
                assert forall|i: int|
                    0 <= i < after.tasks.len() && (#[trigger] after.tasks[i]).id
                        == id implies after.tasks[i].deleted_at is Some by {
                    assert(table.tasks[i].id == id);
                }
            }
        },
        TableOp::Delete(other, now) => {
            if table.has(other) {
                assert(after.tasks[k].id == id);
                assert forall|i: int|
                    0 <= i < after.tasks.len() && (#[trigger] after.tasks[i]).id
                        == id implies after.tasks[i].deleted_at is Some by {
                    assert(table.tasks[i].id == id);
                }
            }
        },
    }
}

/// No query returns a task that is gone.
pub proof fn lemma_gone_is_hidden(table: TaskTableView, id: Id, filter: TaskFilter)
    requires
        table.gone(id),
    ensures
        !holds(table.listed(filter), id),
{
    let found = table.listed(filter);
    if holds(found, id) {
        let k = choose|k: int| 0 <= k < found.len() && (#[trigger] found[k]).id == id;
        table.tasks.lemma_filter_pred(shown_by(filter), k);
        table.tasks.lemma_filter_contains_rev(shown_by(filter), found[k]);
        let m = choose|m: int| 0 <= m < table.tasks.len() && table.tasks[m] == found[k];
        assert(table.tasks[m].id == id);
    }
}

/// Once a stored task has been deleted, no query under any filter returns
/// it, whatever is asked of the table afterwards.
pub proof fn lemma_deleted_stays_hidden(
    table: TaskTableView,
    id: Id,
    now: Timestamp,
    ops: Seq<TableOp>,
    filter: TaskFilter,
)
    requires
        table.has(id),
    ensures
        table.deleted(id, now).run(ops).gone(id),
        !holds(table.deleted(id, now).run(ops).listed(filter), id),
    decreases ops.len(),
{
    if ops.len() == 0 {
        lemma_delete_makes_gone(table, id, now);
    } else {
        lemma_deleted_stays_hidden(table, id, now, ops.drop_last(), filter);
        lemma_step_keeps_gone(table.deleted(id, now).run(ops.drop_last()), id, ops.last());
    }
    lemma_gone_is_hidden(table.deleted(id, now).run(ops), id, filter);
}

/// No query returns a task with an identifier that no row carries.
pub proof fn lemma_absent_is_hidden(table: TaskTableView, id: Id, filter: TaskFilter)
    requires
        !table.has(id),
    ensures
        !holds(table.listed(filter), id),
{
    let found = table.listed(filter);
    if holds(found, id) {
        let k = choose|k: int| 0 <= k < found.len() && (#[trigger] found[k]).id == id;
        table.tasks.lemma_filter_contains_rev(shown_by(filter), found[k]);
        let m = choose|m: int| 0 <= m < table.tasks.len() && table.tasks[m] == found[k];
        assert(table.tasks[m].id == id);
    }
}

/// The table of tasks behind the gateway. Its rows keep the invariant of
/// [`TaskTableView::wf`], whatever is asked of it.
pub struct TaskTable {
    rows: Vec<Task>,
}

impl View for TaskTable {
    type V = TaskTableView;

    closed spec fn view(&self) -> TaskTableView {
        TaskTableView { tasks: views(self.rows@) }
    }
}

impl TaskTable {
    #[verifier::type_invariant]
    spec fn inv(self) -> bool {
        self@.wf()
    }

    /// An empty table.
    pub fn new() -> (r: TaskTable)
        ensures
            r@.tasks == Seq::<TaskView>::empty(),
            r@.wf(),
    {
        let r = TaskTable { rows: Vec::new() };
        assert(views(r.rows@) =~= Seq::<TaskView>::empty());
        r
    }

    /// Hands the rows out and leaves the table empty, so that they can be
    /// changed and put back.
    fn take_rows(&mut self) -> (rows: Vec<Task>)
        ensures
            rows@ == old(self).rows@,
            final(self).rows@ == Seq::<Task>::empty(),
    {
        let mut rows: Vec<Task> = Vec::new();
        proof {
            assert(views(rows@) =~= Seq::<TaskView>::empty());
        }
        std::mem::swap(&mut self.rows, &mut rows);
        rows
    }

    /// The position of the row that carries `id`.
    fn position(&self, id: Id) -> (r: Option<usize>)
        ensures
            match r {
                Some(i) => i < self.rows@.len() && self.rows@[i as int].id == id && self@.has(id),
                None => !self@.has(id),
            },
    {
        let mut i: usize = 0;
        while i < self.rows.len()
            invariant
                i <= self.rows@.len(),
                forall|j: int| 0 <= j < i ==> (#[trigger] self.rows@[j]).id != id,
            decreases self.rows@.len() - i,
        {
            if self.rows[i].id == id {
                assert(self@.tasks[i as int].id == id);
                return Some(i);
            }
            i += 1;
        }
        proof {
            if self@.has(id) {
                let j = choose|j: int|
                    0 <= j < self@.tasks.len() && (#[trigger] self@.tasks[j]).id == id;
                assert(self.rows@[j].id == id);
            }
        }
        None
    }

    /// Stores a new task under `id`, created at `now`. Refused with
    /// [`GatewayError::ConstraintError`] where the title is empty or the
    /// identifier is taken; the table is then unchanged.
    pub fn insert(
        &mut self,
        id: Id,
        title: String,
        date: Option<Date>,
        backlog_id: Option<Id>,
        now: Timestamp,
    ) -> (r: Result<Task, GatewayError>)
        ensures
            match r {
                Ok(task) => {
                    &&& title@.len() > 0
                    &&& !old(self)@.has(id)
                    &&& task@ == fresh_task(id, title@, date, backlog_id, now)
                    &&& final(self)@ == old(self)@.inserted(task@)
                },
                Err(e) => {
                    &&& e == GatewayError::ConstraintError
                    &&& title@.len() == 0 || old(self)@.has(id)
                    &&& final(self)@ == old(self)@
                },
            },
            final(self)@ == old(self)@.step(
                TableOp::Insert(fresh_task(id, title@, date, backlog_id, now)),
            ),
            final(self)@.wf(),
    {
        proof {
            use_type_invariant(&*self);
        }
        if title.as_str().is_empty() {
            return Err(GatewayError::ConstraintError);
        }
        if self.position(id).is_some() {
            return Err(GatewayError::ConstraintError);
        }
        let task = Task {
            id,
            title,
            important: false,
            urgent: false,
            content: None,
            completed: false,
            role_id: None,
            backlog_id,
            scheduled_date: date,
            created_at: now,
            updated_at: None,
            deleted_at: None,
        };
        let stored = task.clone();
        proof {
            lemma_views_push(self.rows@, stored);
            lemma_push_keeps_wf(self@, stored@);
        }
        let mut rows = self.take_rows();
        rows.push(stored);
        self.rows = rows;
        Ok(task)
    }

    /// Stores a task as it is given, with its own times and marks. Refused
    /// with [`GatewayError::ConstraintError`] where the title is empty or
    /// the identifier is taken; the table is then unchanged.
    pub fn restore(&mut self, task: Task) -> (r: Result<(), GatewayError>)
        ensures
            match r {
                Ok(_) => {
                    &&& task@.title.len() > 0
                    &&& !old(self)@.has(task.id)
                    &&& final(self)@ == old(self)@.inserted(task@)
                },
                Err(e) => {
                    &&& e == GatewayError::ConstraintError
                    &&& task@.title.len() == 0 || old(self)@.has(task.id)
                    &&& final(self)@ == old(self)@
                },
            },
            final(self)@ == old(self)@.step(TableOp::Insert(task@)),
            final(self)@.wf(),
    {
        proof {
            use_type_invariant(&*self);
        }
        if task.title.as_str().is_empty() {
            return Err(GatewayError::ConstraintError);
        }
        if self.position(task.id).is_some() {
            return Err(GatewayError::ConstraintError);
        }
        proof {
            lemma_views_push(self.rows@, task);
            lemma_push_keeps_wf(self@, task@);
        }
        let mut rows = self.take_rows();
        rows.push(task);
        self.rows = rows;
        Ok(())
    }

    /// Answers a query: copies of the rows that belong to the filter's view
    /// and are not deleted, in the table's order.
    pub fn list(&self, filter: TaskFilter) -> (found: Vec<Task>)
        ensures
            views(found@) == self@.listed(filter),
            self@.wf(),
    {
        proof {
            use_type_invariant(self);
        }
        let mut found: Vec<Task> = Vec::new();
        let mut i: usize = 0;
        proof {
            reveal(Seq::filter);
            assert(self.rows@.take(0) =~= Seq::<Task>::empty());
            assert(views(self.rows@.take(0)) =~= Seq::<TaskView>::empty());
            assert(views(found@) =~= Seq::<TaskView>::empty());
        }
        while i < self.rows.len()
            invariant
                i <= self.rows@.len(),
                views(found@) == views(self.rows@.take(i as int)).filter(shown_by(filter)),
            decreases self.rows@.len() - i,
        {
            let row = &self.rows[i];
            proof {
                let seen = self.rows@.take(i as int);
                assert(self.rows@.take(i + 1) =~= seen.push(*row));
                lemma_views_push(seen, *row);
                views(seen).lemma_filter_push(row@, shown_by(filter));
                lemma_views_push(found@, *row);
            }
            if filter.lists(row) {
                found.push(row.clone());
            }
            i += 1;
        }
        proof {
            assert(self.rows@.take(self.rows@.len() as int) =~= self.rows@);
        }
        found
    }

    /// Overwrites the mutable fields of the row that carries the task's
    /// identifier and stamps the row as updated: at the clock reading `now`,
    /// or at the row's own latest time where that is later, so that the
    /// time of update never goes back. Returns the row as it is stored
    /// then. Refused with [`GatewayError::NotFound`] where no row carries
    /// the identifier, else with [`GatewayError::ConstraintError`] where
    /// the title is empty; the table is then unchanged.
    pub fn update(&mut self, task: Task, now: Timestamp) -> (r: Result<Task, GatewayError>)
        ensures
            match r {
                Ok(stored) => {
                    &&& task@.title.len() > 0
                    &&& old(self)@.has(task.id)
                    &&& stored@ == merged(old(self)@.row(task.id), task@, now)
                    &&& final(self)@ == old(self)@.updated(task@, now)
                },
                Err(e) => {
                    &&& final(self)@ == old(self)@
                    &&& e == if !old(self)@.has(task.id) {
                        GatewayError::NotFound
                    } else {
                        GatewayError::ConstraintError
                    }
                },
            },
            r is Ok <==> old(self)@.has(task.id) && task@.title.len() > 0,
            final(self)@ == old(self)@.step(TableOp::Update(task@, now)),
            final(self)@.wf(),
    {
        proof {
            use_type_invariant(&*self);
        }
        match self.position(task.id) {
            None => Err(GatewayError::NotFound),
            Some(i) => {
                if task.title.as_str().is_empty() {
                    return Err(GatewayError::ConstraintError);
                }
                let row = &self.rows[i];
                let floor = match row.updated_at {
                    Some(last) => row.created_at.later(last),
                    None => row.created_at,
                };
                let mut stored = task;
                stored.id = row.id;
                stored.created_at = row.created_at;
                stored.deleted_at = row.deleted_at;
                stored.updated_at = Some(floor.later(now));
                let kept = stored.clone();
                proof {
                    lemma_update_at(self@, i as int, task@, now);
                    assert(views(self.rows@.update(i as int, kept)) =~= self@.tasks.update(
                        i as int,
                        kept@,
                    ));
                }
                let mut rows = self.take_rows();
                rows.set(i, kept);
                self.rows = rows;
                Ok(stored)
            },
        }
    }

    /// Marks the row that carries `id` as deleted at `now`. A row that is
    /// marked already keeps its mark: deleting twice is deleting once.
    /// Refused with [`GatewayError::NotFound`] where no row carries the
    /// identifier.
    pub fn soft_delete(&mut self, id: Id, now: Timestamp) -> (r: Result<(), GatewayError>)
        ensures
            match r {
                Ok(_) => old(self)@.has(id) && final(self)@ == old(self)@.deleted(id, now),
                Err(e) => {
                    &&& e == GatewayError::NotFound
                    &&& !old(self)@.has(id)
                    &&& final(self)@ == old(self)@
                },
            },
            final(self)@ == old(self)@.step(TableOp::Delete(id, now)),
            final(self)@.wf(),
    {
        proof {
            use_type_invariant(&*self);
        }
        match self.position(id) {
            None => Err(GatewayError::NotFound),
            Some(i) => {
                let mut row = self.rows[i].clone();
                if row.deleted_at.is_none() {
                    row.deleted_at = Some(now);
                }
                proof {
                    lemma_delete_at(self@, i as int, now);
                    assert(views(self.rows@.update(i as int, row)) =~= self@.tasks.update(
                        i as int,
                        row@,
                    ));
                }
                let mut rows = self.take_rows();
                rows.set(i, row);
                self.rows = rows;
                Ok(())
            },
        }
    }

    /// A copy of the row that carries `id`, deleted or not.
    pub fn find(&self, id: Id) -> (r: Option<Task>)
        ensures
            match r {
                Some(task) => self@.has(id) && task@ == self@.row(id),
                None => !self@.has(id),
            },
            self@.wf(),
    {
        proof {
            use_type_invariant(self);
        }
        match self.position(id) {
            Some(i) => {
                proof {
                    lemma_row_at(self@, i as int);
                }
                Some(self.rows[i].clone())
            },
            None => None,
        }
    }

    /// Tells whether some row carries `id`.
    pub fn contains(&self, id: Id) -> (r: bool)
        ensures
            r == self@.has(id),
            self@.wf(),
    {
        proof {
            use_type_invariant(self);
        }
        self.position(id).is_some()
    }
}

} // verus!
