//! What holds of the planner as a whole: how an edit reaches the store, and
//! how a task moves from one list to another.

use vstd::prelude::*;
use crate::drag::DragView;
use crate::filter::TaskFilter;
use crate::item::{ItemEffectView, ItemState, ItemView};
use crate::list::ItemListView;
use crate::model::{Id, TaskView, Timestamp};
use crate::seqs::{
    holds, lemma_occurrences_holds, lemma_occurrences_push, lemma_without_holds, occurrences,
    without,
};
use crate::store::{
    lemma_absent_is_hidden, lemma_deleted_is_hidden, merged, TableOp, TaskTableView,
};

verus! {

/// The task table after the gateway has done what an edit asked for at time
/// `now`.
pub open spec fn performed(table: TaskTableView, effect: ItemEffectView, now: Timestamp)
    -> TaskTableView {
    match effect {
        ItemEffectView::Nothing => table,
        ItemEffectView::Delete(id) => table.step(TableOp::Delete(id, now)),
        ItemEffectView::Update(task) => table.step(TableOp::Update(task, now)),
    }
}

/// Committing an edit whose text equals the remembered title changes the
/// time of update of no stored task: the store is either untouched or, for
/// an empty text, marks the task as deleted.
pub proof fn lemma_unchanged_commit_keeps_update_time(
    table: TaskTableView,
    item: ItemView,
    now: Timestamp,
)
    requires
        item.title == item.old_title,
    ensures
        performed(table, item.commit_effect(), now).tasks.len() == table.tasks.len(),
        forall|i: int|
            0 <= i < table.tasks.len() ==> (#[trigger] performed(
                table,
                item.commit_effect(),
                now,
            ).tasks[i]).updated_at == table.tasks[i].updated_at,
        item.title.len() > 0 ==> performed(table, item.commit_effect(), now) == table,
{
}

/// Committing the edit of a selected task with an empty text asks the
/// gateway to delete the task and never to update it: afterwards no query
/// returns the task, and no stored task has a new time of update.
pub proof fn lemma_empty_commit_deletes_from_store(
    table: TaskTableView,
    item: ItemView,
    now: Timestamp,
    filter: TaskFilter,
)
    requires
        item.state == ItemState::Selected,
        item.title.len() == 0,
    ensures
        item.commit_effect() == ItemEffectView::Delete(item.task.id),
        !holds(performed(table, item.commit_effect(), now).listed(filter), item.task.id),
        performed(table, item.commit_effect(), now).tasks.len() == table.tasks.len(),
        forall|i: int|
            0 <= i < table.tasks.len() ==> (#[trigger] performed(
                table,
                item.commit_effect(),
                now,
            ).tasks[i]).updated_at == table.tasks[i].updated_at,
{
    let id = item.task.id;
    if table.has(id) {
        lemma_deleted_is_hidden(table, id, now, filter);
    } else {
        lemma_absent_is_hidden(table, id, filter);
    }
}

/// A move settles. Let a task that the store holds be dropped on a target
/// list that does not hold it yet and under whose date and backlog it is
/// not filed, and let the gateway store the update at the clock reading
/// `now`. Once the target has taken the stored task and every list has seen
/// it as the task dropped last: the stored task is filed under the target's
/// date and backlog; the target holds it exactly once; and no list with
/// another filter than the target's holds it, the list that it came from
/// among them.
pub proof fn lemma_move_settles(
    table: TaskTableView,
    source: ItemListView,
    target: ItemListView,
    task: TaskView,
    now: Timestamp,
)
    requires
        table.has(task.id),
        source.filter != target.filter,
        !holds(target.tasks, task.id),
        target.drop_request(Some(task)) is Some,
    ensures
        ({
            let request = target.drop_request(Some(task))->0;
            let stored = merged(table.row(task.id), request, now);
            let settled = target.settled(Some(stored)).observed(Some(stored));
            &&& stored.id == task.id
            &&& stored.scheduled_date == target.filter.scheduled_date
            &&& stored.backlog_id == target.filter.backlog_id
            &&& stored.title == task.title
            &&& target.filter.admits(stored)
            &&& settled.tasks == target.tasks.push(stored)
            &&& occurrences(settled.tasks, task.id) == 1
            &&& source.observed(Some(stored)).tasks == without(source.tasks, task.id)
            &&& !holds(source.observed(Some(stored)).tasks, task.id)
        }),
{
    let request = target.drop_request(Some(task))->0;
    let stored = merged(table.row(task.id), request, now);
    lemma_without_holds(source.tasks, task.id, task.id);
    lemma_occurrences_holds(target.tasks, task.id);
    lemma_occurrences_push(target.tasks, stored, task.id);
}

/// The lists after each of them has looked at the task dropped last.
pub open spec fn all_observed(lists: Seq<ItemListView>, dropped: Option<TaskView>) -> Seq<
    ItemListView,
> {
    lists.map_values(|list: ItemListView| list.observed(dropped))
}

/// How many tasks of all the lists together carry `id`.
pub open spec fn total_occurrences(lists: Seq<ItemListView>, id: Id) -> nat
    decreases lists.len(),
{
    if lists.len() == 0 {
        0
    } else {
        total_occurrences(lists.drop_last(), id) + occurrences(lists.last().tasks, id)
    }
}

/// Where at most one list holds an identifier, the lists together hold it
/// as often as that list does.
pub proof fn lemma_total_is_that_of_one(lists: Seq<ItemListView>, id: Id, b: int)
    requires
        forall|k: int| 0 <= k < lists.len() && k != b ==> occurrences(
            (#[trigger] lists[k]).tasks,
            id,
        ) == 0,
    ensures
        total_occurrences(lists, id) == if 0 <= b < lists.len() {
            occurrences(lists[b].tasks, id)
        } else {
            0
        },
    decreases lists.len(),
{
    if lists.len() > 0 {
        let init = lists.drop_last();
        assert forall|k: int| 0 <= k < init.len() && k != b implies occurrences(
            (#[trigger] init[k]).tasks,
            id,
        ) == 0 by {
            assert(init[k] == lists[k]);
        }
        lemma_total_is_that_of_one(init, id, b);
        if 0 <= b < init.len() {
            assert(init[b] == lists[b]);
        }
        if b != lists.len() - 1 {
            assert(occurrences(lists[lists.len() - 1].tasks, id) == 0);
        }
    }
}

/// A move settles among any number of lists. Let the lists have filters
/// that differ from one another, let one of them, the source, hold a task
/// exactly once and no other list hold it, and let the task be dropped on
/// another of them, the target, with the gateway storing the update at the
/// clock reading `now`. Once the target has taken the stored task and every
/// list has seen it as the task dropped last: the stored task is filed
/// under the target's date and backlog; all the lists together hold it
/// exactly once, and that once in the target, at its end; the source has
/// lost it and kept its other tasks in order; and every other list is as it
/// was.
pub proof fn lemma_move_settles_everywhere(
    table: TaskTableView,
    lists: Seq<ItemListView>,
    source: int,
    target: int,
    task: TaskView,
    now: Timestamp,
)
    requires
        0 <= source < lists.len(),
        0 <= target < lists.len(),
        source != target,
        forall|j: int, k: int|
            0 <= j < k < lists.len() ==> (#[trigger] lists[j]).filter != (#[trigger] lists[k]).filter,
        table.has(task.id),
        occurrences(lists[source].tasks, task.id) == 1,
        forall|k: int|
            0 <= k < lists.len() && k != source ==> !holds((#[trigger] lists[k]).tasks, task.id),
        lists[target].drop_request(Some(task)) is Some,
    ensures
        ({
            let request = lists[target].drop_request(Some(task))->0;
            let stored = merged(table.row(task.id), request, now);
            let after = all_observed(
                lists.update(target, lists[target].settled(Some(stored))),
                Some(stored),
            );
            &&& stored.id == task.id
            &&& lists[target].filter.filed_here(stored)
            &&& after.len() == lists.len()
            &&& after[target] == (ItemListView {
                tasks: lists[target].tasks.push(stored),
                ..lists[target]
            })
            &&& after[source] == (ItemListView {
                tasks: without(lists[source].tasks, task.id),
                ..lists[source]
            })
            &&& forall|k: int|
                0 <= k < lists.len() && k != source && k != target ==> #[trigger] after[k]
                    == lists[k]
            &&& forall|k: int|
                0 <= k < lists.len() && k != target ==> !holds((#[trigger] after[k]).tasks, task.id)
            &&& occurrences(after[target].tasks, task.id) == 1
            &&& total_occurrences(after, task.id) == 1
        }),
{
    let id = task.id;
    let request = lists[target].drop_request(Some(task))->0;
    let stored = merged(table.row(id), request, now);
    let dropped = lists.update(target, lists[target].settled(Some(stored)));
    let after = all_observed(dropped, Some(stored));
    lemma_occurrences_holds(lists[target].tasks, id);
    lemma_occurrences_push(lists[target].tasks, stored, id);
    assert forall|k: int| 0 <= k < lists.len() && k != target implies !holds(
        (#[trigger] after[k]).tasks,
        id,
    ) && after[k].tasks == without(lists[k].tasks, id) by {
        if k < target {
            assert(lists[k].filter != lists[target].filter);
        } else {
            assert(lists[target].filter != lists[k].filter);
        }
        assert(dropped[k] == lists[k]);
        lemma_without_holds(lists[k].tasks, id, id);
    }
    assert forall|k: int| 0 <= k < lists.len() && k != source && k != target implies #[trigger] after[k]
        == lists[k] by {
        lemma_without_holds(lists[k].tasks, id, id);
        assert(after[k].tasks == lists[k].tasks);
    }
    assert forall|k: int| 0 <= k < after.len() && k != target implies occurrences(
        (#[trigger] after[k]).tasks,
        id,
    ) == 0 by {
        lemma_occurrences_holds(after[k].tasks, id);
    }
    lemma_total_is_that_of_one(after, id, target);
}

/// A failed move shows nowhere. Where the gateway refuses the update of a
/// drop, the target list and the coordinator stay as they were. So the
/// target does not hold the task, and a source list that held it, and had
/// seen the task dropped last before, holds it still after looking again.
pub proof fn lemma_failed_move_shows_nowhere(
    source: ItemListView,
    target: ItemListView,
    drag: DragView,
    task: TaskView,
)
    requires
        holds(source.tasks, task.id),
        source.observed(drag.dropped) == source,
        !holds(target.tasks, task.id),
    ensures
        target.settled(None) == target,
        !holds(target.settled(None).observed(drag.dropped).tasks, task.id),
        holds(source.observed(drag.dropped).tasks, task.id),
{
    match drag.dropped {
        Some(seen) => {
            if !target.filter.filed_here(seen) {
                lemma_without_holds(target.tasks, seen.id, task.id);
            }
        },
        None => {},
    }
}

} // verus!
