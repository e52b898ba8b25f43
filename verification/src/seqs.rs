//! Sequences of records: their values, and removal and replacement by
//! identifier.

use vstd::prelude::*;
use crate::model::{Id, Task, TaskView};

verus! {

/// The values of a sequence of records, in order.
pub open spec fn views<T: View>(items: Seq<T>) -> Seq<T::V> {
    items.map_values(|t: T| t@)
}

/// The value of an optional task.
pub open spec fn option_view(task: Option<Task>) -> Option<TaskView> {
    match task {
        Some(t) => Some(t@),
        None => None,
    }
}

/// The predicate "does not carry `id`".
pub open spec fn other_than(id: Id) -> spec_fn(TaskView) -> bool {
    |t: TaskView| t.id != id
}

/// The sequence without the tasks that carry `id`, the others in order.
pub open spec fn without(tasks: Seq<TaskView>, id: Id) -> Seq<TaskView> {
    tasks.filter(other_than(id))
}

/// The sequence with `task` in the place of each task that carries its
/// identifier.
pub open spec fn replaced(tasks: Seq<TaskView>, task: TaskView) -> Seq<TaskView> {
    tasks.map_values(|t: TaskView| if t.id == task.id { task } else { t })
}

/// Some task of the sequence carries `id`.
pub open spec fn holds(tasks: Seq<TaskView>, id: Id) -> bool {
    exists|i: int| 0 <= i < tasks.len() && (#[trigger] tasks[i]).id == id
}

/// The predicate "carries `id`".
pub open spec fn carrying(id: Id) -> spec_fn(TaskView) -> bool {
    |t: TaskView| t.id == id
}

/// How many tasks of the sequence carry `id`.
pub open spec fn occurrences(tasks: Seq<TaskView>, id: Id) -> nat {
    tasks.filter(carrying(id)).len()
}

/// One task further, the count of an identifier grows by one where the task
/// carries it and stays where it does not.
pub proof fn lemma_occurrences_push(tasks: Seq<TaskView>, task: TaskView, id: Id)
    ensures
        occurrences(tasks.push(task), id) == occurrences(tasks, id) + if task.id == id {
            1nat
        } else {
            0nat
        },
{
    tasks.lemma_filter_push(task, carrying(id));
}

/// An identifier is counted at least once exactly where some task carries
/// it.
pub proof fn lemma_occurrences_holds(tasks: Seq<TaskView>, id: Id)
    ensures
        holds(tasks, id) <==> occurrences(tasks, id) > 0,
    decreases tasks.len(),
{
    reveal(Seq::filter);
    if tasks.len() > 0 {
        let init = tasks.drop_last();
        let last = tasks.last();
        lemma_occurrences_holds(init, id);
        assert(tasks =~= init.push(last));
        lemma_occurrences_push(init, last, id);
        if holds(tasks, id) {
            let i = choose|i: int| 0 <= i < tasks.len() && (#[trigger] tasks[i]).id == id;
            if i < init.len() {
                assert(init[i].id == id);
            }
        }
        if holds(init, id) {
            let i = choose|i: int| 0 <= i < init.len() && (#[trigger] init[i]).id == id;
            assert(tasks[i].id == id);
        }
        if last.id == id {
            assert(tasks[tasks.len() - 1].id == id);
        }
    }
}

/// The values of a sequence with one more record are the values of the
/// sequence with one more value.
pub proof fn lemma_views_push<T: View>(items: Seq<T>, item: T)
    ensures
        views(items.push(item)) == views(items).push(item@),
{
    assert(views(items.push(item)) =~= views(items).push(item@));
}

/// Removal by identifier, one task further: a task that carries the
/// identifier is dropped, any other is kept at the end.
pub proof fn lemma_without_push(tasks: Seq<TaskView>, task: TaskView, id: Id)
    ensures
        without(tasks.push(task), id) == if task.id != id {
            without(tasks, id).push(task)
        } else {
            without(tasks, id)
        },
{
    tasks.lemma_filter_push(task, other_than(id));
}

/// After removal by identifier no task carries the identifier, and a task
/// with another identifier is held exactly if it was held before.
pub proof fn lemma_without_holds(tasks: Seq<TaskView>, id: Id, other: Id)
    ensures
        !holds(without(tasks, id), id),
        other != id ==> (holds(without(tasks, id), other) <==> holds(tasks, other)),
        without(tasks, id).len() <= tasks.len(),
        !holds(tasks, id) ==> without(tasks, id) == tasks,
    decreases tasks.len(),
{
    reveal(Seq::filter);
    if tasks.len() > 0 {
        let init = tasks.drop_last();
        let last = tasks.last();
        lemma_without_holds(init, id, other);
        assert(tasks =~= init.push(last));
        lemma_without_push(init, last, id);
        let kept = without(tasks, id);
        let kept_init = without(init, id);
        if holds(kept, id) {
            let i = choose|i: int| 0 <= i < kept.len() && (#[trigger] kept[i]).id == id;
            if i < kept_init.len() {
                assert(kept_init[i].id == id);
            }
        }
        if other != id {
            if holds(kept, other) {
                let i = choose|i: int| 0 <= i < kept.len() && (#[trigger] kept[i]).id == other;
                if i < kept_init.len() {
                    assert(kept_init[i].id == other);
                    let j = choose|j: int| 0 <= j < init.len() && (#[trigger] init[j]).id == other;
                    assert(tasks[j].id == other);
                } else {
                    assert(tasks[tasks.len() - 1].id == other);
                }
            }
            if holds(tasks, other) {
                let j = choose|j: int| 0 <= j < tasks.len() && (#[trigger] tasks[j]).id == other;
                if j < init.len() {
                    assert(init[j].id == other);
                    let i = choose|i: int|
                        0 <= i < kept_init.len() && (#[trigger] kept_init[i]).id == other;
                    assert(kept[i].id == other);
                } else {
                    assert(kept[kept.len() - 1].id == other);
                }
            }
        }
        if !holds(tasks, id) {
            assert(last.id != id) by {
                assert(tasks[tasks.len() - 1] == last);
            }
            assert(!holds(init, id)) by {
                if holds(init, id) {
                    let j = choose|j: int| 0 <= j < init.len() && (#[trigger] init[j]).id == id;
                    assert(tasks[j].id == id);
                }
            }
        }
    }
}

/// Removes every task that carries `id` and keeps the others in order.
pub fn remove_by_id(tasks: Vec<Task>, id: Id) -> (kept: Vec<Task>)
    ensures
        views(kept@) == without(views(tasks@), id),
{
    let mut kept: Vec<Task> = Vec::new();
    let ghost all = tasks@;
    proof {
        reveal(Seq::filter);
        assert(views(all.take(0)) =~= Seq::<TaskView>::empty());
        assert(views(kept@) =~= Seq::<TaskView>::empty());
    }
    for task in it: tasks
        invariant
            it.seq() == all,
            views(kept@) == without(views(all.take(it.index() as int)), id),
    {
        proof {
            let i = it.index() as int;
            assert(all.take(i + 1) =~= all.take(i).push(task));
            lemma_views_push(all.take(i), task);
            lemma_without_push(views(all.take(i)), task@, id);
            lemma_views_push(kept@, task);
        }
        if task.id != id {
            kept.push(task);
        }
    }
    proof {
        assert(all.take(all.len() as int) =~= all);
    }
    kept
}

/// Puts a copy of `task` in the place of each task that carries its
/// identifier.
pub fn replace_by_id(tasks: Vec<Task>, task: &Task) -> (swapped: Vec<Task>)
    ensures
        views(swapped@) == replaced(views(tasks@), task@),
{
    let mut swapped: Vec<Task> = Vec::new();
    let ghost all = tasks@;
    for held in it: tasks
        invariant
            it.seq() == all,
            swapped@.len() == it.index(),
            forall|j: int|
                0 <= j < it.index() ==> (#[trigger] swapped@[j])@ == if all[j].id == task.id {
                    task@
                } else {
                    all[j]@
                },
    {
        if held.id == task.id {
            swapped.push(task.clone());
        } else {
            swapped.push(held);
        }
    }
    assert(views(swapped@) =~= replaced(views(all), task@));
    swapped
}

} // verus!
