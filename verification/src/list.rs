//! One displayed list: the tasks it holds, the text of its entry field, and
//! its part in a drag-and-drop move.

use vstd::prelude::*;
use crate::drag::{DragCoordinator, DragView};
use crate::error::GatewayError;
use crate::filter::TaskFilter;
use crate::item::Key;
use crate::model::{Date, Id, Task, TaskView};
use crate::seqs::{lemma_views_push, remove_by_id, replace_by_id, replaced, views, without};

verus! {

/// What a list asks the gateway to create: a title, filed where the list is.
#[derive(Debug, PartialEq, Eq)]
pub struct NewTask {
    pub title: String,
    pub date: Option<Date>,
    pub backlog_id: Option<Id>,
}

/// The mathematical value of a [`NewTask`].
pub struct NewTaskView {
    pub title: Seq<char>,
    pub date: Option<Date>,
    pub backlog_id: Option<Id>,
}

impl View for NewTask {
    type V = NewTaskView;

    open spec fn view(&self) -> NewTaskView {
        NewTaskView { title: self.title@, date: self.date, backlog_id: self.backlog_id }
    }
}

/// A list of tasks as one view shows it. The list is filled once from the
/// gateway and then follows what happens to its tasks: it never filters what
/// it holds again.
pub struct ItemList {
    pub filter: TaskFilter,
    pub tasks: Vec<Task>,
    pub new_task: String,
}

/// The mathematical value of an [`ItemList`].
pub struct ItemListView {
    pub filter: TaskFilter,
    pub tasks: Seq<TaskView>,
    pub new_task: Seq<char>,
}

impl View for ItemList {
    type V = ItemListView;

    open spec fn view(&self) -> ItemListView {
        ItemListView { filter: self.filter, tasks: views(self.tasks@), new_task: self.new_task@ }
    }
}

impl ItemListView {
    /// The request that submitting the entry field makes: none while the
    /// field is empty.
    pub open spec fn submitted(self) -> Option<NewTaskView> {
        if self.new_task.len() == 0 {
            None
        } else {
            Some(
                NewTaskView {
                    title: self.new_task,
                    date: self.filter.scheduled_date,
                    backlog_id: self.filter.backlog_id,
                },
            )
        }
    }

    /// The list after the gateway has answered a request to create a task.
    pub open spec fn created(self, outcome: Option<TaskView>) -> ItemListView {
        match outcome {
            Some(task) => ItemListView {
                tasks: self.tasks.push(task),
                new_task: Seq::empty(),
                ..self
            },
            None => self,
        }
    }

    /// The update that a drop on this list asks of the gateway: the carried
    /// task filed under this list's filter, or nothing where no task is
    /// carried or the task is filed there already.
    pub open spec fn drop_request(self, dragging: Option<TaskView>) -> Option<TaskView> {
        match dragging {
            Some(task) => if self.filter.filed_here(task) {
                None
            } else {
                Some(self.filter.filed(task))
            },
            None => None,
        }
    }

    /// The list after the gateway has answered the update of a drop.
    pub open spec fn settled(self, outcome: Option<TaskView>) -> ItemListView {
        match outcome {
            Some(task) => ItemListView { tasks: self.tasks.push(task), ..self },
            None => self,
        }
    }

    /// The list after it has seen the task dropped last: where that task
    /// is not filed under this list's date and backlog, the list gives it
    /// up.
    pub open spec fn observed(self, dropped: Option<TaskView>) -> ItemListView {
        match dropped {
            Some(task) => if self.filter.filed_here(task) {
                self
            } else {
                ItemListView { tasks: without(self.tasks, task.id), ..self }
            },
            None => self,
        }
    }
}

/// The task of a successful outcome, as a value.
pub open spec fn outcome_view(outcome: Result<Task, GatewayError>) -> Option<TaskView> {
    match outcome {
        Ok(task) => Some(task@),
        Err(_) => None,
    }
}

impl ItemList {
    /// An empty list for the view that `filter` describes.
    pub fn new(filter: TaskFilter) -> (r: ItemList)
        ensures
            r@ == (ItemListView { filter, tasks: Seq::empty(), new_task: Seq::empty() }),
    {
        let r = ItemList { filter, tasks: Vec::new(), new_task: String::new() };
        assert(views(r.tasks@) =~= Seq::<TaskView>::empty());
        r
    }

    /// The gateway has answered the query that fills the list. On success
    /// the list holds what was fetched; on failure it stays as it was.
    pub fn load(&mut self, outcome: Result<Vec<Task>, GatewayError>)
        ensures
            final(self)@ == match outcome {
                Ok(fetched) => ItemListView { tasks: views(fetched@), ..old(self)@ },
                Err(_) => old(self)@,
            },
    {
        match outcome {
            Ok(fetched) => {
                self.tasks = fetched;
            },
            Err(_) => {},
        }
    }

    /// The user has typed into the entry field.
    pub fn input(&mut self, text: String)
        ensures
            final(self)@ == (ItemListView { new_task: text@, ..old(self)@ }),
    {
        self.new_task = text;
    }

    /// The user has given up the entry: the field is emptied.
    pub fn cancel(&mut self)
        ensures
            final(self)@ == (ItemListView { new_task: Seq::empty(), ..old(self)@ }),
    {
        self.new_task = String::new();
    }

    /// The user has submitted the entry field. An empty field asks for
    /// nothing; any other text asks for a task with that title, filed under
    /// the list's date and backlog.
    pub fn submit(&self) -> (r: Option<NewTask>)
        ensures
            match r {
                Some(request) => self@.submitted() == Some(request@),
                None => self@.submitted() is None,
            },
    {
        if self.new_task.as_str().is_empty() {
            None
        } else {
            Some(
                NewTask {
                    title: self.new_task.clone(),
                    date: self.filter.scheduled_date,
                    backlog_id: self.filter.backlog_id,
                },
            )
        }
    }

    /// A key was pressed in the entry field: the commit key submits the
    /// field, the cancel key empties it, and any other key does nothing
    /// here.
    pub fn key_down(&mut self, key: Key) -> (r: Option<NewTask>)
        ensures
            final(self)@ == if key == Key::Escape {
                ItemListView { new_task: Seq::empty(), ..old(self)@ }
            } else {
                old(self)@
            },
            match r {
                Some(request) => key == Key::Enter && old(self)@.submitted() == Some(request@),
                None => key != Key::Enter || old(self)@.submitted() is None,
            },
    {
        match key {
            Key::Enter => self.submit(),
            Key::Escape => {
                self.cancel();
                None
            },
            _ => None,
        }
    }

    /// The gateway has answered a request to create a task. On success the
    /// task joins the end of the list and the entry field is emptied; on
    /// failure nothing changes, so no task is shown that the store lacks.
    pub fn created(&mut self, outcome: Result<Task, GatewayError>)
        ensures
            final(self)@ == old(self)@.created(outcome_view(outcome)),
    {
        match outcome {
            Ok(task) => {
                proof {
                    lemma_views_push(self.tasks@, task);
                }
                self.tasks.push(task);
                self.new_task = String::new();
            },
            Err(_) => {},
        }
    }

    /// The gateway has answered a request to delete the task `id`. On
    /// success the list gives the task up; on failure nothing changes.
    pub fn deleted(&mut self, id: Id, outcome: Result<(), GatewayError>)
        ensures
            final(self)@ == match outcome {
                Ok(_) => ItemListView { tasks: without(old(self)@.tasks, id), ..old(self)@ },
                Err(_) => old(self)@,
            },
    {
        match outcome {
            Ok(_) => {
                let mut held: Vec<Task> = Vec::new();
                std::mem::swap(&mut self.tasks, &mut held);
                self.tasks = remove_by_id(held, id);
            },
            Err(_) => {},
        }
    }

    /// The gateway has answered an update. On success the task takes the
    /// place of each task of the list with its identifier; on failure
    /// nothing changes.
    pub fn updated(&mut self, outcome: Result<Task, GatewayError>)
        ensures
            final(self)@ == match outcome {
                Ok(task) => ItemListView { tasks: replaced(old(self)@.tasks, task@), ..old(self)@ },
                Err(_) => old(self)@,
            },
    {
        match outcome {
            Ok(task) => {
                let mut held: Vec<Task> = Vec::new();
                std::mem::swap(&mut self.tasks, &mut held);
                self.tasks = replace_by_id(held, &task);
            },
            Err(_) => {},
        }
    }

    /// A task has been dropped on the list. Returns the update to ask of the
    /// gateway: the carried task with this list's date and backlog. Nothing
    /// is asked where no task is carried or the task is filed here already.
    /// The list itself does not change before the gateway has answered.
    pub fn drop_request(&self, drag: &DragCoordinator) -> (r: Option<Task>)
        ensures
            match r {
                Some(task) => self@.drop_request(drag@.dragging) == Some(task@),
                None => self@.drop_request(drag@.dragging) is None,
            },
    {
        match &drag.dragging {
            Some(task) => {
                if self.filter.is_filed_here(task) {
                    None
                } else {
                    Some(self.filter.file(task.clone()))
                }
            },
            None => None,
        }
    }

    /// The gateway has answered the update of a drop. On success the task
    /// joins the end of the list and is published as the task dropped last;
    /// on failure neither the list nor the coordinator changes.
    pub fn drop_settled(&mut self, drag: &mut DragCoordinator, outcome: Result<Task, GatewayError>)
        ensures
            final(self)@ == old(self)@.settled(outcome_view(outcome)),
            final(drag)@ == match outcome {
                Ok(task) => DragView { dropped: Some(task@), ..old(drag)@ },
                Err(_) => old(drag)@,
            },
    {
        match outcome {
            Ok(task) => {
                proof {
                    lemma_views_push(self.tasks@, task);
                }
                self.tasks.push(task.clone());
                drag.publish(task);
            },
            Err(_) => {},
        }
    }

    /// The list looks at the task dropped last. Where there is one and it
    /// is not filed under this list's date and backlog, the list gives it
    /// up.
    pub fn observe(&mut self, drag: &DragCoordinator)
        ensures
            final(self)@ == old(self)@.observed(drag@.dropped),
    {
        match &drag.dropped {
            Some(task) => {
                if !self.filter.is_filed_here(task) {
                    let mut held: Vec<Task> = Vec::new();
                    std::mem::swap(&mut self.tasks, &mut held);
                    self.tasks = remove_by_id(held, task.id);
                }
            },
            None => {},
        }
    }
}

} // verus!
