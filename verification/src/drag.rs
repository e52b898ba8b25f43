//! The state that all lists share during a drag-and-drop move.

use vstd::prelude::*;
use crate::model::{Task, TaskView};
use crate::seqs::option_view;

verus! {

/// Two slots: the task that a drag gesture is carrying, and the task that
/// was dropped last. A list that accepts a drop writes the second; every
/// list reads it to learn that a task has left it.
pub struct DragCoordinator {
    pub dragging: Option<Task>,
    pub dropped: Option<Task>,
}

/// The mathematical value of a [`DragCoordinator`].
pub struct DragView {
    pub dragging: Option<TaskView>,
    pub dropped: Option<TaskView>,
}

impl View for DragCoordinator {
    type V = DragView;

    open spec fn view(&self) -> DragView {
        DragView { dragging: option_view(self.dragging), dropped: option_view(self.dropped) }
    }
}

impl DragCoordinator {
    /// A coordinator with both slots empty.
    pub fn new() -> (r: DragCoordinator)
        ensures
            r@ == (DragView { dragging: None, dropped: None }),
    {
        DragCoordinator { dragging: None, dropped: None }
    }

    /// A drag gesture has picked the task up: the first slot takes a copy of
    /// it.
    pub fn start_drag(&mut self, task: &Task)
        ensures
            final(self)@ == (DragView { dragging: Some(task@), dropped: old(self)@.dropped }),
    {
        self.dragging = Some(task.clone());
    }

    /// A list has accepted the task: the second slot takes it, in place of
    /// what it held.
    pub fn publish(&mut self, task: Task)
        ensures
            final(self)@ == (DragView { dragging: old(self)@.dragging, dropped: Some(task@) }),
    {
        self.dropped = Some(task);
    }
}

} // verus!
