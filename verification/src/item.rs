//! The inline editor of one displayed task.

use vstd::prelude::*;
use crate::drag::{DragCoordinator, DragView};
use crate::model::{Id, Task, TaskView};

verus! {

/// How a displayed task stands to the pointer and the keyboard.
#[derive(Clone, Copy, Debug, PartialEq, Eq, Structural)]
pub enum ItemState {
    /// Shown, not editable.
    Normal,
    /// The pointer is over the task: it can be edited, but is not in focus.
    Hovered,
    /// In focus: the user is editing the title.
    Selected,
}

/// A key of the keyboard, as far as the planner tells keys apart.
#[derive(Clone, Copy, Debug, PartialEq, Eq, Structural)]
pub enum Key {
    /// The commit key.
    Enter,
    /// The cancel key.
    Escape,
    /// The delete key.
    Delete,
    /// Any other key.
    Other,
}

/// What the user did to a displayed task.
#[derive(Debug, PartialEq, Eq)]
pub enum ItemEvent {
    /// The pointer came over the task.
    PointerEnter,
    /// The pointer left the task.
    PointerLeave,
    /// The task was clicked or took the focus.
    Click,
    /// The text of the title field changed to this.
    Input(String),
    /// The commit key was pressed, or the field lost the focus.
    Commit,
    /// The cancel key was pressed.
    Cancel,
    /// The delete key was pressed.
    Delete,
}

/// The one call to the gateway that an event asks for, if any.
#[derive(Debug, PartialEq, Eq)]
pub enum ItemEffect {
    /// Nothing is to be persisted.
    Nothing,
    /// The task with this identifier is to be deleted.
    Delete(Id),
    /// The task is to be stored as given here.
    Update(Task),
}

/// The mathematical value of an [`ItemEffect`].
pub enum ItemEffectView {
    Nothing,
    Delete(Id),
    Update(TaskView),
}

impl View for ItemEffect {
    type V = ItemEffectView;

    open spec fn view(&self) -> ItemEffectView {
        match *self {
            ItemEffect::Nothing => ItemEffectView::Nothing,
            ItemEffect::Delete(id) => ItemEffectView::Delete(id),
            ItemEffect::Update(task) => ItemEffectView::Update(task@),
        }
    }
}

/// A displayed task with its editor: the task, the editor's state, whether
/// the title field is disabled, the text in the field, and the text that
/// was there when the task was selected.
pub struct Item {
    pub task: Task,
    pub state: ItemState,
    pub disabled: bool,
    pub title: String,
    pub old_title: String,
}

/// The mathematical value of an [`Item`].
pub struct ItemView {
    pub task: TaskView,
    pub state: ItemState,
    pub disabled: bool,
    pub title: Seq<char>,
    pub old_title: Seq<char>,
}

impl View for Item {
    type V = ItemView;

    open spec fn view(&self) -> ItemView {
        ItemView {
            task: self.task@,
            state: self.state,
            disabled: self.disabled,
            title: self.title@,
            old_title: self.old_title@,
        }
    }
}

impl ItemView {
    /// The editor as it starts: not selected, disabled, the field and the
    /// remembered text both holding the task's title.
    pub open spec fn fresh(task: TaskView) -> ItemView {
        ItemView {
            task,
            state: ItemState::Normal,
            disabled: true,
            title: task.title,
            old_title: task.title,
        }
    }

    /// After the pointer came over the task: a task that is not selected
    /// becomes hovered and editable.
    pub open spec fn entered(self) -> ItemView {
        if self.state == ItemState::Selected {
            self
        } else {
            ItemView { state: ItemState::Hovered, disabled: false, ..self }
        }
    }

    /// After the pointer left the task: a task that is not selected becomes
    /// normal and disabled.
    pub open spec fn left(self) -> ItemView {
        if self.state == ItemState::Selected {
            self
        } else {
            ItemView { state: ItemState::Normal, disabled: true, ..self }
        }
    }

    /// After a click: the task is selected and the text of the field is
    /// remembered.
    pub open spec fn clicked(self) -> ItemView {
        ItemView { state: ItemState::Selected, old_title: self.title, ..self }
    }

    /// After typing: the field holds the new text, nothing else changes.
    pub open spec fn typed(self, text: Seq<char>) -> ItemView {
        ItemView { title: text, ..self }
    }

    /// Whether a commit stores a new title: the task is selected, and the
    /// field is not empty and differs from the remembered text.
    pub open spec fn edited(self) -> bool {
        self.state == ItemState::Selected && self.title.len() != 0 && self.title
            != self.old_title
    }

    /// What a commit asks of the gateway. Only a selected task is being
    /// edited, so only its commit asks for anything: to delete the task
    /// where the field is empty, to store the new title where the field
    /// differs from the remembered text, and nothing otherwise.
    pub open spec fn commit_effect(self) -> ItemEffectView {
        if self.state != ItemState::Selected {
            ItemEffectView::Nothing
        } else if self.title.len() == 0 {
            ItemEffectView::Delete(self.task.id)
        } else if self.title != self.old_title {
            ItemEffectView::Update(TaskView { title: self.title, ..self.task })
        } else {
            ItemEffectView::Nothing
        }
    }

    /// After a commit: the editor is back to normal. The commit of a
    /// selected task ends the edit: the task carries the new title where
    /// one is stored, and the remembered text gives way to the text of the
    /// field, so that nothing is left to persist.
    pub open spec fn committed(self) -> ItemView {
        if self.state == ItemState::Selected {
            ItemView {
                task: if self.edited() {
                    TaskView { title: self.title, ..self.task }
                } else {
                    self.task
                },
                state: ItemState::Normal,
                disabled: true,
                old_title: self.title,
                ..self
            }
        } else {
            ItemView { state: ItemState::Normal, disabled: true, ..self }
        }
    }

    /// After a cancel: the field holds the remembered text again and the
    /// editor is back to normal.
    pub open spec fn cancelled(self) -> ItemView {
        ItemView { title: self.old_title, state: ItemState::Normal, disabled: true, ..self }
    }

    /// The editor after an event.
    pub open spec fn after(self, event: ItemEvent) -> ItemView {
        match event {
            ItemEvent::PointerEnter => self.entered(),
            ItemEvent::PointerLeave => self.left(),
            ItemEvent::Click => self.clicked(),
            ItemEvent::Input(text) => self.typed(text@),
            ItemEvent::Commit => self.committed(),
            ItemEvent::Cancel => self.cancelled(),
            ItemEvent::Delete => self,
        }
    }

    /// The editor after a key was pressed: the commit key commits, the
    /// cancel key cancels, no other key changes the editor.
    pub open spec fn after_key(self, key: Key) -> ItemView {
        match key {
            Key::Enter => self.committed(),
            Key::Escape => self.cancelled(),
            _ => self,
        }
    }

    /// What a pressed key asks of the gateway.
    pub open spec fn effect_of_key(self, key: Key) -> ItemEffectView {
        match key {
            Key::Enter => self.commit_effect(),
            Key::Delete => ItemEffectView::Delete(self.task.id),
            _ => ItemEffectView::Nothing,
        }
    }

    /// What an event asks of the gateway. Only a commit and the delete key
    /// ask for anything.
    pub open spec fn effect_of(self, event: ItemEvent) -> ItemEffectView {
        match event {
            ItemEvent::Commit => self.commit_effect(),
            ItemEvent::Delete => ItemEffectView::Delete(self.task.id),
            _ => ItemEffectView::Nothing,
        }
    }
}

impl Item {
    /// The editor of a task that has just been displayed.
    pub fn new(task: Task) -> (r: Item)
        ensures
            r@ == ItemView::fresh(task@),
    {
        let title = task.title.clone();
        let old_title = task.title.clone();
        Item { task, state: ItemState::Normal, disabled: true, title, old_title }
    }

    /// The pointer came over the task.
    pub fn pointer_enter(&mut self)
        ensures
            final(self)@ == old(self)@.entered(),
    {
        if self.state != ItemState::Selected {
            self.state = ItemState::Hovered;
            self.disabled = false;
        }
    }

    /// The pointer left the task.
    pub fn pointer_leave(&mut self)
        ensures
            final(self)@ == old(self)@.left(),
    {
        if self.state != ItemState::Selected {
            self.state = ItemState::Normal;
            self.disabled = true;
        }
    }

    /// The task was clicked or took the focus.
    pub fn click(&mut self)
        ensures
            final(self)@ == old(self)@.clicked(),
    {
        self.state = ItemState::Selected;
        self.old_title = self.title.clone();
    }

    /// The text of the title field changed. Nothing is persisted.
    pub fn input(&mut self, text: String)
        ensures
            final(self)@ == old(self)@.typed(text@),
    {
        self.title = text;
    }

    /// The commit key was pressed or the field lost the focus. Returns the
    /// one call that the gateway is owed for the edit of a selected task: a
    /// delete for an empty field, an update for a changed title, nothing
    /// for an unchanged one. The edit is over then, so a second commit of
    /// the same gesture, as when the field loses the focus after the commit
    /// key, asks for nothing.
    pub fn commit(&mut self) -> (effect: ItemEffect)
        ensures
            effect@ == old(self)@.commit_effect(),
            final(self)@ == old(self)@.committed(),
    {
        let effect = if self.state != ItemState::Selected {
            ItemEffect::Nothing
        } else if self.title.as_str().is_empty() {
            self.old_title = self.title.clone();
            ItemEffect::Delete(self.task.id)
        } else if !(self.title == self.old_title) {
            self.task.title = self.title.clone();
            self.old_title = self.title.clone();
            ItemEffect::Update(self.task.clone())
        } else {
            ItemEffect::Nothing
        };
        self.state = ItemState::Normal;
        self.disabled = true;
        effect
    }

    /// The cancel key was pressed: the edit is dropped and nothing is
    /// persisted.
    pub fn cancel(&mut self)
        ensures
            final(self)@ == old(self)@.cancelled(),
    {
        self.title = self.old_title.clone();
        self.state = ItemState::Normal;
        self.disabled = true;
    }

    /// The delete key was pressed: the task is to be deleted, whatever the
    /// field holds. The editor does not change.
    pub fn delete(&self) -> (effect: ItemEffect)
        ensures
            effect@ == ItemEffectView::Delete(self@.task.id),
    {
        ItemEffect::Delete(self.task.id)
    }

    /// Takes one event: moves the editor on and returns what the gateway is
    /// owed for it.
    pub fn handle(&mut self, event: ItemEvent) -> (effect: ItemEffect)
        ensures
            final(self)@ == old(self)@.after(event),
            effect@ == old(self)@.effect_of(event),
    {
        match event {
            ItemEvent::PointerEnter => {
                self.pointer_enter();
                ItemEffect::Nothing
            },
            ItemEvent::PointerLeave => {
                self.pointer_leave();
                ItemEffect::Nothing
            },
            ItemEvent::Click => {
                self.click();
                ItemEffect::Nothing
            },
            ItemEvent::Input(text) => {
                self.input(text);
                ItemEffect::Nothing
            },
            ItemEvent::Commit => self.commit(),
            ItemEvent::Cancel => {
                self.cancel();
                ItemEffect::Nothing
            },
            ItemEvent::Delete => self.delete(),
        }
    }

    /// A key was pressed in the title field: the commit key commits, the
    /// cancel key cancels, the delete key asks for a delete, and any other
    /// key does nothing here.
    pub fn key_down(&mut self, key: Key) -> (effect: ItemEffect)
        ensures
            final(self)@ == old(self)@.after_key(key),
            effect@ == old(self)@.effect_of_key(key),
    {
        match key {
            Key::Enter => self.commit(),
            Key::Escape => {
                self.cancel();
                ItemEffect::Nothing
            },
            Key::Delete => self.delete(),
            Key::Other => ItemEffect::Nothing,
        }
    }

    /// A drag gesture has picked the task up: the coordinator's first slot
    /// takes a copy of it.
    pub fn drag_start(&self, drag: &mut DragCoordinator)
        ensures
            final(drag)@ == (DragView { dragging: Some(self@.task), ..old(drag)@ }),
    {
        drag.start_drag(&self.task);
    }
}

/// Committing an edit with an empty field asks for a delete. Whatever the
/// state, a commit with an empty field never asks for an update.
pub proof fn lemma_empty_commit_deletes(item: ItemView)
    requires
        item.title.len() == 0,
    ensures
        item.state == ItemState::Selected ==> item.commit_effect() == ItemEffectView::Delete(
            item.task.id,
        ),
        item.state == ItemState::Selected ==> item.effect_of(ItemEvent::Commit)
            == ItemEffectView::Delete(item.task.id),
        !(item.commit_effect() is Update),
{
}

/// A commit gesture persists at most once: whatever a commit asked of the
/// gateway, a second commit right after it asks for nothing and changes
/// nothing. So the loss of focus that follows the commit key is silent.
pub proof fn lemma_commit_persists_once(item: ItemView)
    ensures
        item.committed().commit_effect() == ItemEffectView::Nothing,
        item.committed().committed() == item.committed(),
        item.after_key(Key::Enter).effect_of(ItemEvent::Commit) == ItemEffectView::Nothing,
        item.state == ItemState::Selected ==> item.committed().old_title == item.title,
{
}

/// A commit with the field equal to the remembered text asks for no update
/// and leaves the task as it was.
pub proof fn lemma_unchanged_commit_stores_nothing(item: ItemView)
    requires
        item.title == item.old_title,
    ensures
        !(item.commit_effect() is Update),
        item.committed().task == item.task,
{
}

/// A cancel asks nothing of the gateway and brings back the remembered
/// text; from every state the editor can return to normal.
pub proof fn lemma_cancel_restores(item: ItemView)
    ensures
        item.effect_of(ItemEvent::Cancel) == ItemEffectView::Nothing,
        item.after(ItemEvent::Cancel).title == item.old_title,
        item.after(ItemEvent::Cancel).state == ItemState::Normal,
        item.after(ItemEvent::Commit).state == ItemState::Normal,
{
}

/// Every state is reached: a fresh editor is normal, becomes hovered when
/// the pointer comes over it, and selected on a click.
pub proof fn lemma_states_are_reached(task: TaskView)
    ensures
        ItemView::fresh(task).state == ItemState::Normal,
        ItemView::fresh(task).after(ItemEvent::PointerEnter).state == ItemState::Hovered,
        ItemView::fresh(task).after(ItemEvent::PointerEnter).after(ItemEvent::Click).state
            == ItemState::Selected,
        ItemView::fresh(task).after(ItemEvent::PointerEnter).after(ItemEvent::PointerLeave).state
            == ItemState::Normal,
{
}

} // verus!
