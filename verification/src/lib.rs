//! A personal task planner without its user interface: the task model, the
//! filters that sort tasks into views, an in-memory persistence gateway, the
//! inline-edit state machine of a displayed task, and the protocol that moves
//! a task between views by drag and drop.

pub mod ambient;
pub mod drag;
pub mod error;
pub mod filter;
pub mod gateway;
pub mod item;
pub mod labels;
pub mod laws;
pub mod list;
pub mod model;
pub mod panels;
pub mod schedule;
pub mod seqs;
pub mod store;

pub use drag::DragCoordinator;
pub use error::GatewayError;
pub use filter::TaskFilter;
pub use gateway::{
    create_backlog, create_role, create_task, delete_backlog, delete_role, delete_task,
    get_backlogs, get_roles, get_tasks, update_backlog, update_role, update_task, Gateway,
};
pub use item::{Item, ItemEffect, ItemEvent, ItemState, Key};
pub use list::{ItemList, NewTask};
pub use model::{Backlog, Date, Id, Role, Task, Timestamp};
pub use panels::{BacklogApp, BacklogBoard, BacklogList, BacklogManager, InboxApp};
pub use schedule::{DailySchedule, ScheduleApp, WeeklySchedule};
