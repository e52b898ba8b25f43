//! The persistence gateway: what can be asked of the store of tasks,
//! backlogs and roles.

use vstd::prelude::*;
use crate::ambient::{fresh_id, now};
use crate::labels::{BacklogTable, BacklogTableView, RoleTable, RoleTableView};
use crate::error::GatewayError;
use crate::filter::TaskFilter;
use crate::model::{Backlog, Date, Id, Role, Task, Timestamp};
use crate::seqs::{holds, views};
use crate::store::{
    fresh_task, lemma_absent_is_hidden, lemma_deleted_is_hidden, lemma_stamp_moves_forward, merged,
    TaskTable, TaskTableView,
};

verus! {

/// The store behind the gateway: one table for each kind of record.
pub struct Gateway {
    pub tasks: TaskTable,
    pub backlogs: BacklogTable,
    pub roles: RoleTable,
}

/// The mathematical value of a [`Gateway`].
pub struct GatewayView {
    pub tasks: TaskTableView,
    pub backlogs: BacklogTableView,
    pub roles: RoleTableView,
}

impl View for Gateway {
    type V = GatewayView;

    open spec fn view(&self) -> GatewayView {
        GatewayView { tasks: self.tasks@, backlogs: self.backlogs@, roles: self.roles@ }
    }
}

impl GatewayView {
    /// Every table keeps its invariant.
    pub open spec fn wf(self) -> bool {
        self.tasks.wf() && self.backlogs.wf() && self.roles.wf()
    }
}

impl Gateway {
    /// A gateway to an empty store.
    pub fn new() -> (r: Gateway)
        ensures
            r@.tasks.tasks.len() == 0,
            r@.backlogs.rows.len() == 0,
            r@.roles.rows.len() == 0,
            r@.wf(),
    {
        Gateway { tasks: TaskTable::new(), backlogs: BacklogTable::new(), roles: RoleTable::new() }
    }
}

/// Creates a task with a new identifier, stamped with the current time, and
/// stores it. An empty title is refused with
/// [`GatewayError::ConstraintError`], and so is an identifier that the
/// store holds already; nothing is stored then. Which identifier and time
/// the task gets is not known beforehand: the contract fixes everything
/// else, and owes success for a title that is not empty wherever the store
/// holds no identifier of version 7.
pub fn create_task(
    gateway: &mut Gateway,
    title: String,
    date: Option<Date>,
    backlog_id: Option<Id>,
) -> (r: Result<Task, GatewayError>)
    ensures
        match r {
            Ok(task) => {
                &&& title@.len() > 0
                &&& task.id.version_of() == 7
                &&& !old(gateway)@.tasks.has(task.id)
                &&& task@ == fresh_task(task.id, title@, date, backlog_id, task.created_at)
                &&& final(gateway)@ == (GatewayView {
                    tasks: old(gateway)@.tasks.inserted(task@),
                    ..old(gateway)@
                })
            },
            Err(e) => {
                &&& e == GatewayError::ConstraintError
                &&& final(gateway)@ == old(gateway)@
                &&& title@.len() == 0 || exists|taken: Id|
                    taken.version_of() == 7 && #[trigger] old(gateway)@.tasks.has(taken)
            },
        },
        title@.len() == 0 ==> r is Err,
        final(gateway)@.tasks.wf(),
{
    let id = fresh_id();
    let at = now().time;
    let r = gateway.tasks.insert(id, title, date, backlog_id, at);
    proof {
        if r is Err && title@.len() > 0 {
            assert(id.version_of() == 7 && old(gateway)@.tasks.has(id));
        }
    }
    r
}

/// Answers a query: the tasks that belong to the filter's view and are not
/// deleted, in the order in which they were stored.
pub fn get_tasks(gateway: &Gateway, filter: TaskFilter) -> (found: Vec<Task>)
    ensures
        views(found@) == gateway@.tasks.listed(filter),
{
    gateway.tasks.list(filter)
}

/// Overwrites the mutable fields of the stored task that carries the
/// task's identifier and stamps it with the current time; where the clock
/// reads earlier than the task's creation or last update, the latest of
/// those is the stamp, so that the time of update never goes back. Returns
/// the task as it is stored then. An identifier that the store does not
/// hold is refused with [`GatewayError::NotFound`], else an empty title
/// with [`GatewayError::ConstraintError`]; nothing changes then. What the
/// clock reads is not known beforehand.
pub fn update_task(gateway: &mut Gateway, task: Task) -> (r: Result<Task, GatewayError>)
    ensures
        match r {
            Ok(stored) => {
                &&& stored.updated_at is Some
                &&& old(gateway)@.tasks.row(task.id).created_at.le(stored.updated_at->0)
                &&& old(gateway)@.tasks.row(task.id).updated_at is Some ==> old(
                    gateway,
                )@.tasks.row(task.id).updated_at->0.le(stored.updated_at->0)
                &&& exists|reading: Timestamp|
                    {
                        &&& stored@ == merged(old(gateway)@.tasks.row(task.id), task@, reading)
                        &&& final(gateway)@ == (GatewayView {
                            tasks: #[trigger] old(gateway)@.tasks.updated(task@, reading),
                            ..old(gateway)@
                        })
                    }
            },
            Err(e) => {
                &&& final(gateway)@ == old(gateway)@
                &&& e == if !old(gateway)@.tasks.has(task.id) {
                    GatewayError::NotFound
                } else {
                    GatewayError::ConstraintError
                }
            },
        },
        r is Ok <==> old(gateway)@.tasks.has(task.id) && task@.title.len() > 0,
        final(gateway)@.tasks.wf(),
{
    let at = now().time;
    let r = gateway.tasks.update(task, at);
    proof {
        if r is Ok {
            lemma_stamp_moves_forward(old(gateway)@.tasks.row(task.id), at);
            assert(gateway@.tasks == old(gateway)@.tasks.updated(task@, at));
        }
    }
    r
}

/// Marks the stored task that carries `id` as deleted at the current time.
/// A task that is marked already keeps its mark. An identifier that the
/// store does not hold is refused with [`GatewayError::NotFound`]. Which
/// time the mark carries is not known beforehand.
pub fn delete_task(gateway: &mut Gateway, id: Id) -> (r: Result<(), GatewayError>)
    ensures
        match r {
            Ok(_) => exists|at: Timestamp|
                final(gateway)@.tasks == #[trigger] old(gateway)@.tasks.deleted(id, at),
            Err(e) => e == GatewayError::NotFound && final(gateway)@.tasks == old(gateway)@.tasks,
        },
        r is Ok <==> old(gateway)@.tasks.has(id),
        final(gateway)@.backlogs == old(gateway)@.backlogs,
        final(gateway)@.roles == old(gateway)@.roles,
        forall|filter: TaskFilter| !holds(#[trigger] final(gateway)@.tasks.listed(filter), id),
        final(gateway)@.tasks.wf(),
{
    let at = now().time;
    let r = gateway.tasks.soft_delete(id, at);
    proof {
        assert forall|filter: TaskFilter| !holds(
            #[trigger] gateway@.tasks.listed(filter),
            id,
        ) by {
            if r is Ok {
                lemma_deleted_is_hidden(old(gateway)@.tasks, id, at, filter);
            } else {
                lemma_absent_is_hidden(gateway@.tasks, id, filter);
            }
        }
        if r is Ok {
            assert(gateway@.tasks == old(gateway)@.tasks.deleted(id, at));
        }
    }
    r
}

/// Creates a backlog with a new identifier and stores it. An identifier
/// that the store holds already is refused with
/// [`GatewayError::ConstraintError`]; success is owed wherever the store
/// holds no backlog with an identifier of version 7.
pub fn create_backlog(gateway: &mut Gateway, name: String) -> (r: Result<Backlog, GatewayError>)
    ensures
        match r {
            Ok(backlog) => {
                &&& backlog@.name == name@
                &&& backlog.id.version_of() == 7
                &&& !old(gateway)@.backlogs.has(backlog.id)
                &&& final(gateway)@ == (GatewayView {
                    backlogs: old(gateway)@.backlogs.inserted(backlog@),
                    ..old(gateway)@
                })
            },
            Err(e) => {
                &&& e == GatewayError::ConstraintError
                &&& final(gateway)@ == old(gateway)@
                &&& exists|taken: Id|
                    taken.version_of() == 7 && #[trigger] old(gateway)@.backlogs.has(taken)
            },
        },
        final(gateway)@.backlogs.wf(),
{
    let id = fresh_id();
    let r = gateway.backlogs.insert(id, name);
    proof {
        if r is Err {
            assert(id.version_of() == 7 && old(gateway)@.backlogs.has(id));
        }
    }
    r
}

/// All backlogs, in the order in which they were stored.
pub fn get_backlogs(gateway: &Gateway) -> (found: Vec<Backlog>)
    ensures
        views(found@) == gateway@.backlogs.rows,
{
    gateway.backlogs.list()
}

/// Gives the stored backlog that carries the backlog's identifier the
/// backlog's name. An identifier that the store does not hold is refused
/// with [`GatewayError::NotFound`].
pub fn update_backlog(gateway: &mut Gateway, backlog: Backlog) -> (r: Result<(), GatewayError>)
    ensures
        match r {
            Ok(_) => final(gateway)@ == (GatewayView {
                backlogs: old(gateway)@.backlogs.renamed(backlog@),
                ..old(gateway)@
            }),
            Err(e) => e == GatewayError::NotFound && final(gateway)@ == old(gateway)@,
        },
        r is Ok <==> old(gateway)@.backlogs.has(backlog.id),
        final(gateway)@.backlogs.wf(),
{
    gateway.backlogs.rename(backlog)
}

/// Removes the backlog that carries `id` from the store for good. Where the
/// store holds none, nothing changes. Tasks filed under the backlog keep
/// their filing.
pub fn delete_backlog(gateway: &mut Gateway, id: Id)
    ensures
        final(gateway)@ == (GatewayView {
            backlogs: old(gateway)@.backlogs.removed(id),
            ..old(gateway)@
        }),
        !final(gateway)@.backlogs.has(id),
        final(gateway)@.backlogs.wf(),
{
    gateway.backlogs.remove(id)
}

/// Creates a role with a new identifier and stores it. An identifier that
/// the store holds already is refused with
/// [`GatewayError::ConstraintError`]; success is owed wherever the store
/// holds no role with an identifier of version 7.
pub fn create_role(gateway: &mut Gateway, name: String) -> (r: Result<Role, GatewayError>)
    ensures
        match r {
            Ok(role) => {
                &&& role@.name == name@
                &&& role.id.version_of() == 7
                &&& !old(gateway)@.roles.has(role.id)
                &&& final(gateway)@ == (GatewayView {
                    roles: old(gateway)@.roles.inserted(role@),
                    ..old(gateway)@
                })
            },
            Err(e) => {
                &&& e == GatewayError::ConstraintError
                &&& final(gateway)@ == old(gateway)@
                &&& exists|taken: Id|
                    taken.version_of() == 7 && #[trigger] old(gateway)@.roles.has(taken)
            },
        },
        final(gateway)@.roles.wf(),
{
    let id = fresh_id();
    let r = gateway.roles.insert(id, name);
    proof {
        if r is Err {
            assert(id.version_of() == 7 && old(gateway)@.roles.has(id));
        }
    }
    r
}

/// All roles, in the order in which they were stored.
pub fn get_roles(gateway: &Gateway) -> (found: Vec<Role>)
    ensures
        views(found@) == gateway@.roles.rows,
{
    gateway.roles.list()
}

/// Gives the stored role that carries the role's identifier the role's
/// name. An identifier that the store does not hold is refused with
/// [`GatewayError::NotFound`].
pub fn update_role(gateway: &mut Gateway, role: Role) -> (r: Result<(), GatewayError>)
    ensures
        match r {
            Ok(_) => final(gateway)@ == (GatewayView {
                roles: old(gateway)@.roles.renamed(role@),
                ..old(gateway)@
            }),
            Err(e) => e == GatewayError::NotFound && final(gateway)@ == old(gateway)@,
        },
        r is Ok <==> old(gateway)@.roles.has(role.id),
        final(gateway)@.roles.wf(),
{
    gateway.roles.rename(role)
}

/// Removes the role that carries `id` from the store for good. Where the
/// store holds none, nothing changes.
pub fn delete_role(gateway: &mut Gateway, id: Id)
    ensures
        final(gateway)@ == (GatewayView { roles: old(gateway)@.roles.removed(id), ..old(gateway)@ }),
        !final(gateway)@.roles.has(id),
        final(gateway)@.roles.wf(),
{
    gateway.roles.remove(id)
}

} // verus!
