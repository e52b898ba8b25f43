//! Identifiers, dates, timestamps and the task record.

use vstd::prelude::*;

verus! {

/// A 128-bit identifier. Two records are the same record exactly when their
/// identifiers are equal.
#[derive(Clone, Copy, Debug, PartialEq, Eq, Hash, Structural)]
pub struct Id(pub u128);

impl Id {
    /// The version field of the identifier: bits 76 to 79 of its value.
    pub open spec fn version_of(self) -> u128 {
        (self.0 >> 76) & 0xf
    }

    /// The version field of the identifier.
    pub fn version(&self) -> (r: u8)
        ensures
            r == self.version_of(),
    {
        let value: u128 = self.0;
        let field: u128 = (value >> 76) & 0xf;
        assert(field < 16) by (bit_vector)
            requires
                field == (value >> 76) & 0xf,
        ;
        field as u8
    }
}

/// A calendar day, held as its day number in the proleptic Gregorian
/// calendar: day 1 is January 1 of year 1.
#[derive(Clone, Copy, Debug, PartialEq, Eq, Hash, Structural)]
pub struct Date {
    pub days: i32,
}

/// The day number of the first day of the calendar: January 1 of the year
/// 262144 BCE.
pub const FIRST_DAY: i32 = -95_746_129;

/// The day number of the last day of the calendar: December 31 of the year
/// 262142 CE.
pub const LAST_DAY: i32 = 95_745_399;

impl Date {
    /// The day lies within the calendar.
    pub open spec fn in_calendar(self) -> bool {
        FIRST_DAY <= self.days <= LAST_DAY
    }

    /// The day number of the Monday on or before the day. Day 1 is a
    /// Monday, and so is every seventh day from it.
    pub open spec fn monday(self) -> int {
        self.days - (self.days - 1) % 7
    }

    /// Tells whether the day lies within the calendar.
    pub fn is_in_calendar(&self) -> (r: bool)
        ensures
            r == self.in_calendar(),
    {
        FIRST_DAY <= self.days && self.days <= LAST_DAY
    }
}

/// A point in time: whole seconds since 1970-01-01T00:00:00 UTC and the
/// nanoseconds within that second.
#[derive(Clone, Copy, Debug, PartialEq, Eq, Hash, Structural)]
pub struct Timestamp {
    pub secs: i64,
    pub nanos: u32,
}

impl Timestamp {
    /// `self` is not later than `other`.
    pub open spec fn le(self, other: Timestamp) -> bool {
        self.secs < other.secs || (self.secs == other.secs && self.nanos <= other.nanos)
    }

    /// The later of the two times.
    pub open spec fn later_of(self, other: Timestamp) -> Timestamp {
        if self.le(other) {
            other
        } else {
            self
        }
    }

    /// The later of the two times.
    pub fn later(self, other: Timestamp) -> (r: Timestamp)
        ensures
            r == self.later_of(other),
            self.le(r),
            other.le(r),
    {
        if self.is_le(&other) {
            other
        } else {
            self
        }
    }

    /// Tells whether `self` is not later than `other`.
    pub fn is_le(&self, other: &Timestamp) -> (r: bool)
        ensures
            r == self.le(*other),
    {
        self.secs < other.secs || (self.secs == other.secs && self.nanos <= other.nanos)
    }
}

/// A task as the planner stores and shows it.
#[derive(Debug, PartialEq, Eq)]
pub struct Task {
    pub id: Id,
    pub title: String,
    pub important: bool,
    pub urgent: bool,
    pub content: Option<String>,
    pub completed: bool,
    pub role_id: Option<Id>,
    pub backlog_id: Option<Id>,
    pub scheduled_date: Option<Date>,
    pub created_at: Timestamp,
    pub updated_at: Option<Timestamp>,
    pub deleted_at: Option<Timestamp>,
}

/// The mathematical value of a [`Task`]: its texts are sequences of
/// characters.
pub struct TaskView {
    pub id: Id,
    pub title: Seq<char>,
    pub important: bool,
    pub urgent: bool,
    pub content: Option<Seq<char>>,
    pub completed: bool,
    pub role_id: Option<Id>,
    pub backlog_id: Option<Id>,
    pub scheduled_date: Option<Date>,
    pub created_at: Timestamp,
    pub updated_at: Option<Timestamp>,
    pub deleted_at: Option<Timestamp>,
}

/// The value of an optional text.
pub open spec fn text_view(text: Option<String>) -> Option<Seq<char>> {
    match text {
        Some(s) => Some(s@),
        None => None,
    }
}

impl View for Task {
    type V = TaskView;

    open spec fn view(&self) -> TaskView {
        TaskView {
            id: self.id,
            title: self.title@,
            important: self.important,
            urgent: self.urgent,
            content: text_view(self.content),
            completed: self.completed,
            role_id: self.role_id,
            backlog_id: self.backlog_id,
            scheduled_date: self.scheduled_date,
            created_at: self.created_at,
            updated_at: self.updated_at,
            deleted_at: self.deleted_at,
        }
    }
}

impl Clone for Task {
    fn clone(&self) -> (r: Self)
        ensures
            r == *self,
    {
        Task {
            id: self.id,
            title: self.title.clone(),
            important: self.important,
            urgent: self.urgent,
            content: match &self.content {
                Some(text) => Some(text.clone()),
                None => None,
            },
            completed: self.completed,
            role_id: self.role_id,
            backlog_id: self.backlog_id,
            scheduled_date: self.scheduled_date,
            created_at: self.created_at,
            updated_at: self.updated_at,
            deleted_at: self.deleted_at,
        }
    }
}

/// What a backlog and a role have in common, as a mathematical value: an
/// identifier and a name.
pub struct LabelView {
    pub id: Id,
    pub name: Seq<char>,
}

/// The mathematical value of a [`Backlog`].
pub type BacklogView = LabelView;

/// The mathematical value of a [`Role`].
pub type RoleView = LabelView;

/// A record that is an identifier and a name. The tables of such records
/// are written once, for every type that is one.
pub trait Label: Sized {
    /// The identifier and the name of the record.
    spec fn label(&self) -> LabelView;

    /// The record with this identifier and this name.
    fn make(id: Id, name: String) -> (r: Self)
        ensures
            r.label() == (LabelView { id, name: name@ }),
    ;

    /// The identifier of the record.
    fn key(&self) -> (r: Id)
        ensures
            r == self.label().id,
    ;

    /// A copy of the record.
    fn copy(&self) -> (r: Self)
        ensures
            r.label() == self.label(),
    ;
}

/// A named collection that tasks can be filed into.
#[derive(Debug, PartialEq, Eq)]
pub struct Backlog {
    pub id: Id,
    pub name: String,
}

impl View for Backlog {
    type V = LabelView;

    open spec fn view(&self) -> LabelView {
        LabelView { id: self.id, name: self.name@ }
    }
}

impl Clone for Backlog {
    fn clone(&self) -> (r: Self)
        ensures
            r == *self,
    {
        Backlog { id: self.id, name: self.name.clone() }
    }
}

impl Label for Backlog {
    open spec fn label(&self) -> LabelView {
        self@
    }

    fn make(id: Id, name: String) -> (r: Self) {
        Backlog { id, name }
    }

    fn key(&self) -> (r: Id) {
        self.id
    }

    fn copy(&self) -> (r: Self) {
        self.clone()
    }
}

/// A label that a task can carry.
#[derive(Debug, PartialEq, Eq)]
pub struct Role {
    pub id: Id,
    pub name: String,
}

impl View for Role {
    type V = LabelView;

    open spec fn view(&self) -> LabelView {
        LabelView { id: self.id, name: self.name@ }
    }
}

impl Clone for Role {
    fn clone(&self) -> (r: Self)
        ensures
            r == *self,
    {
        Role { id: self.id, name: self.name.clone() }
    }
}

impl Label for Role {
    open spec fn label(&self) -> LabelView {
        self@
    }

    fn make(id: Id, name: String) -> (r: Self) {
        Role { id, name }
    }

    fn key(&self) -> (r: Id) {
        self.id
    }

    fn copy(&self) -> (r: Self) {
        self.clone()
    }
}

} // verus!
