//! The panels of the planner: the inbox, and the backlogs with their boards
//! and the form that creates them.

use vstd::prelude::*;
use crate::error::GatewayError;
use crate::filter::TaskFilter;
use crate::item::Key;
use crate::list::{ItemList, ItemListView};
use crate::model::{Backlog, BacklogView};
use crate::seqs::views;

verus! {

/// The list that a view starts with: nothing held, nothing typed.
pub open spec fn empty_list(filter: TaskFilter) -> ItemListView {
    ItemListView { filter, tasks: Seq::empty(), new_task: Seq::empty() }
}

/// The inbox: one list of the tasks that have neither a date nor a backlog.
pub struct InboxApp {
    pub list: ItemList,
}

impl InboxApp {
    /// The inbox before its list is filled.
    pub fn new() -> (r: InboxApp)
        ensures
            r.list@ == empty_list(TaskFilter { scheduled_date: None, backlog_id: None }),
    {
        InboxApp { list: ItemList::new(TaskFilter::inbox()) }
    }
}

/// One backlog with the list of the tasks filed under it.
pub struct BacklogBoard {
    pub backlog: Backlog,
    pub list: ItemList,
}

/// The mathematical value of a [`BacklogBoard`].
pub struct BacklogBoardView {
    pub backlog: BacklogView,
    pub list: ItemListView,
}

impl View for BacklogBoard {
    type V = BacklogBoardView;

    open spec fn view(&self) -> BacklogBoardView {
        BacklogBoardView { backlog: self.backlog@, list: self.list@ }
    }
}

/// The board of a backlog before its list is filled.
pub open spec fn fresh_board(backlog: BacklogView) -> BacklogBoardView {
    BacklogBoardView {
        backlog,
        list: empty_list(TaskFilter { scheduled_date: None, backlog_id: Some(backlog.id) }),
    }
}

impl BacklogBoard {
    /// The board of a backlog before its list is filled: the list takes the
    /// tasks filed under the backlog, whatever their date.
    pub fn new(backlog: Backlog) -> (r: BacklogBoard)
        ensures
            r@ == fresh_board(backlog@),
    {
        let list = ItemList::new(TaskFilter::for_backlog(backlog.id));
        BacklogBoard { backlog, list }
    }
}

/// The boards of all backlogs, one for each, in their order.
pub struct BacklogList {
    pub boards: Vec<BacklogBoard>,
}

impl BacklogList {
    /// One fresh board for each backlog, in the order given.
    pub fn new(backlogs: Vec<Backlog>) -> (r: BacklogList)
        ensures
            views(r.boards@) == views(backlogs@).map_values(|b: BacklogView| fresh_board(b)),
    {
        let mut boards: Vec<BacklogBoard> = Vec::new();
        let ghost all = backlogs@;
        for backlog in it: backlogs
            invariant
                it.seq() == all,
                boards@.len() == it.index(),
                forall|j: int| 0 <= j < it.index() ==> (#[trigger] boards@[j])@ == fresh_board(all[j]@),
        {
            boards.push(BacklogBoard::new(backlog));
        }
        assert(views(boards@) =~= views(all).map_values(|b: BacklogView| fresh_board(b)));
        BacklogList { boards }
    }
}

/// The backlog panel: the backlogs that were fetched, and whether the
/// dialog that manages them is open.
pub struct BacklogApp {
    pub dialog_open: bool,
    pub backlogs: Vec<Backlog>,
}

/// The mathematical value of a [`BacklogApp`].
pub struct BacklogAppView {
    pub dialog_open: bool,
    pub backlogs: Seq<BacklogView>,
}

impl View for BacklogApp {
    type V = BacklogAppView;

    open spec fn view(&self) -> BacklogAppView {
        BacklogAppView { dialog_open: self.dialog_open, backlogs: views(self.backlogs@) }
    }
}

impl BacklogApp {
    /// The panel before anything is fetched: no backlog, the dialog closed.
    pub fn new() -> (r: BacklogApp)
        ensures
            r@ == (BacklogAppView { dialog_open: false, backlogs: Seq::empty() }),
    {
        let r = BacklogApp { dialog_open: false, backlogs: Vec::new() };
        assert(views(r.backlogs@) =~= Seq::<BacklogView>::empty());
        r
    }

    /// The gateway has answered the query for the backlogs. On success the
    /// panel holds what was fetched; on failure it stays as it was.
    pub fn load(&mut self, outcome: Result<Vec<Backlog>, GatewayError>)
        ensures
            final(self)@ == match outcome {
                Ok(fetched) => BacklogAppView { backlogs: views(fetched@), ..old(self)@ },
                Err(_) => old(self)@,
            },
    {
        match outcome {
            Ok(fetched) => {
                self.backlogs = fetched;
            },
            Err(_) => {},
        }
    }

    /// The dialog was opened or closed.
    pub fn set_dialog_open(&mut self, open: bool)
        ensures
            final(self)@ == (BacklogAppView { dialog_open: open, ..old(self)@ }),
    {
        self.dialog_open = open;
    }

    /// One fresh board for each backlog that the panel holds.
    pub fn boards(&self) -> (r: BacklogList)
        ensures
            views(r.boards@) == self@.backlogs.map_values(|b: BacklogView| fresh_board(b)),
    {
        let mut copies: Vec<Backlog> = Vec::new();
        let mut i: usize = 0;
        while i < self.backlogs.len()
            invariant
                i <= self.backlogs@.len(),
                copies@.len() == i,
                forall|j: int| 0 <= j < i ==> (#[trigger] copies@[j])@ == self.backlogs@[j]@,
            decreases self.backlogs@.len() - i,
        {
            copies.push(self.backlogs[i].clone());
            i += 1;
        }
        assert(views(copies@) =~= views(self.backlogs@));
        BacklogList::new(copies)
    }
}

/// The form that creates a backlog: the name typed so far.
pub struct BacklogManager {
    pub new_backlog: String,
}

impl View for BacklogManager {
    type V = Seq<char>;

    open spec fn view(&self) -> Seq<char> {
        self.new_backlog@
    }
}

impl BacklogManager {
    /// The form with nothing typed.
    pub fn new() -> (r: BacklogManager)
        ensures
            r@ == Seq::<char>::empty(),
    {
        BacklogManager { new_backlog: String::new() }
    }

    /// The user has typed into the name field.
    pub fn input(&mut self, text: String)
        ensures
            final(self)@ == text@,
    {
        self.new_backlog = text;
    }

    /// The user has given up the entry: the field is emptied.
    pub fn cancel(&mut self)
        ensures
            final(self)@ == Seq::<char>::empty(),
    {
        self.new_backlog = String::new();
    }

    /// The user has submitted the form. An empty field asks for nothing;
    /// any other text asks for a backlog of that name.
    pub fn submit(&self) -> (r: Option<String>)
        ensures
            match r {
                Some(name) => self@.len() > 0 && name@ == self@,
                None => self@.len() == 0,
            },
    {
        if self.new_backlog.as_str().is_empty() {
            None
        } else {
            Some(self.new_backlog.clone())
        }
    }

    /// A key was pressed in the name field: the commit key submits the
    /// form, the cancel key empties the field, and any other key does
    /// nothing here.
    pub fn key_down(&mut self, key: Key) -> (r: Option<String>)
        ensures
            final(self)@ == if key == Key::Escape {
                Seq::<char>::empty()
            } else {
                old(self)@
            },
            match r {
                Some(name) => key == Key::Enter && old(self)@.len() > 0 && name@ == old(self)@,
                None => key != Key::Enter || old(self)@.len() == 0,
            },
    {
        match key {
            Key::Enter => self.submit(),
            Key::Escape => {
                self.cancel();
                None
            },
            _ => None,
        }
    }

    /// The gateway has answered a request to create a backlog. On success
    /// the field is emptied; on failure the text stays for another try.
    pub fn created(&mut self, outcome: Result<Backlog, GatewayError>)
        ensures
            final(self)@ == match outcome {
                Ok(_) => Seq::<char>::empty(),
                Err(_) => old(self)@,
            },
    {
        match outcome {
            Ok(_) => {
                self.new_backlog = String::new();
            },
            Err(_) => {},
        }
    }
}

} // verus!
