//! The persistence gateway's rules on an in-memory table of named records:
//! the backlogs, and the roles.

use vstd::prelude::*;
use crate::error::GatewayError;
use crate::model::{Backlog, Id, Label, LabelView, Role};

verus! {

/// The predicate "does not carry `id`".
pub open spec fn label_other_than(id: Id) -> spec_fn(LabelView) -> bool {
    |l: LabelView| l.id != id
}

/// The rows of a table of named records, in the order in which they were
/// stored.
pub struct LabelTableView {
    pub rows: Seq<LabelView>,
}

impl LabelTableView {
    /// The table's invariant: identifiers are unique.
    pub open spec fn wf(self) -> bool {
        forall|i: int, j: int|
            0 <= i < j < self.rows.len() ==> (#[trigger] self.rows[i]).id != (
            #[trigger] self.rows[j]).id
    }

    /// Some row carries `id`.
    pub open spec fn has(self, id: Id) -> bool {
        exists|i: int| 0 <= i < self.rows.len() && (#[trigger] self.rows[i]).id == id
    }

    /// The table with one more row at its end.
    pub open spec fn inserted(self, label: LabelView) -> LabelTableView {
        LabelTableView { rows: self.rows.push(label) }
    }

    /// The table with the record's name on each row that carries its
    /// identifier.
    pub open spec fn renamed(self, label: LabelView) -> LabelTableView {
        LabelTableView {
            rows: self.rows.map_values(
                |row: LabelView| if row.id == label.id {
                    label
                } else {
                    row
                },
            ),
        }
    }

    /// The table without the rows that carry `id`.
    pub open spec fn removed(self, id: Id) -> LabelTableView {
        LabelTableView { rows: self.rows.filter(label_other_than(id)) }
    }
}

/// Removing rows by identifier keeps identifiers unique and leaves no row
/// with the identifier.
pub proof fn lemma_labels_removed(table: LabelTableView, id: Id)
    requires
        table.wf(),
    ensures
        table.removed(id).wf(),
        !table.removed(id).has(id),
        forall|k: int|
            0 <= k < table.removed(id).rows.len() ==> table.has(
                (#[trigger] table.removed(id).rows[k]).id,
            ),
    decreases table.rows.len(),
{
    reveal(Seq::filter);
    if table.rows.len() > 0 {
        let init = LabelTableView { rows: table.rows.drop_last() };
        let last = table.rows.last();
        assert(init.wf()) by {
            assert forall|i: int, j: int| 0 <= i < j < init.rows.len() implies (
            #[trigger] init.rows[i]).id != (#[trigger] init.rows[j]).id by {
                assert(table.rows[i].id != table.rows[j].id);
            }
        }
        lemma_labels_removed(init, id);
        let kept = table.removed(id).rows;
        let kept_init = init.removed(id).rows;
        assert forall|k: int| 0 <= k < kept.len() implies table.has((#[trigger] kept[k]).id) by {
            if k < kept_init.len() {
                assert(init.has(kept_init[k].id));
                let m = choose|m: int|
                    0 <= m < init.rows.len() && (#[trigger] init.rows[m]).id == kept_init[k].id;
                assert(table.rows[m].id == kept[k].id);
            } else {
                assert(table.rows[table.rows.len() - 1].id == kept[k].id);
            }
        }
        assert forall|i: int, j: int| 0 <= i < j < kept.len() implies (#[trigger] kept[i]).id != (
        #[trigger] kept[j]).id by {
            if j < kept_init.len() {
                assert(kept_init[i].id != kept_init[j].id);
            } else {
                assert(init.has(kept_init[i].id));
                let m = choose|m: int|
                    0 <= m < init.rows.len() && (#[trigger] init.rows[m]).id == kept_init[i].id;
                assert(table.rows[m].id != table.rows[table.rows.len() - 1].id);
            }
        }
        if table.removed(id).has(id) {
            let k = choose|k: int| 0 <= k < kept.len() && (#[trigger] kept[k]).id == id;
            if k < kept_init.len() {
                assert(kept_init[k].id == id);
            }
        }
    }
}

/// The values of a sequence of named records, in order.
pub open spec fn labels<T: Label>(rows: Seq<T>) -> Seq<LabelView> {
    rows.map_values(|row: T| row.label())
}

/// The values of a sequence with one more record are the values of the
/// sequence with one more value.
pub proof fn lemma_labels_push<T: Label>(rows: Seq<T>, row: T)
    ensures
        labels(rows.push(row)) == labels(rows).push(row.label()),
{
    assert(labels(rows.push(row)) =~= labels(rows).push(row.label()));
}

/// A table of named records behind the gateway. Its rows keep the invariant
/// of [`LabelTableView::wf`], whatever is asked of it.
pub struct LabelTable<T: Label> {
    rows: Vec<T>,
}

/// The table of backlogs.
pub type BacklogTable = LabelTable<Backlog>;

/// The table of roles.
pub type RoleTable = LabelTable<Role>;

/// The rows of the table of backlogs.
pub type BacklogTableView = LabelTableView;

/// The rows of the table of roles.
pub type RoleTableView = LabelTableView;

impl<T: Label> View for LabelTable<T> {
    type V = LabelTableView;

    closed spec fn view(&self) -> LabelTableView {
        LabelTableView { rows: labels(self.rows@) }
    }
}

impl<T: Label> LabelTable<T> {
    #[verifier::type_invariant]
    spec fn inv(self) -> bool {
        self@.wf()
    }

    /// An empty table.
    pub fn new() -> (r: LabelTable<T>)
        ensures
            r@.rows == Seq::<LabelView>::empty(),
            r@.wf(),
    {
        let r = LabelTable { rows: Vec::<T>::new() };
        assert(labels(r.rows@) =~= Seq::<LabelView>::empty());
        r
    }

    /// Hands the rows out and leaves the table empty, so that they can be
    /// changed and put back.
    fn take_rows(&mut self) -> (rows: Vec<T>)
        ensures
            rows@ == old(self).rows@,
            final(self).rows@ == Seq::<T>::empty(),
    {
        let mut rows: Vec<T> = Vec::new();
        proof {
            assert(labels(rows@) =~= Seq::<LabelView>::empty());
        }
        std::mem::swap(&mut self.rows, &mut rows);
        rows
    }

    /// Tells whether some row carries `id`.
    pub fn contains(&self, id: Id) -> (r: bool)
        ensures
            r == self@.has(id),
            self@.wf(),
    {
        proof {
            use_type_invariant(self);
        }
        let mut i: usize = 0;
        while i < self.rows.len()
            invariant
                self@.wf(),
                i <= self.rows@.len(),
                forall|j: int| 0 <= j < i ==> (#[trigger] self.rows@[j]).label().id != id,
            decreases self.rows@.len() - i,
        {
            if self.rows[i].key() == id {
                assert(self@.rows[i as int].id == id);
                return true;
            }
            i += 1;
        }
        proof {
            if self@.has(id) {
                let j = choose|j: int|
                    0 <= j < self@.rows.len() && (#[trigger] self@.rows[j]).id == id;
                assert(self.rows@[j].label().id == id);
            }
        }
        false
    }

    /// Stores a new record under `id`. Refused with
    /// [`GatewayError::ConstraintError`] where the identifier is taken; the
    /// table is then unchanged.
    pub fn insert(&mut self, id: Id, name: String) -> (r: Result<T, GatewayError>)
        ensures
            match r {
                Ok(record) => {
                    &&& !old(self)@.has(id)
                    &&& record.label() == (LabelView { id, name: name@ })
                    &&& final(self)@ == old(self)@.inserted(record.label())
                },
                Err(e) => {
                    &&& e == GatewayError::ConstraintError
                    &&& old(self)@.has(id)
                    &&& final(self)@ == old(self)@
                },
            },
            final(self)@.wf(),
    {
        proof {
            use_type_invariant(&*self);
        }
        if self.contains(id) {
            return Err(GatewayError::ConstraintError);
        }
        let record = T::make(id, name);
        let stored = record.copy();
        proof {
            lemma_labels_push(self.rows@, stored);
            let after = self@.inserted(stored.label()).rows;
            assert forall|i: int, j: int| 0 <= i < j < after.len() implies (#[trigger] after[i]).id
                != (#[trigger] after[j]).id by {
                if j == self@.rows.len() {
                    assert(self@.rows[i].id != id);
                } else {
                    assert(self@.rows[i].id != self@.rows[j].id);
                }
            }
        }
        let mut rows = self.take_rows();
        rows.push(stored);
        self.rows = rows;
        Ok(record)
    }

    /// Copies of all rows, in the table's order.
    pub fn list(&self) -> (found: Vec<T>)
        ensures
            labels(found@) == self@.rows,
            self@.wf(),
    {
        proof {
            use_type_invariant(self);
        }
        let mut found: Vec<T> = Vec::new();
        let mut i: usize = 0;
        while i < self.rows.len()
            invariant
                i <= self.rows@.len(),
                found@.len() == i,
                forall|j: int| 0 <= j < i ==> (#[trigger] found@[j]).label() == self.rows@[j].label(),
            decreases self.rows@.len() - i,
        {
            found.push(self.rows[i].copy());
            i += 1;
        }
        assert(labels(found@) =~= labels(self.rows@));
        found
    }

    /// Gives the row that carries the record's identifier the record's
    /// name. Refused with [`GatewayError::NotFound`] where no row carries
    /// the identifier.
    pub fn rename(&mut self, record: T) -> (r: Result<(), GatewayError>)
        ensures
            match r {
                Ok(_) => old(self)@.has(record.label().id) && final(self)@ == old(self)@.renamed(
                    record.label(),
                ),
                Err(e) => {
                    &&& e == GatewayError::NotFound
                    &&& !old(self)@.has(record.label().id)
                    &&& final(self)@ == old(self)@
                },
            },
            final(self)@.wf(),
    {
        proof {
            use_type_invariant(&*self);
        }
        let id = record.key();
        if !self.contains(id) {
            return Err(GatewayError::NotFound);
        }
        let rows = self.take_rows();
        let ghost before = rows@;
        let mut renamed: Vec<T> = Vec::new();
        for row in it: rows
            invariant
                it.seq() == before,
                renamed@.len() == it.index(),
                forall|j: int|
                    0 <= j < it.index() ==> (#[trigger] renamed@[j]).label() == if before[j].label().id
                        == id {
                        record.label()
                    } else {
                        before[j].label()
                    },
                id == record.label().id,
        {
            if row.key() == id {
                renamed.push(record.copy());
            } else {
                renamed.push(row);
            }
        }
        proof {
            let after = old(self)@.renamed(record.label()).rows;
            assert(labels(renamed@) =~= after);
            assert forall|i: int, j: int| 0 <= i < j < after.len() implies (#[trigger] after[i]).id
                != (#[trigger] after[j]).id by {
                assert(old(self)@.rows[i].id != old(self)@.rows[j].id);
            }
        }
        self.rows = renamed;
        Ok(())
    }

    /// Removes the rows that carry `id`. Where there is none, nothing
    /// changes.
    pub fn remove(&mut self, id: Id)
        ensures
            final(self)@ == old(self)@.removed(id),
            final(self)@.wf(),
            !final(self)@.has(id),
    {
        proof {
            use_type_invariant(&*self);
        }
        let rows = self.take_rows();
        let ghost before = rows@;
        let mut kept: Vec<T> = Vec::new();
        proof {
            reveal(Seq::filter);
            assert(labels(before.take(0)) =~= Seq::<LabelView>::empty());
            assert(labels(kept@) =~= Seq::<LabelView>::empty());
        }
        for row in it: rows
            invariant
                it.seq() == before,
                labels(kept@) == labels(before.take(it.index() as int)).filter(
                    label_other_than(id),
                ),
        {
            proof {
                let i = it.index() as int;
                assert(before.take(i + 1) =~= before.take(i).push(row));
                lemma_labels_push(before.take(i), row);
                labels(before.take(i)).lemma_filter_push(row.label(), label_other_than(id));
                lemma_labels_push(kept@, row);
            }
            if row.key() != id {
                kept.push(row);
            }
        }
        proof {
            assert(before.take(before.len() as int) =~= before);
            lemma_labels_removed(old(self)@, id);
        }
        self.rows = kept;
    }
}

} // verus!
