//! The storage engine: a table owns a fixed column schema and an ordered
//! row store. Row ids are assigned by a strictly increasing counter that
//! starts at zero and never reuses an id, so a row's id is its index in
//! the store.

use vstd::prelude::*;

use crate::create::{Column, ColumnV};
use crate::parse::views;
use crate::row::Row;

verus! {

/// One stored row: column name to stored text, in insertion order. When a
/// name repeats, the entry stored last wins on lookup.
pub type StoredRow = Vec<(String, String)>;

/// The schema of a table: its columns in declaration order.
pub type ColumnInfo = Vec<Column>;

/// An association sequence, abstracted: later entries shadow earlier ones.
pub open spec fn assoc_lookup<V>(m: Seq<(Seq<char>, V)>, k: Seq<char>) -> Option<V>
    decreases m.len(),
{
    if m.len() == 0 {
        None
    } else if m.last().0 == k {
        Some(m.last().1)
    } else {
        assoc_lookup(m.drop_last(), k)
    }
}

/// Appending a fresh entry changes exactly that key's binding.
pub proof fn lemma_assoc_push<V>(m: Seq<(Seq<char>, V)>, k: Seq<char>, v: V)
    ensures
        forall|k2: Seq<char>| #![auto]
            assoc_lookup(m.push((k, v)), k2) == if k2 == k {
                Some(v)
            } else {
                assoc_lookup(m, k2)
            },
{
    assert(m.push((k, v)).drop_last() =~= m);
    assert(m.push((k, v)).last() == (k, v));
}

/// With distinct keys, replacing the entry at the position holding `k`
/// changes exactly that key's binding.
pub proof fn lemma_assoc_update<V>(m: Seq<(Seq<char>, V)>, i: int, k: Seq<char>, v: V)
    requires
        0 <= i < m.len(),
        m[i].0 == k,
        forall|a: int, b: int| 0 <= a < b < m.len() ==> m[a].0 != m[b].0,
    ensures
        forall|k2: Seq<char>| #![auto]
            assoc_lookup(m.update(i, (k, v)), k2) == if k2 == k {
                Some(v)
            } else {
                assoc_lookup(m, k2)
            },
    decreases m.len(),
{
    let mu = m.update(i, (k, v));
    if i == m.len() - 1 {
        assert(mu.last() == (k, v));
        assert(mu.drop_last() =~= m.drop_last());
        assert forall|k2: Seq<char>| #![auto]
            assoc_lookup(mu, k2) == if k2 == k {
                Some(v)
            } else {
                assoc_lookup(m, k2)
            } by {
            if k2 != k {
                assert(assoc_lookup(mu, k2) == assoc_lookup(m.drop_last(), k2));
                assert(assoc_lookup(m, k2) == assoc_lookup(m.drop_last(), k2));
            }
        }
    } else {
        assert(m.drop_last()[i].0 == k);
        assert(forall|a: int, b: int|
            0 <= a < b < m.drop_last().len() ==> m.drop_last()[a].0 != m.drop_last()[b].0);
        lemma_assoc_update(m.drop_last(), i, k, v);
        assert(mu.last() == m.last());
        assert(m.last().0 != k);
        assert(mu.drop_last() =~= m.drop_last().update(i, (k, v)));
        assert forall|k2: Seq<char>| #![auto]
            assoc_lookup(mu, k2) == if k2 == k {
                Some(v)
            } else {
                assoc_lookup(m, k2)
            } by {
            if k2 == m.last().0 {
                assert(assoc_lookup(mu, k2) == Some(m.last().1));
                assert(assoc_lookup(m, k2) == Some(m.last().1));
            } else {
                assert(assoc_lookup(mu, k2) == assoc_lookup(mu.drop_last(), k2));
                assert(assoc_lookup(m, k2) == assoc_lookup(m.drop_last(), k2));
            }
        }
    }
}

/// An absent key is held by no entry.
pub proof fn lemma_assoc_none<V>(m: Seq<(Seq<char>, V)>, k: Seq<char>)
    requires
        assoc_lookup(m, k) is None,
    ensures
        forall|i: int| 0 <= i < m.len() ==> m[i].0 != k,
    decreases m.len(),
{
    if m.len() > 0 {
        lemma_assoc_none(m.drop_last(), k);
        assert(forall|i: int| 0 <= i < m.len() - 1 ==> m[i] == m.drop_last()[i]);
    }
}

/// The spec-level content of one stored row.
pub open spec fn row_view(r: Seq<(String, String)>) -> Seq<(Seq<char>, Seq<char>)> {
    Seq::new(r.len(), |j: int| (r[j].0@, r[j].1@))
}

/// The spec-level content of a table: its schema and, for each row in
/// ascending id order, that row's entries.
pub ghost struct TableM {
    pub cols: Seq<ColumnV>,
    pub rows: Seq<Seq<(Seq<char>, Seq<char>)>>,
}

/// The row a given sequence of values makes under a schema: values are
/// zipped positionally against the column names, the shorter side
/// truncating the longer.
pub open spec fn zip_row(cols: Seq<ColumnV>, vals: Seq<Seq<char>>) -> Seq<(Seq<char>, Seq<char>)> {
    Seq::new(
        if cols.len() <= vals.len() {
            cols.len()
        } else {
            vals.len()
        },
        |j: int| (cols[j].name, vals[j]),
    )
}

/// A table: one schema, fixed at creation, and the ordered row store.
pub struct Table {
    pub columns: ColumnInfo,
    pub rows: Vec<StoredRow>,
}

impl Table {
    pub open spec fn model(self) -> TableM {
        TableM {
            cols: views(self.columns@),
            rows: Seq::new(self.rows@.len(), |j: int| row_view(self.rows@[j]@)),
        }
    }

    /// A new table with the given schema and no rows.
    pub fn new(columns: Vec<Column>) -> (r: Table)
        ensures
            r.model().cols == views(columns@),
            r.model().rows =~= Seq::<Seq<(Seq<char>, Seq<char>)>>::empty(),
    {
        Table { columns, rows: Vec::new() }
    }

    /// Append one row: the next id is the number of rows stored so far,
    /// and the values are zipped positionally against the schema. Cannot
    /// fail; no arity or type check is made against the schema.
    pub fn insert(&mut self, values: Vec<String>)
        ensures
            final(self).model().cols == old(self).model().cols,
            final(self).model().rows =~= old(self).model().rows.push(
                zip_row(old(self).model().cols, views(values@)),
            ),
    {
        let n = if self.columns.len() <= values.len() {
            self.columns.len()
        } else {
            values.len()
        };
        let mut row: StoredRow = Vec::new();
        let mut j: usize = 0;
        while j < n
            invariant
                n <= self.columns@.len(),
                n <= values@.len(),
                j <= n,
                row@.len() == j,
                forall|i: int|
                    0 <= i < j ==> #[trigger] row@[i] == (self.columns@[i].name, values@[i]),
            decreases n - j,
        {
            row.push((self.columns[j].name.clone(), values[j].clone()));
            j = j + 1;
        }
        proof {
            assert(row_view(row@) =~= zip_row(self.model().cols, views(values@)));
        }
        self.rows.push(row);
    }

    /// A single-pass scan over the rows in ascending id order.
    pub fn iter<'a>(&'a self) -> (r: TableIter<'a>)
        ensures
            *r.table == *self,
            r.index == 0,
    {
        TableIter::new(self)
    }
}

/// A scan in progress: the next row to produce, by index.
pub struct TableIter<'a> {
    pub table: &'a Table,
    pub index: usize,
}

impl<'a> TableIter<'a> {
    /// Begin a scan at the first row.
    pub fn new(table: &'a Table) -> (r: TableIter<'a>)
        ensures
            r.table == table,
            r.index == 0,
    {
        TableIter { table, index: 0 }
    }

    /// The next row view, sharing the table's schema and holding a
    /// snapshot of the stored row, or nothing when the scan is done.
    pub fn next(&mut self) -> (r: Option<Row>)
        ensures
            final(self).table == old(self).table,
            match r {
                Some(row) => {
                    &&& old(self).index < old(self).table.model().rows.len()
                    &&& final(self).index == old(self).index + 1
                    &&& row.id == old(self).index
                    &&& views(row.columns@) == old(self).table.model().cols
                    &&& row_view(row.data@) == old(self).table.model().rows[old(self).index as int]
                },
                None => {
                    &&& old(self).index >= old(self).table.model().rows.len()
                    &&& *final(self) == *old(self)
                },
            },
    {
        if self.index < self.table.rows.len() {
            let id = self.index;
            let data = clone_stored_row(&self.table.rows[id]);
            let columns = clone_columns(&self.table.columns);
            self.index = self.index + 1;
            proof {
                assert(views(columns@) =~= views(self.table.columns@));
                assert(row_view(data@) =~= row_view(self.table.rows@[id as int]@));
            }
            Some(Row::new(columns, id, data))
        } else {
            None
        }
    }
}

/// Clone a stored row, entry by entry.
pub(crate) fn clone_stored_row(r: &StoredRow) -> (c: StoredRow)
    ensures
        c@.len() == r@.len(),
        forall|i: int| 0 <= i < r@.len() ==> c@[i].0@ == r@[i].0@ && c@[i].1@ == r@[i].1@,
{
    let mut c: StoredRow = Vec::new();
    let mut i: usize = 0;
    while i < r.len()
        invariant
            i <= r@.len(),
            c@.len() == i,
            forall|j: int| 0 <= j < i ==> c@[j].0@ == r@[j].0@ && c@[j].1@ == r@[j].1@,
        decreases r@.len() - i,
    {
        c.push((r[i].0.clone(), r[i].1.clone()));
        i = i + 1;
    }
    c
}

/// Clone a schema, column by column.
pub(crate) fn clone_columns(cols: &ColumnInfo) -> (c: ColumnInfo)
    ensures
        c@.len() == cols@.len(),
        forall|i: int| 0 <= i < cols@.len() ==> c@[i]@ == cols@[i]@,
{
    let mut c: ColumnInfo = Vec::new();
    let mut i: usize = 0;
    while i < cols.len()
        invariant
            i <= cols@.len(),
            c@.len() == i,
            forall|j: int| 0 <= j < i ==> c@[j]@ == cols@[j]@,
        decreases cols@.len() - i,
    {
        c.push(Column { name: cols[i].name.clone(), type_info: cols[i].type_info });
        i = i + 1;
    }
    c
}

} // verus!
