//! A row view: a row id, a copy of the owning table's column schema, and a
//! snapshot of one stored row. Returning full snapshots keeps views valid
//! regardless of later table mutation.

use vstd::prelude::*;

use crate::error::ExecutionError;
use crate::table::{assoc_lookup, row_view, ColumnInfo, StoredRow};

verus! {

/// A read-only projection of one stored row.
#[derive(Debug)]
pub struct Row {
    pub id: usize,
    pub columns: ColumnInfo,
    pub data: StoredRow,
}

impl Row {
    pub fn new(columns: ColumnInfo, id: usize, data: StoredRow) -> (r: Row)
        ensures
            r.id == id,
            r.columns == columns,
            r.data == data,
    {
        Row { id, columns, data }
    }

    /// The owning table's column schema, in declaration order.
    pub fn columns(&self) -> (r: &ColumnInfo)
        ensures
            r == &self.columns,
    {
        &self.columns
    }

    /// The stored text under a column name; absent names are an error.
    /// When a name repeats in the row, the entry stored last wins.
    pub fn try_get(&self, column: &String) -> (r: Result<String, ExecutionError>)
        ensures
            match assoc_lookup(row_view(self.data@), column@) {
                Some(v) => r matches Ok(t) && t@ == v,
                None => r matches Err(e) && e is ColumnDoesNotExists && e.spec_arg() == column@,
            },
    {
        let ghost m = row_view(self.data@);
        let mut i: usize = self.data.len();
        proof {
            assert(m.subrange(0, m.len() as int) =~= m);
        }
        while i > 0
            invariant
                i <= self.data@.len(),
                m == row_view(self.data@),
                assoc_lookup(m, column@) == assoc_lookup(m.subrange(0, i as int), column@),
            decreases i,
        {
            i = i - 1;
            if self.data[i].0 == *column {
                proof {
                    let sub = m.subrange(0, i as int + 1);
                    assert(sub.last() == m[i as int]);
                }
                return Ok(self.data[i].1.clone());
            }
            proof {
                let sub = m.subrange(0, i as int + 1);
                assert(sub.last() == m[i as int]);
                assert(sub.drop_last() =~= m.subrange(0, i as int));
            }
        }
        proof {
            assert(m.subrange(0, 0) =~= Seq::<(Seq<char>, Seq<char>)>::empty());
        }
        Err(ExecutionError::ColumnDoesNotExists(column.clone()))
    }

    /// The stored text under a column name that is known to be present.
    pub fn get(&self, column: &String) -> (r: String)
        requires
            assoc_lookup(row_view(self.data@), column@) is Some,
        ensures
            Some(r@) == assoc_lookup(row_view(self.data@), column@),
    {
        match self.try_get(column) {
            Ok(v) => v,
            Err(_) => {
                proof {
                    assert(false);
                }
                String::new()
            },
        }
    }

    /// The row's id: its position in the table's insertion order.
    pub fn id(&self) -> (r: usize)
        ensures
            r == self.id,
    {
        self.id
    }
}

} // verus!
