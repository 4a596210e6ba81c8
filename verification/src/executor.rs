//! The executor: owns the set of named tables and interprets a parsed
//! statement against them. CREATE inserts or replaces a table (losing any
//! existing rows), INSERT appends one row, SELECT scans all rows; INSERT
//! and SELECT fail when the table is absent, and the state is left
//! unchanged on every failure.

use vstd::prelude::*;

use crate::create::ColumnV;
use crate::error::ExecutionError;
use crate::parse::views;
use crate::query::{QueryV, SqlQuery};
use crate::row::Row;
use crate::table::{assoc_lookup, lemma_assoc_none, lemma_assoc_push, lemma_assoc_update};
use crate::table::{row_view, zip_row, Table, TableM};
use crate::value::{value_text, Value, ValueV};

verus! {

/// What a successful execution hands back.
#[derive(Debug)]
pub enum ExecutionResponse {
    Select(Vec<Row>),
    Insert,
    Create,
}

/// The texts a sequence of literals stores.
pub open spec fn value_texts(vs: Seq<ValueV>) -> Seq<Seq<char>> {
    Seq::new(vs.len(), |j: int| value_text(vs[j]))
}

/// The abstract table map a sequence of named tables denotes.
pub open spec fn tables_view(s: Seq<(String, Table)>) -> Seq<(Seq<char>, TableM)> {
    Seq::new(s.len(), |j: int| (s[j].0@, s[j].1.model()))
}

/// The engine: a mapping from table name to table, created empty, mutated
/// only by CREATE and INSERT, read by SELECT.
pub struct Executor {
    pub tables: Vec<(String, Table)>,
}

impl Executor {
    /// Table names are pairwise distinct.
    pub open spec fn wf(self) -> bool {
        forall|a: int, b: int|
            0 <= a < b < self.tables@.len() ==> self.tables@[a].0@ != self.tables@[b].0@
    }

    /// The table a name denotes, if any.
    pub open spec fn lookup(self, name: Seq<char>) -> Option<TableM> {
        assoc_lookup(tables_view(self.tables@), name)
    }

    /// A fresh engine holding no tables.
    pub fn new() -> (r: Executor)
        ensures
            r.wf(),
            forall|k: Seq<char>| r.lookup(k) is None,
    {
        Executor { tables: Vec::new() }
    }

    /// The index of the table holding a name.
    fn find(&self, name: &String) -> (r: Option<usize>)
        ensures
            match r {
                Some(i) => i < self.tables@.len() && self.tables@[i as int].0@ == name@
                    && self.lookup(name@) == Some(self.tables@[i as int].1.model()),
                None => self.lookup(name@) is None,
            },
    {
        let ghost m = tables_view(self.tables@);
        let mut i: usize = self.tables.len();
        proof {
            assert(m.subrange(0, m.len() as int) =~= m);
        }
        while i > 0
            invariant
                i <= self.tables@.len(),
                m == tables_view(self.tables@),
                assoc_lookup(m, name@) == assoc_lookup(m.subrange(0, i as int), name@),
            decreases i,
        {
            i = i - 1;
            if self.tables[i].0 == *name {
                proof {
                    let sub = m.subrange(0, i as int + 1);
                    assert(sub.last() == m[i as int]);
                }
                return Some(i);
            }
            proof {
                let sub = m.subrange(0, i as int + 1);
                assert(sub.last() == m[i as int]);
                assert(sub.drop_last() =~= m.subrange(0, i as int));
            }
        }
        proof {
            assert(m.subrange(0, 0) =~= Seq::<(Seq<char>, TableM)>::empty());
        }
        None
    }

}

/// What one execution step means: the relation between the engine before,
/// the engine after, the statement run, and the result handed back.
pub open spec fn run_post(
    pre: Executor,
    post: Executor,
    q: QueryV,
    r: Result<ExecutionResponse, ExecutionError>,
) -> bool {
    match q {
                QueryV::Create(c) => {
                    &&& r matches Ok(resp) && resp is Create
                    &&& forall|k: Seq<char>| #![auto]
                        post.lookup(k) == if k == c.table {
                            Some(TableM { cols: c.columns, rows: Seq::empty() })
                        } else {
                            pre.lookup(k)
                        }
                },
                QueryV::Insert(ins) => match pre.lookup(ins.table) {
                    Some(t) => {
                        &&& r matches Ok(resp) && resp is Insert
                        &&& forall|k: Seq<char>| #![auto]
                            post.lookup(k) == if k == ins.table {
                                Some(
                                    TableM {
                                        cols: t.cols,
                                        rows: t.rows.push(
                                            zip_row(t.cols, value_texts(ins.values)),
                                        ),
                                    },
                                )
                            } else {
                                pre.lookup(k)
                            }
                    },
                    None => {
                        &&& r matches Err(e) && e is TableNotFound && e.spec_arg() == ins.table
                        &&& post == pre
                    },
                },
                QueryV::Select(sel) => {
                    &&& post == pre
                    &&& match pre.lookup(sel.table) {
                        Some(t) => r matches Ok(resp) && resp matches ExecutionResponse::Select(
                            rows,
                        ) && rows@.len() == t.rows.len() && forall|j: int| #![auto]
                            0 <= j < rows@.len() ==> rows@[j].id == j && views(rows@[j].columns@)
                                == t.cols && row_view(rows@[j].data@) == t.rows[j],
                        None => r matches Err(e) && e is TableNotFound && e.spec_arg()
                            == sel.table,
                    }
                },
    }
}

impl Executor {
    /// Interpret one parsed statement.
    pub fn run(&mut self, query: SqlQuery) -> (r: Result<ExecutionResponse, ExecutionError>)
        requires
            old(self).wf(),
        ensures
            final(self).wf(),
            run_post(*old(self), *final(self), query@, r),
    {
        match query {
            SqlQuery::Select(sel) => {
                match self.find(&sel.table) {
                    Some(i) => {
                        let ghost tm = self.tables@[i as int].1.model();
                        let table_ref = &self.tables[i].1;
                        let mut it = table_ref.iter();
                        let mut rows: Vec<Row> = Vec::new();
                        loop
                            invariant
                                it.table.model() == tm,
                                it.index == rows@.len(),
                                it.index <= tm.rows.len(),
                                forall|j: int|
                                    #![trigger rows@[j]]
                                    0 <= j < rows@.len() ==> rows@[j].id == j && views(
                                        rows@[j].columns@,
                                    ) == tm.cols && row_view(rows@[j].data@) == tm.rows[j],
                            ensures
                                rows@.len() == tm.rows.len(),
                                forall|j: int|
                                    #![trigger rows@[j]]
                                    0 <= j < rows@.len() ==> rows@[j].id == j && views(
                                        rows@[j].columns@,
                                    ) == tm.cols && row_view(rows@[j].data@) == tm.rows[j],
                            decreases tm.rows.len() - it.index,
                        {
                            match it.next() {
                                Some(row) => {
                                    let ghost prev = rows@;
                                    rows.push(row);
                                    proof {
                                        assert forall|j: int|
                                            #![trigger rows@[j]]
                                            0 <= j < rows@.len() implies rows@[j].id == j && views(
                                            rows@[j].columns@,
                                        ) == tm.cols && row_view(rows@[j].data@) == tm.rows[j] by {
                                            if j < prev.len() {
                                                assert(rows@[j] == prev[j]);
                                            } else {
                                                assert(rows@[j] == row);
                                            }
                                        }
                                    }
                                },
                                None => {
                                    break ;
                                },
                            }
                        }
                        Ok(ExecutionResponse::Select(rows))
                    },
                    None => Err(ExecutionError::TableNotFound(sel.table)),
                }
            },
            SqlQuery::Insert(ins) => {
                let texts = value_texts_exec(&ins.values);
                match self.find(&ins.table) {
                    Some(i) => {
                        let ghost m = tables_view(self.tables@);
                        let ghost key = ins.table@;
                        let mut pair: (String, Table) = (String::new(), Table::new(Vec::new()));
                        self.tables.set_and_swap(i, &mut pair);
                        pair.1.insert(texts);
                        self.tables.set_and_swap(i, &mut pair);
                        proof {
                            let tm_new = self.tables@[i as int].1.model();
                            assert(tables_view(self.tables@) =~= m.update(
                                i as int,
                                (key, tm_new),
                            ));
                            lemma_assoc_update(m, i as int, key, tm_new);
                            assert forall|a: int, b: int|
                                0 <= a < b < self.tables@.len() implies self.tables@[a].0@
                                != self.tables@[b].0@ by {
                                if a != i {
                                    assert(self.tables@[a] == old(self).tables@[a]);
                                }
                                if b != i {
                                    assert(self.tables@[b] == old(self).tables@[b]);
                                }
                                assert(self.tables@[i as int].0@ == old(
                                    self,
                                ).tables@[i as int].0@);
                            }
                        }
                        Ok(ExecutionResponse::Insert)
                    },
                    None => Err(ExecutionError::TableNotFound(ins.table)),
                }
            },
            SqlQuery::Create(create) => {
                let table = Table::new(create.columns);
                let ghost tm_new = table.model();
                let ghost m = tables_view(self.tables@);
                let ghost key = create.table@;
                match self.find(&create.table) {
                    Some(i) => {
                        self.tables.set(i, (create.table, table));
                        proof {
                            assert(tables_view(self.tables@) =~= m.update(
                                i as int,
                                (key, tm_new),
                            ));
                            lemma_assoc_update(m, i as int, key, tm_new);
                            assert(tm_new.rows =~= Seq::<Seq<(Seq<char>, Seq<char>)>>::empty());
                            assert forall|a: int, b: int|
                                0 <= a < b < self.tables@.len() implies self.tables@[a].0@
                                != self.tables@[b].0@ by {
                                if a != i {
                                    assert(self.tables@[a] == old(self).tables@[a]);
                                }
                                if b != i {
                                    assert(self.tables@[b] == old(self).tables@[b]);
                                }
                                assert(self.tables@[i as int].0@ == old(
                                    self,
                                ).tables@[i as int].0@);
                            }
                        }
                        Ok(ExecutionResponse::Create)
                    },
                    None => {
                        proof {
                            lemma_assoc_none(m, key);
                        }
                        self.tables.push((create.table, table));
                        proof {
                            assert(tables_view(self.tables@) =~= m.push((key, tm_new)));
                            lemma_assoc_push(m, key, tm_new);
                            assert(tm_new.rows =~= Seq::<Seq<(Seq<char>, Seq<char>)>>::empty());
                            assert forall|a: int, b: int|
                                0 <= a < b < self.tables@.len() implies self.tables@[a].0@
                                != self.tables@[b].0@ by {
                                if b < self.tables@.len() - 1 {
                                    assert(self.tables@[a] == old(self).tables@[a]);
                                    assert(self.tables@[b] == old(self).tables@[b]);
                                } else {
                                    assert(self.tables@[a] == old(self).tables@[a]);
                                    assert(m[a].0 == old(self).tables@[a].0@);
                                    assert(self.tables@[b].0@ == key);
                                }
                            }
                        }
                        Ok(ExecutionResponse::Create)
                    },
                }
            },
        }
    }
}

/// Render each literal as the text the storage engine keeps.
fn value_texts_exec(vs: &Vec<Value>) -> (r: Vec<String>)
    ensures
        views(r@) =~= value_texts(views(vs@)),
{
    let mut r: Vec<String> = Vec::new();
    let mut i: usize = 0;
    while i < vs.len()
        invariant
            i <= vs@.len(),
            r@.len() == i,
            forall|j: int| 0 <= j < i ==> #[trigger] r@[j]@ == value_text(vs@[j]@),
        decreases vs@.len() - i,
    {
        r.push(vs[i].to_text());
        i = i + 1;
    }
    r
}

} // verus!
