//! Laws of the engine, stated once and proved from the public contracts:
//! what a scan's schema and row ids look like after CREATE and INSERT, and
//! how the comma-separated list parsers treat empty lists and trailing
//! separators.

use vstd::prelude::*;

use crate::create::{
    lemma_column_progress, spec_column, spec_columns, spec_columns_more, ColumnV, CreateV,
};
use crate::executor::{run_post, ExecutionResponse, Executor};
use crate::error::ExecutionError;
use crate::insert::{lemma_value_progress, spec_values, spec_values_more, InsertV};
use crate::parse::{lemma_alnum_run, lemma_ws0, spec_identifier, views, ws0, SpecOut};
use crate::query::QueryV;
use crate::select::{spec_fields, spec_fields_more, SelectV};
use crate::table::TableM;
use crate::value::spec_value;

verus! {

/// The names of a schema's columns, in declaration order.
pub open spec fn col_names(cols: Seq<ColumnV>) -> Seq<Seq<char>> {
    Seq::new(cols.len(), |j: int| cols[j].name)
}

/// A valid CREATE TABLE followed by a SELECT from that table returns rows
/// whose column names equal the declared schema's column names, in
/// declaration order — and, the table being fresh, no rows at all.
pub proof fn lemma_create_then_select(
    pre: Executor,
    mid: Executor,
    fin: Executor,
    c: CreateV,
    sel: SelectV,
    r1: Result<ExecutionResponse, ExecutionError>,
    r2: Result<ExecutionResponse, ExecutionError>,
)
    requires
        sel.table == c.table,
        run_post(pre, mid, QueryV::Create(c), r1),
        run_post(mid, fin, QueryV::Select(sel), r2),
    ensures
        r2 matches Ok(resp) && resp matches ExecutionResponse::Select(rows) && rows@.len() == 0
            && forall|j: int|
            0 <= j < rows@.len() ==> col_names(views(rows@[j].columns@)) == col_names(c.columns),
{
    assert(mid.lookup(c.table) == Some(TableM { cols: c.columns, rows: Seq::empty() }));
}

/// A CREATE TABLE followed by an INSERT and a SELECT on that table
/// returns exactly one row, and its column names equal the declared
/// schema's column names, in declaration order.
pub proof fn lemma_create_insert_select(
    pre: Executor,
    s1: Executor,
    s2: Executor,
    s3: Executor,
    c: CreateV,
    ins: InsertV,
    sel: SelectV,
    r1: Result<ExecutionResponse, ExecutionError>,
    r2: Result<ExecutionResponse, ExecutionError>,
    r3: Result<ExecutionResponse, ExecutionError>,
)
    requires
        ins.table == c.table,
        sel.table == c.table,
        run_post(pre, s1, QueryV::Create(c), r1),
        run_post(s1, s2, QueryV::Insert(ins), r2),
        run_post(s2, s3, QueryV::Select(sel), r3),
    ensures
        r3 matches Ok(resp) && resp matches ExecutionResponse::Select(rows) && rows@.len() == 1
            && forall|j: int|
            0 <= j < rows@.len() ==> col_names(views(rows@[j].columns@)) == col_names(c.columns),
{
    assert(s1.lookup(c.table) == Some(TableM { cols: c.columns, rows: Seq::empty() }));
    assert(s2.lookup(c.table) matches Some(t1) && t1.cols == c.columns && t1.rows.len() == 1);
    match (s2.lookup(sel.table), r3) {
        (Some(tt), Ok(resp)) => match resp {
            ExecutionResponse::Select(rows) => {
                assert forall|j: int|
                    0 <= j < rows@.len() implies col_names(views(rows@[j].columns@)) == col_names(
                    c.columns,
                ) by {
                    let cs = views(rows@[j].columns@);
                    let ds = crate::table::row_view(rows@[j].data@);
                    let es = tt.rows[j];
                }
            },
            _ => {},
        },
        _ => {},
    }
}

/// An INSERT into an existing table keeps its schema, keeps every row
/// already stored at its id, and appends exactly one row.
pub proof fn lemma_insert_appends(
    pre: Executor,
    post: Executor,
    ins: InsertV,
    r: Result<ExecutionResponse, ExecutionError>,
    t: TableM,
)
    requires
        run_post(pre, post, QueryV::Insert(ins), r),
        pre.lookup(ins.table) == Some(t),
    ensures
        post.lookup(ins.table) matches Some(t2) && t2.cols == t.cols && t2.rows.len()
            == t.rows.len() + 1 && forall|j: int| 0 <= j < t.rows.len() ==> t2.rows[j] == t.rows[j],
{
    assert(post.lookup(ins.table) matches Some(t2) && t2.cols == t.cols);
}

/// Row ids come out of a scan strictly increasing, and inserting N rows
/// into a fresh table yields exactly the ids 0 through N-1: each returned
/// row's id is its position in insertion order.
pub proof fn lemma_row_ids(
    pre: Executor,
    post: Executor,
    sel: SelectV,
    r: Result<ExecutionResponse, ExecutionError>,
    t: TableM,
)
    requires
        run_post(pre, post, QueryV::Select(sel), r),
        pre.lookup(sel.table) == Some(t),
    ensures
        r matches Ok(resp) && resp matches ExecutionResponse::Select(rows) && rows@.len()
            == t.rows.len() && (forall|j: int| 0 <= j < rows@.len() ==> rows@[j].id == j) && (
        forall|a: int, b: int| 0 <= a < b < rows@.len() ==> rows@[a].id < rows@[b].id),
{
    match r {
        Ok(resp) => match resp {
            ExecutionResponse::Select(rows) => {
                assert forall|j: int| 0 <= j < rows@.len() implies rows@[j].id == j by {
                    let cs = views(rows@[j].columns@);
                    let ds = crate::table::row_view(rows@[j].data@);
                    let es = t.rows[j];
                }
            },
            _ => {},
        },
        _ => {},
    }
}

/// The comma-separated column list rejects an empty list: where no column
/// stands at the start, nothing matches.
pub proof fn lemma_columns_reject_empty(s: Seq<char>, from: int)
    requires
        spec_column(s, from) is NoMatch,
    ensures
        spec_columns(s, from) is NoMatch,
{
}

/// After a parsed column list nothing of the shape `,<column>` remains: a
/// separator is consumed only together with the column after it, so a
/// trailing comma is left for the enclosing parser to reject.
pub proof fn lemma_columns_reject_trailing_comma(s: Seq<char>, from: int)
    requires
        0 <= from <= s.len(),
    ensures
        spec_columns(s, from) matches SpecOut::Parsed { end, .. } ==> from < end <= s.len() && ({
            let a = ws0(s, end);
            (a < s.len() && s[a] == ',') ==> !(spec_column(s, ws0(s, a + 1)) is Parsed)
        }),
{
    match spec_column(s, from) {
        SpecOut::Parsed { end, val } => {
            lemma_column_progress(s, from);
            lemma_columns_more_trailing(s, end, seq![val]);
        },
        _ => {},
    }
}

proof fn lemma_columns_more_trailing(s: Seq<char>, from: int, acc: Seq<ColumnV>)
    requires
        0 <= from <= s.len(),
    ensures
        spec_columns_more(s, from, acc) matches SpecOut::Parsed { end, .. } ==> from <= end
            <= s.len() && ({
            let a = ws0(s, end);
            (a < s.len() && s[a] == ',') ==> !(spec_column(s, ws0(s, a + 1)) is Parsed)
        }),
    decreases s.len() - from,
{
    lemma_ws0(s, from);
    let a = ws0(s, from);
    if a < s.len() && s[a] == ',' {
        lemma_ws0(s, a + 1);
        let b = ws0(s, a + 1);
        lemma_column_progress(s, b);
        match spec_column(s, b) {
            SpecOut::Parsed { end, val } => {
                lemma_columns_more_trailing(s, end, acc.push(val));
            },
            _ => {},
        }
    }
}

/// The comma-separated field list rejects an empty list.
pub proof fn lemma_fields_reject_empty(s: Seq<char>, from: int)
    requires
        spec_identifier(s, from) is NoMatch,
    ensures
        spec_fields(s, from) is NoMatch,
{
}

/// After a parsed field list nothing of the shape `,<identifier>` remains.
pub proof fn lemma_fields_reject_trailing_comma(s: Seq<char>, from: int)
    requires
        0 <= from <= s.len(),
    ensures
        spec_fields(s, from) matches SpecOut::Parsed { end, .. } ==> from < end <= s.len() && ({
            let a = ws0(s, end);
            (a < s.len() && s[a] == ',') ==> !(spec_identifier(s, ws0(s, a + 1)) is Parsed)
        }),
{
    match spec_identifier(s, from) {
        SpecOut::Parsed { end, val } => {
            lemma_alnum_run(s, from);
            lemma_fields_more_trailing(s, end, seq![val]);
        },
        _ => {},
    }
}

proof fn lemma_fields_more_trailing(s: Seq<char>, from: int, acc: Seq<Seq<char>>)
    requires
        0 <= from <= s.len(),
    ensures
        spec_fields_more(s, from, acc) matches SpecOut::Parsed { end, .. } ==> from <= end
            <= s.len() && ({
            let a = ws0(s, end);
            (a < s.len() && s[a] == ',') ==> !(spec_identifier(s, ws0(s, a + 1)) is Parsed)
        }),
    decreases s.len() - from,
{
    lemma_ws0(s, from);
    let a = ws0(s, from);
    if a < s.len() && s[a] == ',' {
        lemma_ws0(s, a + 1);
        let b = ws0(s, a + 1);
        lemma_alnum_run(s, b);
        match spec_identifier(s, b) {
            SpecOut::Parsed { end, val } => {
                lemma_fields_more_trailing(s, end, acc.push(val));
            },
            _ => {},
        }
    }
}

/// The comma-separated value list rejects an empty list.
pub proof fn lemma_values_reject_empty(s: Seq<char>, from: int)
    requires
        spec_value(s, from) is NoMatch,
    ensures
        spec_values(s, from) is NoMatch,
{
}

/// After a parsed value list nothing of the shape `,<value>` remains.
pub proof fn lemma_values_reject_trailing_comma(s: Seq<char>, from: int)
    requires
        0 <= from <= s.len(),
    ensures
        spec_values(s, from) matches SpecOut::Parsed { end, .. } ==> from < end <= s.len() && ({
            let a = ws0(s, end);
            (a < s.len() && s[a] == ',') ==> !(spec_value(s, ws0(s, a + 1)) is Parsed)
        }),
{
    match spec_value(s, from) {
        SpecOut::Parsed { end, val } => {
            lemma_value_progress(s, from);
            lemma_values_more_trailing(s, end, seq![val]);
        },
        _ => {},
    }
}

proof fn lemma_values_more_trailing(s: Seq<char>, from: int, acc: Seq<crate::value::ValueV>)
    requires
        0 <= from <= s.len(),
    ensures
        spec_values_more(s, from, acc) matches SpecOut::Parsed { end, .. } ==> from <= end
            <= s.len() && ({
            let a = ws0(s, end);
            (a < s.len() && s[a] == ',') ==> !(spec_value(s, ws0(s, a + 1)) is Parsed)
        }),
    decreases s.len() - from,
{
    lemma_ws0(s, from);
    let a = ws0(s, from);
    if a < s.len() && s[a] == ',' {
        lemma_ws0(s, a + 1);
        let b = ws0(s, a + 1);
        lemma_value_progress(s, b);
        match spec_value(s, b) {
            SpecOut::Parsed { end, val } => {
                lemma_values_more_trailing(s, end, acc.push(val));
            },
            _ => {},
        }
    }
}

} // verus!
