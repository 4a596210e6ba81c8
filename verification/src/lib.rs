//! A minimal SQL dialect engine: a verified recursive-descent parser that
//! turns raw SQL text into a typed statement tree, and an in-memory
//! execution/storage engine that interprets that tree against named tables.

use vstd::prelude::*;

mod create;
mod diag;
mod error;
mod executor;
mod insert;
mod laws;
mod lex;
mod parse;
mod query;
mod row;
mod select;
mod span;
mod table;
mod value;

verus! {

pub use create::{
    lemma_column_progress, spec_column, spec_columns, spec_create, Column, ColumnV,
    CreateStatement, CreateV, SqlTypeInfo,
};
pub use diag::{render_failure, ErrorFrame, ParseContext, ParseErr, ParseFailure};
pub use error::ExecutionError;
pub use executor::{run_post, tables_view, value_texts, ExecutionResponse, Executor};
pub use insert::{lemma_value_progress, spec_insert, spec_values, InsertStatement, InsertV};
pub use laws::{
    col_names, lemma_columns_reject_empty, lemma_columns_reject_trailing_comma,
    lemma_create_insert_select, lemma_create_then_select, lemma_fields_reject_empty,
    lemma_fields_reject_trailing_comma, lemma_insert_appends, lemma_row_ids,
    lemma_values_reject_empty, lemma_values_reject_trailing_comma,
};
pub use lex::{char_alphanumeric, eq_ignore_case, is_digit, is_space, kw_match};
pub use parse::{identifier, outcome, outcome_seq, res_wf, spec_identifier, views, ws0, PRes, SpecOut};
pub use query::{spec_query, spec_query_full, QueryV, SqlQuery};
pub use row::Row;
pub use select::{spec_fields, spec_select, SelectStatement, SelectV};
pub use span::Span;
pub use table::{assoc_lookup, row_view, zip_row, ColumnInfo, StoredRow, Table, TableIter, TableM};
pub use value::{decimal_text, spec_value, value_text, Value, ValueV};

/// A failure of either half of the engine: executing a statement, or
/// parsing one.
#[derive(Debug)]
pub enum SqlMicroError {
    ExecutionError(ExecutionError),
    ParsingError(ParseFailure),
}

impl From<ExecutionError> for SqlMicroError {
    fn from(value: ExecutionError) -> (r: Self) {
        SqlMicroError::ExecutionError(value)
    }
}

impl vstd::std_specs::convert::FromSpecImpl<ExecutionError> for SqlMicroError {
    open spec fn obeys_from_spec() -> bool {
        true
    }

    open spec fn from_spec(t: ExecutionError) -> Self {
        SqlMicroError::ExecutionError(t)
    }
}

/// Parse one line of raw text and execute it against the engine: the
/// whole pipeline behind one call. A parse failure leaves the engine
/// untouched; an executed statement relates the engine's states and the
/// response exactly as `run_post` states.
pub fn parse_and_run(exec: &mut Executor, query: &str) -> (r: Result<
    ExecutionResponse,
    SqlMicroError,
>)
    requires
        old(exec).wf(),
    ensures
        final(exec).wf(),
        match spec_query_full(query@) {
            Some(q) => match r {
                Ok(resp) => run_post(*old(exec), *final(exec), q, Ok(resp)),
                Err(SqlMicroError::ExecutionError(e)) => run_post(
                    *old(exec),
                    *final(exec),
                    q,
                    Err(e),
                ),
                Err(SqlMicroError::ParsingError(_)) => false,
            },
            None => r matches Err(SqlMicroError::ParsingError(_)) && *final(exec) == *old(exec),
        },
{
    let parsed = match SqlQuery::parse_full(query) {
        Ok(q) => q,
        Err(f) => {
            return Err(SqlMicroError::ParsingError(f));
        },
    };
    match exec.run(parsed) {
        Ok(resp) => Ok(resp),
        Err(e) => Err(SqlMicroError::ExecutionError(e)),
    }
}

} // verus!
