//! The query dispatcher: skip leading whitespace, commit to the statement
//! whose leading keyword matches, then require a single `;` terminator.
//! Once a keyword has matched, a failure inside its statement is reported
//! as that statement's error and never retried as another statement.

use vstd::prelude::*;

use crate::create::{spec_create, CreateStatement, CreateV};
use crate::diag::{ParseContext, ParseErr, ParseFailure};
use crate::insert::{spec_insert, InsertStatement, InsertV};
use crate::lex::kw_match;
use crate::parse::{lemma_ws0, outcome, res_wf, skip_space, ws0, PRes, SpecOut};
use crate::select::{spec_select, SelectStatement, SelectV};
use crate::span::Span;

verus! {

/// The spec-level shape of a parsed statement.
pub enum QueryV {
    Create(CreateV),
    Insert(InsertV),
    Select(SelectV),
}

/// A parsed SQL statement.
#[derive(Debug, Clone)]
pub enum SqlQuery {
    Create(CreateStatement),
    Insert(InsertStatement),
    Select(SelectStatement),
}

impl View for SqlQuery {
    type V = QueryV;

    open spec fn view(&self) -> QueryV {
        match self {
            SqlQuery::Create(c) => QueryV::Create(c@),
            SqlQuery::Insert(i) => QueryV::Insert(i@),
            SqlQuery::Select(sel) => QueryV::Select(sel@),
        }
    }
}

impl PartialEq for SqlQuery {
    fn eq(&self, other: &Self) -> (r: bool) {
        match (self, other) {
            (SqlQuery::Create(a), SqlQuery::Create(b)) => a == b,
            (SqlQuery::Insert(a), SqlQuery::Insert(b)) => a == b,
            (SqlQuery::Select(a), SqlQuery::Select(b)) => a == b,
            _ => false,
        }
    }
}

impl Eq for SqlQuery {

}

impl vstd::std_specs::cmp::PartialEqSpecImpl for SqlQuery {
    open spec fn obeys_eq_spec() -> bool {
        true
    }

    open spec fn eq_spec(&self, other: &Self) -> bool {
        self@ == other@
    }
}

/// The statement terminator: optional whitespace, a literal `;`, optional
/// trailing whitespace.
pub open spec fn spec_terminator(s: Seq<char>, from: int) -> SpecOut<()> {
    let b = ws0(s, from);
    if b < s.len() && s[b] == ';' {
        SpecOut::Parsed { end: ws0(s, b + 1), val: () }
    } else {
        SpecOut::NoMatch
    }
}

/// The dispatcher grammar. Leading whitespace is skipped; the statement
/// whose keyword matches is committed to, so its failure — recoverable or
/// not — becomes a committed failure of the whole parse; with no matching
/// keyword nothing was committed and the parse is a recoverable no-match.
/// The matched statement must be followed by the terminator.
pub open spec fn spec_query(s: Seq<char>, from: int) -> SpecOut<QueryV> {
    let a = ws0(s, from);
    if kw_match(s, a, "create"@) {
        match spec_create(s, a) {
            SpecOut::Parsed { end, val } => match spec_terminator(s, end) {
                SpecOut::Parsed { end: e2, .. } => SpecOut::Parsed {
                    end: e2,
                    val: QueryV::Create(val),
                },
                _ => SpecOut::NoMatch,
            },
            _ => SpecOut::Fatal,
        }
    } else if kw_match(s, a, "select"@) {
        match spec_select(s, a) {
            SpecOut::Parsed { end, val } => match spec_terminator(s, end) {
                SpecOut::Parsed { end: e2, .. } => SpecOut::Parsed {
                    end: e2,
                    val: QueryV::Select(val),
                },
                _ => SpecOut::NoMatch,
            },
            _ => SpecOut::Fatal,
        }
    } else if kw_match(s, a, "insert"@) {
        match spec_insert(s, a) {
            SpecOut::Parsed { end, val } => match spec_terminator(s, end) {
                SpecOut::Parsed { end: e2, .. } => SpecOut::Parsed {
                    end: e2,
                    val: QueryV::Insert(val),
                },
                _ => SpecOut::NoMatch,
            },
            _ => SpecOut::Fatal,
        }
    } else {
        SpecOut::NoMatch
    }
}

/// Parse the terminator after a statement.
fn terminator<'a>(s: Span<'a>) -> (r: PRes<'a, ()>)
    requires
        s.wf(),
    ensures
        res_wf(s, r),
        outcome(r) == spec_terminator(s.text_view(), s.pos()),
{
    let b_sp = skip_space(s);
    proof {
        lemma_ws0(s.text_view(), s.pos());
    }
    if b_sp.offset < b_sp.len && b_sp.at(0) == ';' {
        let after = skip_space(b_sp.advance(1));
        proof {
            lemma_ws0(s.text_view(), b_sp.pos() + 1);
        }
        Ok((after, ()))
    } else {
        Err(ParseErr::NoMatch(ParseFailure::leaf(ParseContext::Terminator, b_sp.offset)))
    }
}

impl SqlQuery {
    /// Parse one statement and its terminator, leaving any remaining input
    /// unconsumed.
    pub fn parse<'a>(s: Span<'a>) -> (r: PRes<'a, SqlQuery>)
        requires
            s.wf(),
        ensures
            res_wf(s, r),
            outcome(r) == spec_query(s.text_view(), s.pos()),
    {
        let a_sp = skip_space(s);
        proof {
            lemma_ws0(s.text_view(), s.pos());
        }
        if let Some(_) = crate::parse::keyword_end(&a_sp, "create") {
            match CreateStatement::parse(a_sp) {
                Ok((sp, c)) => match terminator(sp) {
                    Ok((after, _)) => Ok((after, SqlQuery::Create(c))),
                    Err(e) => Err(e.wrap(ParseContext::Query, s.offset)),
                },
                Err(e) => Err(e.wrap(ParseContext::Query, s.offset).cut()),
            }
        } else if let Some(_) = crate::parse::keyword_end(&a_sp, "select") {
            match SelectStatement::parse(a_sp) {
                Ok((sp, sel)) => match terminator(sp) {
                    Ok((after, _)) => Ok((after, SqlQuery::Select(sel))),
                    Err(e) => Err(e.wrap(ParseContext::Query, s.offset)),
                },
                Err(e) => Err(e.wrap(ParseContext::Query, s.offset).cut()),
            }
        } else if let Some(_) = crate::parse::keyword_end(&a_sp, "insert") {
            match InsertStatement::parse(a_sp) {
                Ok((sp, ins)) => match terminator(sp) {
                    Ok((after, _)) => Ok((after, SqlQuery::Insert(ins))),
                    Err(e) => Err(e.wrap(ParseContext::Query, s.offset)),
                },
                Err(e) => Err(e.wrap(ParseContext::Query, s.offset).cut()),
            }
        } else {
            Err(ParseErr::NoMatch(ParseFailure::leaf(ParseContext::Query, a_sp.offset)))
        }
    }

    /// Parse a statement from raw text, leaving any remainder unconsumed.
    pub fn parse_from_raw(input: &str) -> (r: PRes<'_, SqlQuery>)
        ensures
            outcome(r) == spec_query(input@, 0),
    {
        SqlQuery::parse(Span::new(input))
    }
}

/// The whole-input grammar: one terminated statement consuming the entire
/// text, or nothing.
pub open spec fn spec_query_full(s: Seq<char>) -> Option<QueryV> {
    match spec_query(s, 0) {
        SpecOut::Parsed { end, val } => if end == s.len() {
            Some(val)
        } else {
            None
        },
        _ => None,
    }
}

impl SqlQuery {
    /// Parse a statement that must consume the whole input: leftover
    /// content after the terminator is a parse error, not a second
    /// statement.
    pub fn parse_full(input: &str) -> (r: Result<SqlQuery, ParseFailure>)
        ensures
            match r {
                Ok(q) => spec_query_full(input@) == Some(q@),
                Err(f) => spec_query_full(input@) is None && f.wf(),
            },
    {
        match SqlQuery::parse(Span::new(input)) {
            Ok((sp, q)) => {
                if sp.offset == sp.len {
                    Ok(q)
                } else {
                    Err(ParseFailure::leaf(ParseContext::TrailingInput, sp.offset))
                }
            },
            Err(e) => {
                match e {
                    ParseErr::NoMatch(f) => Err(f),
                    ParseErr::Fatal(f) => Err(f),
                }
            },
        }
    }

    /// Parse a whole-input statement, rendering any failure as a
    /// human-readable report against the source text.
    pub fn parse_format_error(input: &str) -> (r: Result<SqlQuery, String>)
        ensures
            match r {
                Ok(q) => spec_query_full(input@) == Some(q@),
                Err(_) => spec_query_full(input@) is None,
            },
    {
        match SqlQuery::parse_full(input) {
            Ok(q) => Ok(q),
            Err(f) => Err(crate::diag::render_failure(input, &f)),
        }
    }
}

} // verus!
