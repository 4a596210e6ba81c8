//! The CREATE TABLE statement: column types, column definitions, and the
//! statement parser.

use vstd::prelude::*;

use crate::diag::{ParseContext, ParseErr, ParseFailure};
use crate::parse::{
    identifier, lemma_alnum_run, lemma_ws0, outcome, outcome_seq, res_wf, skip_space, spec_identifier,
    spec_ws1, take_space1, views, keyword_end, PRes, SpecOut,
};
use crate::lex::kw_match;
use crate::span::Span;

verus! {

/// The type a column is declared with.
#[derive(Debug, Clone, Copy, PartialEq, Eq, Structural, Hash)]
pub enum SqlTypeInfo {
    String,
    Int,
}

impl View for SqlTypeInfo {
    type V = SqlTypeInfo;

    open spec fn view(&self) -> SqlTypeInfo {
        *self
    }
}

/// The type-keyword grammar: case-insensitive `string` or `int`.
pub open spec fn spec_sqltype(s: Seq<char>, from: int) -> SpecOut<SqlTypeInfo> {
    if kw_match(s, from, "string"@) {
        SpecOut::Parsed { end: from + "string"@.len(), val: SqlTypeInfo::String }
    } else if kw_match(s, from, "int"@) {
        SpecOut::Parsed { end: from + "int"@.len(), val: SqlTypeInfo::Int }
    } else {
        SpecOut::NoMatch
    }
}

impl SqlTypeInfo {
    /// Parse a column type keyword.
    pub fn parse<'a>(s: Span<'a>) -> (r: PRes<'a, SqlTypeInfo>)
        requires
            s.wf(),
        ensures
            res_wf(s, r),
            outcome(r) == spec_sqltype(s.text_view(), s.pos()),
    {
        if let Some(e) = keyword_end(&s, "string") {
            Ok((s.advance(e - s.offset), SqlTypeInfo::String))
        } else if let Some(e) = keyword_end(&s, "int") {
            Ok((s.advance(e - s.offset), SqlTypeInfo::Int))
        } else {
            Err(ParseErr::NoMatch(ParseFailure::leaf(ParseContext::ColumnType, s.offset)))
        }
    }
}

/// The spec-level shape of a column definition.
pub struct ColumnV {
    pub name: Seq<char>,
    pub type_info: SqlTypeInfo,
}

/// A column's name and declared type.
#[derive(Debug, Clone, Hash)]
pub struct Column {
    pub name: String,
    pub type_info: SqlTypeInfo,
}

impl View for Column {
    type V = ColumnV;

    open spec fn view(&self) -> ColumnV {
        ColumnV { name: self.name@, type_info: self.type_info }
    }
}

impl PartialEq for Column {
    fn eq(&self, other: &Self) -> (r: bool) {
        self.name == other.name && self.type_info == other.type_info
    }
}

impl Eq for Column {

}

impl vstd::std_specs::cmp::PartialEqSpecImpl for Column {
    open spec fn obeys_eq_spec() -> bool {
        true
    }

    open spec fn eq_spec(&self, other: &Self) -> bool {
        self@ == other@
    }
}

/// The column-definition grammar: an identifier, required whitespace, a
/// type keyword.
pub open spec fn spec_column(s: Seq<char>, from: int) -> SpecOut<ColumnV> {
    match spec_identifier(s, from) {
        SpecOut::Parsed { end: e1, val: name } => match spec_ws1(s, e1) {
            SpecOut::Parsed { end: e2, val: _ } => match spec_sqltype(s, e2) {
                SpecOut::Parsed { end: e3, val: ty } => SpecOut::Parsed {
                    end: e3,
                    val: ColumnV { name, type_info: ty },
                },
                _ => SpecOut::NoMatch,
            },
            _ => SpecOut::NoMatch,
        },
        _ => SpecOut::NoMatch,
    }
}

/// A parsed column definition moves the position strictly forward and
/// never commits.
pub proof fn lemma_column_progress(s: Seq<char>, from: int)
    requires
        0 <= from <= s.len(),
    ensures
        !(spec_column(s, from) is Fatal),
        spec_column(s, from) matches SpecOut::Parsed { end, .. } ==> from < end <= s.len(),
{
    lemma_alnum_run(s, from);
    match spec_identifier(s, from) {
        SpecOut::Parsed { end: e1, .. } => {
            lemma_ws0(s, e1);
        },
        _ => {},
    }
}

impl Column {
    /// Parse one column definition.
    pub fn parse<'a>(s: Span<'a>) -> (r: PRes<'a, Column>)
        requires
            s.wf(),
        ensures
            res_wf(s, r),
            outcome(r) == spec_column(s.text_view(), s.pos()),
    {
        let (s1, name) = match identifier(s) {
            Ok(ok) => ok,
            Err(e) => {
                return Err(e.wrap(ParseContext::ColumnName, s.offset).wrap(
                    ParseContext::CreateColumn,
                    s.offset,
                ));
            },
        };
        let (s2, _) = match take_space1(s1) {
            Ok(ok) => ok,
            Err(e) => {
                return Err(e.wrap(ParseContext::CreateColumn, s.offset));
            },
        };
        let (s3, ty) = match SqlTypeInfo::parse(s2) {
            Ok(ok) => ok,
            Err(e) => {
                return Err(e.wrap(ParseContext::CreateColumn, s.offset));
            },
        };
        Ok((s3, Column { name, type_info: ty }))
    }
}

/// The comma-separated column list: one column, then repeatedly optional
/// whitespace, a comma, optional whitespace, one more column. The final
/// separator is never consumed without a column after it, and at least one
/// column is required.
pub open spec fn spec_columns_more(s: Seq<char>, from: int, acc: Seq<ColumnV>) -> SpecOut<
    Seq<ColumnV>,
>
    decreases s.len() - from,
{
    let a = crate::parse::ws0(s, from);
    if a < s.len() && s[a] == ',' {
        let b = crate::parse::ws0(s, a + 1);
        match spec_column(s, b) {
            SpecOut::Parsed { end, val } => if from < end <= s.len() {
                spec_columns_more(s, end, acc.push(val))
            } else {
                SpecOut::Parsed { end: from, val: acc }
            },
            SpecOut::NoMatch => SpecOut::Parsed { end: from, val: acc },
            SpecOut::Fatal => SpecOut::Fatal,
        }
    } else {
        SpecOut::Parsed { end: from, val: acc }
    }
}

pub open spec fn spec_columns(s: Seq<char>, from: int) -> SpecOut<Seq<ColumnV>> {
    match spec_column(s, from) {
        SpecOut::Parsed { end, val } => spec_columns_more(s, end, seq![val]),
        SpecOut::NoMatch => SpecOut::NoMatch,
        SpecOut::Fatal => SpecOut::Fatal,
    }
}

pub proof fn lemma_views_push<T: View>(s: Seq<T>, x: T)
    ensures
        views(s.push(x)) =~= views(s).push(x@),
{
}

fn comma_sep_columns<'a>(s: Span<'a>) -> (r: PRes<'a, Vec<Column>>)
    requires
        s.wf(),
    ensures
        res_wf(s, r),
        outcome_seq(r) == spec_columns(s.text_view(), s.pos()),
{
    let (first, v) = match Column::parse(s) {
        Ok(ok) => ok,
        Err(e) => {
            return Err(e);
        },
    };
    let mut acc: Vec<Column> = vec![v];
    let mut cur: Span<'a> = first;
    proof {
        assert(views(acc@) =~= seq![v@]);
    }
    loop
        invariant
            s.wf(),
            cur.wf(),
            cur.text_view() == s.text_view(),
            s.pos() <= cur.pos(),
            spec_columns(s.text_view(), s.pos()) == spec_columns_more(
                s.text_view(),
                cur.pos(),
                views(acc@),
            ),
        ensures
            cur.wf(),
            cur.text_view() == s.text_view(),
            s.pos() <= cur.pos(),
            spec_columns(s.text_view(), s.pos()) == (SpecOut::Parsed {
                end: cur.pos(),
                val: views(acc@),
            }),
        decreases s.text_view().len() - cur.pos(),
    {
        let a_sp = skip_space(cur);
        proof {
            lemma_ws0(cur.text_view(), cur.pos());
        }
        if !(a_sp.offset < a_sp.len && a_sp.at(0) == ',') {
            break ;
        }
        let b_sp = skip_space(a_sp.advance(1));
        proof {
            lemma_ws0(cur.text_view(), a_sp.pos() + 1);
        }
        match Column::parse(b_sp) {
            Ok((nxt, v)) => {
                proof {
                    lemma_column_progress(s.text_view(), b_sp.pos());
                    lemma_views_push(acc@, v);
                }
                acc.push(v);
                cur = nxt;
            },
            Err(e) => {
                proof {
                    lemma_column_progress(s.text_view(), b_sp.pos());
                }
                break ;
            },
        }
    }
    Ok((cur, acc))
}

/// The parenthesized column definitions: `(` list `)` with exactly one
/// open/close pair.
pub open spec fn spec_column_defs(s: Seq<char>, from: int) -> SpecOut<Seq<ColumnV>> {
    if 0 <= from < s.len() && s[from] == '(' {
        match spec_columns(s, from + 1) {
            SpecOut::Parsed { end, val } => if end < s.len() && s[end] == ')' {
                SpecOut::Parsed { end: end + 1, val }
            } else {
                SpecOut::NoMatch
            },
            SpecOut::NoMatch => SpecOut::NoMatch,
            SpecOut::Fatal => SpecOut::Fatal,
        }
    } else {
        SpecOut::NoMatch
    }
}

/// Parse the parenthesized column definitions of a CREATE TABLE.
pub fn column_definitions<'a>(s: Span<'a>) -> (r: PRes<'a, Vec<Column>>)
    requires
        s.wf(),
    ensures
        res_wf(s, r),
        outcome_seq(r) == spec_column_defs(s.text_view(), s.pos()),
{
    if !(s.offset < s.len) {
        return Err(ParseErr::NoMatch(ParseFailure::leaf(ParseContext::ColumnDefinitions, s.offset)));
    }
    if s.at(0) != '(' {
        return Err(ParseErr::NoMatch(ParseFailure::leaf(ParseContext::ColumnDefinitions, s.offset)));
    }
    match comma_sep_columns(s.advance(1)) {
        Ok((sp, cols)) => {
            if sp.offset < sp.len && sp.at(0) == ')' {
                Ok((sp.advance(1), cols))
            } else {
                Err(ParseErr::NoMatch(ParseFailure::leaf(
                    ParseContext::ColumnDefinitions,
                    sp.offset,
                )))
            }
        },
        Err(e) => Err(e.wrap(ParseContext::ColumnDefinitions, s.offset)),
    }
}

/// The spec-level shape of a CREATE TABLE statement.
pub struct CreateV {
    pub table: Seq<char>,
    pub columns: Seq<ColumnV>,
}

/// `CREATE TABLE <table> (<column definitions>)`.
#[derive(Debug, Clone)]
pub struct CreateStatement {
    pub table: String,
    pub columns: Vec<Column>,
}

impl View for CreateStatement {
    type V = CreateV;

    open spec fn view(&self) -> CreateV {
        CreateV { table: self.table@, columns: views(self.columns@) }
    }
}

impl PartialEq for CreateStatement {
    fn eq(&self, other: &Self) -> (r: bool) {
        if !(self.table == other.table) {
            return false;
        }
        if self.columns.len() != other.columns.len() {
            proof {
                assert(views(self.columns@).len() != views(other.columns@).len());
            }
            return false;
        }
        let n = self.columns.len();
        let mut i: usize = 0;
        while i < n
            invariant
                n == self.columns@.len() == other.columns@.len(),
                i <= n,
                forall|j: int| 0 <= j < i ==> views(self.columns@)[j] == views(other.columns@)[j],
            decreases n - i,
        {
            let a = &self.columns[i];
            let b = &other.columns[i];
            if !(a.name == b.name && a.type_info == b.type_info) {
                proof {
                    assert(views(self.columns@)[i as int] == self.columns@[i as int]@);
                    assert(views(other.columns@)[i as int] == other.columns@[i as int]@);
                }
                return false;
            }
            i = i + 1;
        }
        proof {
            assert(views(self.columns@) =~= views(other.columns@));
        }
        true
    }
}

impl Eq for CreateStatement {

}

impl vstd::std_specs::cmp::PartialEqSpecImpl for CreateStatement {
    open spec fn obeys_eq_spec() -> bool {
        true
    }

    open spec fn eq_spec(&self, other: &Self) -> bool {
        self@ == other@
    }
}

/// The CREATE TABLE grammar: keywords `create` and `table`, the table
/// name, then the parenthesized column definitions, separated by required
/// whitespace.
pub open spec fn spec_create(s: Seq<char>, from: int) -> SpecOut<CreateV> {
    if !kw_match(s, from, "create"@) {
        SpecOut::NoMatch
    } else {
        match spec_ws1(s, from + "create"@.len()) {
            SpecOut::Parsed { end: e1, .. } => if !kw_match(s, e1, "table"@) {
                SpecOut::NoMatch
            } else {
                match spec_ws1(s, e1 + "table"@.len()) {
                    SpecOut::Parsed { end: e2, .. } => match spec_identifier(s, e2) {
                        SpecOut::Parsed { end: e3, val: table } => match spec_ws1(s, e3) {
                            SpecOut::Parsed { end: e4, .. } => match spec_column_defs(s, e4) {
                                SpecOut::Parsed { end: e5, val: columns } => SpecOut::Parsed {
                                    end: e5,
                                    val: CreateV { table, columns },
                                },
                                SpecOut::Fatal => SpecOut::Fatal,
                                SpecOut::NoMatch => SpecOut::NoMatch,
                            },
                            _ => SpecOut::NoMatch,
                        },
                        _ => SpecOut::NoMatch,
                    },
                    _ => SpecOut::NoMatch,
                }
            },
            _ => SpecOut::NoMatch,
        }
    }
}

impl CreateStatement {
    /// Parse a CREATE TABLE statement.
    pub fn parse<'a>(s: Span<'a>) -> (r: PRes<'a, CreateStatement>)
        requires
            s.wf(),
        ensures
            res_wf(s, r),
            outcome(r) == spec_create(s.text_view(), s.pos()),
    {
        let e0 = match keyword_end(&s, "create") {
            Some(e) => e,
            None => {
                return Err(ParseErr::NoMatch(ParseFailure::leaf(
                    ParseContext::CreateTable,
                    s.offset,
                )));
            },
        };
        let (s1, _) = match take_space1(s.advance(e0 - s.offset)) {
            Ok(ok) => ok,
            Err(e) => {
                return Err(e.wrap(ParseContext::CreateTable, s.offset));
            },
        };
        let e1 = match keyword_end(&s1, "table") {
            Some(e) => e,
            None => {
                return Err(ParseErr::NoMatch(ParseFailure::leaf(
                    ParseContext::CreateTable,
                    s1.offset,
                )));
            },
        };
        let (s2, _) = match take_space1(s1.advance(e1 - s1.offset)) {
            Ok(ok) => ok,
            Err(e) => {
                return Err(e.wrap(ParseContext::CreateTable, s.offset));
            },
        };
        let (s3, table) = match identifier(s2) {
            Ok(ok) => ok,
            Err(e) => {
                return Err(e.wrap(ParseContext::TableName, s2.offset).wrap(
                    ParseContext::CreateTable,
                    s.offset,
                ));
            },
        };
        let (s4, _) = match take_space1(s3) {
            Ok(ok) => ok,
            Err(e) => {
                return Err(e.wrap(ParseContext::CreateTable, s.offset));
            },
        };
        let (s5, columns) = match column_definitions(s4) {
            Ok(ok) => ok,
            Err(e) => {
                return Err(e.wrap(ParseContext::CreateTable, s.offset));
            },
        };
        Ok((s5, CreateStatement { table, columns }))
    }

    /// Parse a CREATE TABLE from raw text.
    pub fn parse_from_raw(input: &str) -> (r: PRes<'_, CreateStatement>)
        ensures
            outcome(r) == spec_create(input@, 0),
    {
        CreateStatement::parse(Span::new(input))
    }
}

} // verus!
