//! The SELECT statement: a comma-separated field list and the table to
//! read from. The field list is captured syntactically; the executor
//! ignores it and always returns full rows.

use vstd::prelude::*;

use crate::diag::{ParseContext, ParseErr, ParseFailure};
use crate::lex::kw_match;
use crate::parse::{
    identifier, lemma_alnum_run, lemma_ws0, outcome, outcome_seq, res_wf, skip_space,
    spec_identifier, spec_ws1, take_space1, views, keyword_end, PRes, SpecOut,
};
use crate::span::Span;

verus! {

/// The comma-separated field-name list: one identifier, then repeatedly
/// optional whitespace, a comma, optional whitespace, one more
/// identifier. At least one field is required and a separator is never
/// consumed without a field after it.
pub open spec fn spec_fields_more(s: Seq<char>, from: int, acc: Seq<Seq<char>>) -> SpecOut<
    Seq<Seq<char>>,
>
    decreases s.len() - from,
{
    let a = crate::parse::ws0(s, from);
    if a < s.len() && s[a] == ',' {
        let b = crate::parse::ws0(s, a + 1);
        match spec_identifier(s, b) {
            SpecOut::Parsed { end, val } => if from < end <= s.len() {
                spec_fields_more(s, end, acc.push(val))
            } else {
                SpecOut::Parsed { end: from, val: acc }
            },
            SpecOut::NoMatch => SpecOut::Parsed { end: from, val: acc },
            SpecOut::Fatal => SpecOut::Fatal,
        }
    } else {
        SpecOut::Parsed { end: from, val: acc }
    }
}

pub open spec fn spec_fields(s: Seq<char>, from: int) -> SpecOut<Seq<Seq<char>>> {
    match spec_identifier(s, from) {
        SpecOut::Parsed { end, val } => spec_fields_more(s, end, seq![val]),
        SpecOut::NoMatch => SpecOut::NoMatch,
        SpecOut::Fatal => SpecOut::Fatal,
    }
}

pub(crate) fn comma_sep_identifiers<'a>(s: Span<'a>) -> (r: PRes<'a, Vec<String>>)
    requires
        s.wf(),
    ensures
        res_wf(s, r),
        outcome_seq(r) == spec_fields(s.text_view(), s.pos()),
{
    let (first, v) = match identifier(s) {
        Ok(ok) => ok,
        Err(e) => {
            return Err(e);
        },
    };
    let mut acc: Vec<String> = vec![v];
    let mut cur: Span<'a> = first;
    proof {
        assert(views(acc@) =~= seq![acc@[0]@]);
    }
    loop
        invariant
            s.wf(),
            cur.wf(),
            cur.text_view() == s.text_view(),
            s.pos() <= cur.pos(),
            spec_fields(s.text_view(), s.pos()) == spec_fields_more(
                s.text_view(),
                cur.pos(),
                views(acc@),
            ),
        ensures
            cur.wf(),
            cur.text_view() == s.text_view(),
            s.pos() <= cur.pos(),
            spec_fields(s.text_view(), s.pos()) == (SpecOut::Parsed {
                end: cur.pos(),
                val: views(acc@),
            }),
        decreases s.text_view().len() - cur.pos(),
    {
        let a_sp = skip_space(cur);
        proof {
            lemma_ws0(cur.text_view(), cur.pos());
        }
        if !(a_sp.offset < a_sp.len && a_sp.at(0) == ',') {
            break ;
        }
        let b_sp = skip_space(a_sp.advance(1));
        proof {
            lemma_ws0(cur.text_view(), a_sp.pos() + 1);
        }
        match identifier(b_sp) {
            Ok((nxt, v)) => {
                proof {
                    lemma_alnum_run(s.text_view(), b_sp.pos());
                    crate::create::lemma_views_push(acc@, v);
                }
                acc.push(v);
                cur = nxt;
            },
            Err(_) => {
                break ;
            },
        }
    }
    Ok((cur, acc))
}

/// The spec-level shape of a SELECT statement.
pub struct SelectV {
    pub table: Seq<char>,
    pub fields: Seq<Seq<char>>,
}

/// `SELECT <fields> FROM <table>`.
#[derive(Debug, Clone)]
pub struct SelectStatement {
    pub table: String,
    pub fields: Vec<String>,
}

impl View for SelectStatement {
    type V = SelectV;

    open spec fn view(&self) -> SelectV {
        SelectV { table: self.table@, fields: views(self.fields@) }
    }
}

impl PartialEq for SelectStatement {
    fn eq(&self, other: &Self) -> (r: bool) {
        if !(self.table == other.table) {
            return false;
        }
        if self.fields.len() != other.fields.len() {
            proof {
                assert(views(self.fields@).len() != views(other.fields@).len());
            }
            return false;
        }
        let n = self.fields.len();
        let mut i: usize = 0;
        while i < n
            invariant
                n == self.fields@.len() == other.fields@.len(),
                i <= n,
                forall|j: int| 0 <= j < i ==> views(self.fields@)[j] == views(other.fields@)[j],
            decreases n - i,
        {
            if !(self.fields[i] == other.fields[i]) {
                proof {
                    assert(views(self.fields@)[i as int] == self.fields@[i as int]@);
                    assert(views(other.fields@)[i as int] == other.fields@[i as int]@);
                }
                return false;
            }
            i = i + 1;
        }
        proof {
            assert(views(self.fields@) =~= views(other.fields@));
        }
        true
    }
}

impl Eq for SelectStatement {

}

impl vstd::std_specs::cmp::PartialEqSpecImpl for SelectStatement {
    open spec fn obeys_eq_spec() -> bool {
        true
    }

    open spec fn eq_spec(&self, other: &Self) -> bool {
        self@ == other@
    }
}

/// The SELECT grammar: keyword `select`, the field list, keyword `from`,
/// the table name, separated by required whitespace.
pub open spec fn spec_select(s: Seq<char>, from: int) -> SpecOut<SelectV> {
    if !kw_match(s, from, "select"@) {
        SpecOut::NoMatch
    } else {
        match spec_ws1(s, from + "select"@.len()) {
            SpecOut::Parsed { end: e1, .. } => match spec_fields(s, e1) {
                SpecOut::Parsed { end: e2, val: fields } => match spec_ws1(s, e2) {
                    SpecOut::Parsed { end: e3, .. } => if !kw_match(s, e3, "from"@) {
                        SpecOut::NoMatch
                    } else {
                        match spec_ws1(s, e3 + "from"@.len()) {
                            SpecOut::Parsed { end: e4, .. } => match spec_identifier(s, e4) {
                                SpecOut::Parsed { end: e5, val: table } => SpecOut::Parsed {
                                    end: e5,
                                    val: SelectV { table, fields },
                                },
                                _ => SpecOut::NoMatch,
                            },
                            _ => SpecOut::NoMatch,
                        }
                    },
                    _ => SpecOut::NoMatch,
                },
                SpecOut::Fatal => SpecOut::Fatal,
                SpecOut::NoMatch => SpecOut::NoMatch,
            },
            _ => SpecOut::NoMatch,
        }
    }
}

impl SelectStatement {
    /// Parse a SELECT statement.
    pub fn parse<'a>(s: Span<'a>) -> (r: PRes<'a, SelectStatement>)
        requires
            s.wf(),
        ensures
            res_wf(s, r),
            outcome(r) == spec_select(s.text_view(), s.pos()),
    {
        let e0 = match keyword_end(&s, "select") {
            Some(e) => e,
            None => {
                return Err(ParseErr::NoMatch(ParseFailure::leaf(
                    ParseContext::SelectStatement,
                    s.offset,
                )));
            },
        };
        let (s1, _) = match take_space1(s.advance(e0 - s.offset)) {
            Ok(ok) => ok,
            Err(e) => {
                return Err(e.wrap(ParseContext::SelectStatement, s.offset));
            },
        };
        let (s2, fields) = match comma_sep_identifiers(s1) {
            Ok(ok) => ok,
            Err(e) => {
                return Err(e.wrap(ParseContext::SelectColumns, s1.offset).wrap(
                    ParseContext::SelectStatement,
                    s.offset,
                ));
            },
        };
        let (s3, _) = match take_space1(s2) {
            Ok(ok) => ok,
            Err(e) => {
                return Err(e.wrap(ParseContext::SelectStatement, s.offset));
            },
        };
        let e1 = match keyword_end(&s3, "from") {
            Some(e) => e,
            None => {
                return Err(ParseErr::NoMatch(ParseFailure::leaf(
                    ParseContext::SelectStatement,
                    s3.offset,
                )));
            },
        };
        let (s4, _) = match take_space1(s3.advance(e1 - s3.offset)) {
            Ok(ok) => ok,
            Err(e) => {
                return Err(e.wrap(ParseContext::SelectStatement, s.offset));
            },
        };
        let (s5, table) = match identifier(s4) {
            Ok(ok) => ok,
            Err(e) => {
                return Err(e.wrap(ParseContext::FromTable, s4.offset).wrap(
                    ParseContext::SelectStatement,
                    s.offset,
                ));
            },
        };
        Ok((s5, SelectStatement { table, fields }))
    }

    /// Parse a SELECT from raw text.
    pub fn parse_from_raw(input: &str) -> (r: PRes<'_, SelectStatement>)
        ensures
            outcome(r) == spec_select(input@, 0),
    {
        SelectStatement::parse(Span::new(input))
    }
}

} // verus!
