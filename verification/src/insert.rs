//! The INSERT statement: the table to insert into and a comma-separated
//! list of literal values (no enclosing parentheses are required).

use vstd::prelude::*;

use crate::diag::{ParseContext, ParseErr, ParseFailure};
use crate::lex::kw_match;
use crate::parse::{
    identifier, lemma_digit_run, lemma_ws0, outcome, outcome_seq, res_wf, skip_space,
    spec_identifier, spec_ws1, take_space1, views, keyword_end, PRes, SpecOut,
};
use crate::span::Span;
use crate::value::{lemma_quote_end, quote_end, spec_value, Value, ValueV};

verus! {

/// A parsed value moves the position strictly forward.
pub proof fn lemma_value_progress(s: Seq<char>, from: int)
    requires
        0 <= from <= s.len(),
    ensures
        spec_value(s, from) matches SpecOut::Parsed { end, .. } ==> from < end <= s.len(),
{
    lemma_ws0(s, from);
    let a = crate::parse::ws0(s, from);
    if a < s.len() && s[a] == '\'' {
        lemma_quote_end(s, a + 1);
        let e = quote_end(s, a + 1);
        if e < s.len() {
            lemma_ws0(s, e + 1);
        }
    } else {
        lemma_digit_run(s, a);
        let d = crate::parse::digit_run(s, a);
        lemma_ws0(s, d);
    }
}

/// The comma-separated value list: one value, then repeatedly optional
/// whitespace, a comma, optional whitespace, one more value. At least one
/// value is required; a committed failure inside a value (an unterminated
/// string literal) fails the whole list.
pub open spec fn spec_values_more(s: Seq<char>, from: int, acc: Seq<ValueV>) -> SpecOut<Seq<ValueV>>
    decreases s.len() - from,
{
    let a = crate::parse::ws0(s, from);
    if a < s.len() && s[a] == ',' {
        let b = crate::parse::ws0(s, a + 1);
        match spec_value(s, b) {
            SpecOut::Parsed { end, val } => if from < end <= s.len() {
                spec_values_more(s, end, acc.push(val))
            } else {
                SpecOut::Parsed { end: from, val: acc }
            },
            SpecOut::NoMatch => SpecOut::Parsed { end: from, val: acc },
            SpecOut::Fatal => SpecOut::Fatal,
        }
    } else {
        SpecOut::Parsed { end: from, val: acc }
    }
}

pub open spec fn spec_values(s: Seq<char>, from: int) -> SpecOut<Seq<ValueV>> {
    match spec_value(s, from) {
        SpecOut::Parsed { end, val } => spec_values_more(s, end, seq![val]),
        SpecOut::NoMatch => SpecOut::NoMatch,
        SpecOut::Fatal => SpecOut::Fatal,
    }
}

pub(crate) fn comma_sep_values<'a>(s: Span<'a>) -> (r: PRes<'a, Vec<Value>>)
    requires
        s.wf(),
    ensures
        res_wf(s, r),
        outcome_seq(r) == spec_values(s.text_view(), s.pos()),
{
    let (first, v) = match Value::parse(s) {
        Ok(ok) => ok,
        Err(e) => {
            return Err(e);
        },
    };
    let mut acc: Vec<Value> = vec![v];
    let mut cur: Span<'a> = first;
    proof {
        assert(views(acc@) =~= seq![acc@[0]@]);
    }
    loop
        invariant
            s.wf(),
            cur.wf(),
            cur.text_view() == s.text_view(),
            s.pos() <= cur.pos(),
            spec_values(s.text_view(), s.pos()) == spec_values_more(
                s.text_view(),
                cur.pos(),
                views(acc@),
            ),
        ensures
            cur.wf(),
            cur.text_view() == s.text_view(),
            s.pos() <= cur.pos(),
            spec_values(s.text_view(), s.pos()) == (SpecOut::Parsed {
                end: cur.pos(),
                val: views(acc@),
            }),
        decreases s.text_view().len() - cur.pos(),
    {
        let a_sp = skip_space(cur);
        proof {
            lemma_ws0(cur.text_view(), cur.pos());
        }
        if !(a_sp.offset < a_sp.len && a_sp.at(0) == ',') {
            break ;
        }
        let b_sp = skip_space(a_sp.advance(1));
        proof {
            lemma_ws0(cur.text_view(), a_sp.pos() + 1);
        }
        match Value::parse(b_sp) {
            Ok((nxt, v)) => {
                proof {
                    lemma_value_progress(s.text_view(), b_sp.pos());
                    crate::create::lemma_views_push(acc@, v);
                }
                acc.push(v);
                cur = nxt;
            },
            Err(e) => {
                match e {
                    ParseErr::NoMatch(_) => {
                        break ;
                    },
                    ParseErr::Fatal(f) => {
                        return Err(ParseErr::Fatal(f));
                    },
                }
            },
        }
    }
    Ok((cur, acc))
}

/// The spec-level shape of an INSERT statement.
pub struct InsertV {
    pub table: Seq<char>,
    pub values: Seq<ValueV>,
}

/// `INSERT INTO <table> VALUES <values>`.
#[derive(Debug, Clone)]
pub struct InsertStatement {
    pub table: String,
    pub values: Vec<Value>,
}

impl View for InsertStatement {
    type V = InsertV;

    open spec fn view(&self) -> InsertV {
        InsertV { table: self.table@, values: views(self.values@) }
    }
}

impl PartialEq for InsertStatement {
    fn eq(&self, other: &Self) -> (r: bool) {
        if !(self.table == other.table) {
            return false;
        }
        if self.values.len() != other.values.len() {
            proof {
                assert(views(self.values@).len() != views(other.values@).len());
            }
            return false;
        }
        let n = self.values.len();
        let mut i: usize = 0;
        while i < n
            invariant
                n == self.values@.len() == other.values@.len(),
                i <= n,
                forall|j: int| 0 <= j < i ==> views(self.values@)[j] == views(other.values@)[j],
            decreases n - i,
        {
            if !(self.values[i] == other.values[i]) {
                proof {
                    assert(views(self.values@)[i as int] == self.values@[i as int]@);
                    assert(views(other.values@)[i as int] == other.values@[i as int]@);
                }
                return false;
            }
            i = i + 1;
        }
        proof {
            assert(views(self.values@) =~= views(other.values@));
        }
        true
    }
}

impl Eq for InsertStatement {

}

impl vstd::std_specs::cmp::PartialEqSpecImpl for InsertStatement {
    open spec fn obeys_eq_spec() -> bool {
        true
    }

    open spec fn eq_spec(&self, other: &Self) -> bool {
        self@ == other@
    }
}

/// The INSERT grammar: keywords `insert`, `into`, the table name, keyword
/// `values`, then the value list, separated by required whitespace.
pub open spec fn spec_insert(s: Seq<char>, from: int) -> SpecOut<InsertV> {
    if !kw_match(s, from, "insert"@) {
        SpecOut::NoMatch
    } else {
        match spec_ws1(s, from + "insert"@.len()) {
            SpecOut::Parsed { end: e1, .. } => if !kw_match(s, e1, "into"@) {
                SpecOut::NoMatch
            } else {
                match spec_ws1(s, e1 + "into"@.len()) {
                    SpecOut::Parsed { end: e2, .. } => match spec_identifier(s, e2) {
                        SpecOut::Parsed { end: e3, val: table } => match spec_ws1(s, e3) {
                            SpecOut::Parsed { end: e4, .. } => if !kw_match(s, e4, "values"@) {
                                SpecOut::NoMatch
                            } else {
                                match spec_ws1(s, e4 + "values"@.len()) {
                                    SpecOut::Parsed { end: e5, .. } => match spec_values(s, e5) {
                                        SpecOut::Parsed { end: e6, val: values } => SpecOut::Parsed {
                                            end: e6,
                                            val: InsertV { table, values },
                                        },
                                        SpecOut::Fatal => SpecOut::Fatal,
                                        SpecOut::NoMatch => SpecOut::NoMatch,
                                    },
                                    _ => SpecOut::NoMatch,
                                }
                            },
                            _ => SpecOut::NoMatch,
                        },
                        _ => SpecOut::NoMatch,
                    },
                    _ => SpecOut::NoMatch,
                }
            },
            _ => SpecOut::NoMatch,
        }
    }
}

impl InsertStatement {
    /// Parse an INSERT statement.
    pub fn parse<'a>(s: Span<'a>) -> (r: PRes<'a, InsertStatement>)
        requires
            s.wf(),
        ensures
            res_wf(s, r),
            outcome(r) == spec_insert(s.text_view(), s.pos()),
    {
        let e0 = match keyword_end(&s, "insert") {
            Some(e) => e,
            None => {
                return Err(ParseErr::NoMatch(ParseFailure::leaf(
                    ParseContext::InsertStatement,
                    s.offset,
                )));
            },
        };
        let (s1, _) = match take_space1(s.advance(e0 - s.offset)) {
            Ok(ok) => ok,
            Err(e) => {
                return Err(e.wrap(ParseContext::InsertStatement, s.offset));
            },
        };
        let e1 = match keyword_end(&s1, "into") {
            Some(e) => e,
            None => {
                return Err(ParseErr::NoMatch(ParseFailure::leaf(
                    ParseContext::InsertStatement,
                    s1.offset,
                )));
            },
        };
        let (s2, _) = match take_space1(s1.advance(e1 - s1.offset)) {
            Ok(ok) => ok,
            Err(e) => {
                return Err(e.wrap(ParseContext::InsertStatement, s.offset));
            },
        };
        let (s3, table) = match identifier(s2) {
            Ok(ok) => ok,
            Err(e) => {
                return Err(e.wrap(ParseContext::TableName, s2.offset).wrap(
                    ParseContext::InsertStatement,
                    s.offset,
                ));
            },
        };
        let (s4, _) = match take_space1(s3) {
            Ok(ok) => ok,
            Err(e) => {
                return Err(e.wrap(ParseContext::InsertStatement, s.offset));
            },
        };
        let e2 = match keyword_end(&s4, "values") {
            Some(e) => e,
            None => {
                return Err(ParseErr::NoMatch(ParseFailure::leaf(
                    ParseContext::InsertStatement,
                    s4.offset,
                )));
            },
        };
        let (s5, _) = match take_space1(s4.advance(e2 - s4.offset)) {
            Ok(ok) => ok,
            Err(e) => {
                return Err(e.wrap(ParseContext::InsertStatement, s.offset));
            },
        };
        let (s6, values) = match comma_sep_values(s5) {
            Ok(ok) => ok,
            Err(e) => {
                return Err(e.wrap(ParseContext::Values, s5.offset).wrap(
                    ParseContext::InsertStatement,
                    s.offset,
                ));
            },
        };
        Ok((s6, InsertStatement { table, values }))
    }

    /// Parse an INSERT from raw text.
    pub fn parse_from_raw(input: &str) -> (r: PRes<'_, InsertStatement>)
        ensures
            outcome(r) == spec_insert(input@, 0),
    {
        InsertStatement::parse(Span::new(input))
    }
}

} // verus!
