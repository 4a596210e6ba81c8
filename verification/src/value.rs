//! Literal values: single-quoted strings (no escapes) and unsigned decimal
//! integers held as arbitrary-precision decimals. The decimal itself lives
//! in an outside crate; the library keeps its textual rendering, which is
//! all the engine ever reads of it.

use vstd::prelude::*;

use crate::diag::{ParseContext, ParseErr, ParseFailure};
use crate::lex::{exec_is_digit, is_digit};
use crate::parse::{digit_run, lemma_digit_run, lemma_ws0, skip_space, ws0, PRes, SpecOut};
use crate::span::Span;
use std::str::FromStr;
use vstd::string::StrSliceExecFns;

verus! {

/// The spec-level shape of a literal: the number's decimal rendering, or
/// the string's characters.
pub enum ValueV {
    Number(Seq<char>),
    String(Seq<char>),
}

/// A parsed literal. A `Number` holds the canonical text of the
/// arbitrary-precision decimal parsed from the digit run; a `String` holds
/// the quote-delimited characters verbatim.
#[derive(Debug, Clone)]
pub enum Value {
    Number(String),
    String(String),
}

impl View for Value {
    type V = ValueV;

    open spec fn view(&self) -> ValueV {
        match self {
            Value::Number(s) => ValueV::Number(s@),
            Value::String(s) => ValueV::String(s@),
        }
    }
}

/// The text the executor stores for a literal.
pub open spec fn value_text(v: ValueV) -> Seq<char> {
    match v {
        ValueV::Number(s) => s,
        ValueV::String(s) => s,
    }
}

impl Value {
    /// The text the executor stores for this literal.
    pub open spec fn spec_text(self) -> Seq<char> {
        value_text(self@)
    }

    /// Render the literal as the text the executor stores.
    pub fn to_text(&self) -> (r: String)
        ensures
            r@ == self.spec_text(),
    {
        match self {
            Value::Number(s) => s.clone(),
            Value::String(s) => s.clone(),
        }
    }
}

impl PartialEq for Value {
    fn eq(&self, other: &Self) -> (r: bool) {
        match (self, other) {
            (Value::Number(a), Value::Number(b)) => *a == *b,
            (Value::String(a), Value::String(b)) => *a == *b,
            _ => false,
        }
    }
}

impl Eq for Value {

}

impl vstd::std_specs::cmp::PartialEqSpecImpl for Value {
    open spec fn obeys_eq_spec() -> bool {
        true
    }

    open spec fn eq_spec(&self, other: &Self) -> bool {
        match (self@, other@) {
            (ValueV::Number(a), ValueV::Number(b)) => a == b,
            (ValueV::String(a), ValueV::String(b)) => a == b,
            _ => false,
        }
    }
}

/// The canonical text of the arbitrary-precision decimal parsed from a run
/// of decimal digits: what `BigDecimal::from_str` followed by `to_string`
/// produces. A function of the digits alone.
pub uninterp spec fn decimal_text(digits: Seq<char>) -> Seq<char>;

/// Relies on `bigdecimal::BigDecimal`: `from_str` parses a nonempty run of
/// decimal digits (never failing on such input), and `to_string` renders
/// the decimal canonically; the result depends on the digits alone.
#[verifier::external_body]
fn decimal_render(digits: &str) -> (r: String)
    requires
        digits@.len() >= 1,
        forall|i: int| 0 <= i < digits@.len() ==> is_digit(digits@[i]),
    ensures
        r@ == decimal_text(digits@),
{
    let d = bigdecimal::BigDecimal::from_str(digits).unwrap();
    d.to_string()
}

/// The position of the first closing quote at or after `i`, or the text's
/// end if the literal is unterminated.
pub open spec fn quote_end(s: Seq<char>, i: int) -> int
    decreases s.len() - i,
{
    if !(0 <= i < s.len()) {
        s.len() as int
    } else if s[i] == '\'' {
        i
    } else {
        quote_end(s, i + 1)
    }
}

pub proof fn lemma_quote_end(s: Seq<char>, i: int)
    requires
        0 <= i <= s.len(),
    ensures
        i <= quote_end(s, i) <= s.len(),
    decreases s.len() - i,
{
    if i < s.len() && s[i] != '\'' {
        lemma_quote_end(s, i + 1);
    }
}

/// The literal grammar. Leading whitespace is skipped. A single quote
/// commits to a string literal: everything up to the next quote, with no
/// escape handling, and a missing closing quote is a committed failure.
/// Otherwise one-or-more decimal digits form a number (no sign, no decimal
/// point). Trailing whitespace is consumed.
pub open spec fn spec_value(s: Seq<char>, from: int) -> SpecOut<ValueV> {
    let a = ws0(s, from);
    if a < s.len() && s[a] == '\'' {
        let e = quote_end(s, a + 1);
        if e < s.len() {
            SpecOut::Parsed { end: ws0(s, e + 1), val: ValueV::String(s.subrange(a + 1, e)) }
        } else {
            SpecOut::Fatal
        }
    } else {
        let d = digit_run(s, a);
        if a < d {
            SpecOut::Parsed { end: ws0(s, d), val: ValueV::Number(decimal_text(s.subrange(a, d))) }
        } else {
            SpecOut::NoMatch
        }
    }
}

impl Value {
    /// Parse one literal value.
    pub fn parse<'a>(s: Span<'a>) -> (r: PRes<'a, Value>)
        requires
            s.wf(),
        ensures
            crate::parse::res_wf(s, r),
            crate::parse::outcome(r) == spec_value(s.text_view(), s.pos()),
    {
        let sp = skip_space(s);
        proof {
            lemma_ws0(s.text_view(), s.pos());
        }
        if sp.offset < sp.len && sp.at(0) == '\'' {
            // Committed to a string literal: scan for the closing quote.
            let mut n: usize = 1;
            proof {
                lemma_quote_end(sp.text_view(), sp.pos() + 1);
            }
            loop
                invariant
                    sp.wf(),
                    1 <= n,
                    sp.pos() + n <= sp.text_view().len(),
                    quote_end(sp.text_view(), sp.pos() + 1) == quote_end(
                        sp.text_view(),
                        sp.pos() + n,
                    ),
                ensures
                    1 <= n,
                    sp.pos() + n <= sp.text_view().len(),
                    quote_end(sp.text_view(), sp.pos() + 1) == quote_end(
                        sp.text_view(),
                        sp.pos() + n,
                    ),
                    sp.pos() + n == sp.text_view().len() || sp.text_view()[sp.pos() + n] == '\'',
                decreases sp.text_view().len() - sp.pos() - n,
            {
                if sp.offset + n >= sp.len {
                    break ;
                }
                if sp.at(n) == '\'' {
                    break ;
                }
                n = n + 1;
            }
            proof {
                assert(quote_end(sp.text_view(), sp.pos() + n) == if sp.pos() + n
                    < sp.text_view().len() {
                    sp.pos() + n
                } else {
                    sp.text_view().len() as int
                });
            }
            if sp.offset + n >= sp.len {
                // Unterminated string literal: a committed failure.
                Err(ParseErr::Fatal(ParseFailure::leaf(ParseContext::StringLiteral, sp.offset))
                    .wrap(ParseContext::ValueLiteral, s.offset))
            } else {
                let contents = sp.take(sp.offset + 1, sp.offset + n);
                let after = skip_space(sp.advance(n + 1));
                proof {
                    lemma_ws0(sp.text_view(), sp.pos() + n + 1);
                }
                Ok((after, Value::String(contents)))
            }
        } else {
            // A number literal: one or more decimal digits.
            let mut n: usize = 0;
            proof {
                lemma_digit_run(sp.text_view(), sp.pos());
            }
            loop
                invariant
                    sp.wf(),
                    sp.pos() + n <= sp.text_view().len(),
                    digit_run(sp.text_view(), sp.pos()) == digit_run(sp.text_view(), sp.pos() + n),
                ensures
                    sp.pos() + n <= sp.text_view().len(),
                    digit_run(sp.text_view(), sp.pos()) == digit_run(sp.text_view(), sp.pos() + n),
                    sp.pos() + n == sp.text_view().len() || !is_digit(
                        sp.text_view()[sp.pos() + n],
                    ),
                decreases sp.text_view().len() - sp.pos() - n,
            {
                if sp.offset + n >= sp.len {
                    break ;
                }
                if !exec_is_digit(sp.at(n)) {
                    break ;
                }
                n = n + 1;
            }
            proof {
                assert(digit_run(sp.text_view(), sp.pos() + n) == sp.pos() + n);
            }
            if n == 0 {
                Err(ParseErr::NoMatch(ParseFailure::leaf(ParseContext::NumberLiteral, sp.offset))
                    .wrap(ParseContext::ValueLiteral, s.offset))
            } else {
                let digits = sp.slice(sp.offset, sp.offset + n);
                let rendered = decimal_render(digits);
                let after = skip_space(sp.advance(n));
                proof {
                    lemma_ws0(sp.text_view(), sp.pos() + n);
                }
                Ok((after, Value::Number(rendered)))
            }
        }
    }

    /// Parse a literal from raw text, wrapping it in a span first.
    pub fn parse_from_raw(input: &str) -> (r: PRes<'_, Value>)
        ensures
            crate::parse::outcome(r) == spec_value(input@, 0),
    {
        let s = Span::new(input);
        Value::parse(s)
    }
}

} // verus!
