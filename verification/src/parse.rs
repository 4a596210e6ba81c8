//! The parsing model. Each executable parser takes a `Span` and returns
//! either the advanced span with a parsed value, or a `ParseErr`. Its
//! contract states that the outcome equals a spec-level grammar function
//! over the text and position, so the grammar itself is written once, in
//! specification land, and every parser is proved against it.

use vstd::prelude::*;

use crate::diag::{ParseContext, ParseErr, ParseFailure};
use crate::lex::{char_alphanumeric, eq_ignore_case, is_digit, is_space};
use crate::lex::{exec_char_alphanumeric, exec_eq_ignore_case, exec_is_space};
use crate::span::Span;
use vstd::string::StrSliceExecFns;

verus! {

/// The spec-level outcome of a parser: success with an end position and a
/// value, a recoverable no-match, or a committed failure.
pub enum SpecOut<V> {
    Parsed { end: int, val: V },
    NoMatch,
    Fatal,
}

/// The executable result of a parser.
pub type PRes<'a, T> = Result<(Span<'a>, T), ParseErr>;

/// The outcome a result denotes, with the value abstracted to its view.
pub open spec fn outcome<'a, T: View>(r: PRes<'a, T>) -> SpecOut<T::V> {
    match r {
        Ok((sp, v)) => SpecOut::Parsed { end: sp.pos(), val: v@ },
        Err(e) => if e is NoMatch {
            SpecOut::NoMatch
        } else {
            SpecOut::Fatal
        },
    }
}

/// The outcome of a parser for a sequence, with every element abstracted.
pub open spec fn outcome_seq<'a, T: View>(r: PRes<'a, Vec<T>>) -> SpecOut<Seq<T::V>> {
    match r {
        Ok((sp, v)) => SpecOut::Parsed { end: sp.pos(), val: views(v@) },
        Err(e) => if e is NoMatch {
            SpecOut::NoMatch
        } else {
            SpecOut::Fatal
        },
    }
}

/// Element-wise view of a sequence.
pub open spec fn views<T: View>(s: Seq<T>) -> Seq<T::V> {
    s.map(|i: int, x: T| x@)
}

/// Structural well-formedness every parser guarantees: success stays on the
/// same text and only moves forward; failure carries at least one frame.
pub open spec fn res_wf<'a, T>(s: Span<'a>, r: PRes<'a, T>) -> bool {
    match r {
        Ok((sp, _v)) => sp.wf() && sp.text_view() == s.text_view() && s.pos() <= sp.pos(),
        Err(e) => e.wf(),
    }
}

/// Skipping optional whitespace: where the token after position `from`
/// begins.
pub open spec fn ws0(s: Seq<char>, from: int) -> int
    decreases s.len() - from,
{
    if 0 <= from < s.len() && is_space(s[from]) {
        ws0(s, from + 1)
    } else {
        from
    }
}

pub proof fn lemma_ws0(s: Seq<char>, from: int)
    requires
        0 <= from <= s.len(),
    ensures
        from <= ws0(s, from) <= s.len(),
        forall|i: int| from <= i < ws0(s, from) ==> is_space(s[i]),
        ws0(s, from) < s.len() ==> !is_space(s[ws0(s, from)]),
    decreases s.len() - from,
{
    if from < s.len() && is_space(s[from]) {
        lemma_ws0(s, from + 1);
    }
}

/// The end of the run of alphanumeric characters starting at `from`.
pub open spec fn alnum_run(s: Seq<char>, from: int) -> int
    decreases s.len() - from,
{
    if 0 <= from < s.len() && char_alphanumeric(s[from]) {
        alnum_run(s, from + 1)
    } else {
        from
    }
}

pub proof fn lemma_alnum_run(s: Seq<char>, from: int)
    requires
        0 <= from <= s.len(),
    ensures
        from <= alnum_run(s, from) <= s.len(),
    decreases s.len() - from,
{
    if from < s.len() && char_alphanumeric(s[from]) {
        lemma_alnum_run(s, from + 1);
    }
}

/// The end of the run of decimal digits starting at `from`.
pub open spec fn digit_run(s: Seq<char>, from: int) -> int
    decreases s.len() - from,
{
    if 0 <= from < s.len() && is_digit(s[from]) {
        digit_run(s, from + 1)
    } else {
        from
    }
}

pub proof fn lemma_digit_run(s: Seq<char>, from: int)
    requires
        0 <= from <= s.len(),
    ensures
        from <= digit_run(s, from) <= s.len(),
        forall|i: int| from <= i < digit_run(s, from) ==> is_digit(s[i]),
    decreases s.len() - from,
{
    if from < s.len() && is_digit(s[from]) {
        lemma_digit_run(s, from + 1);
    }
}

/// Advance a span past optional whitespace.
pub(crate) fn skip_space<'a>(s: Span<'a>) -> (r: Span<'a>)
    requires
        s.wf(),
    ensures
        r.wf(),
        r.text_view() == s.text_view(),
        r.pos() == ws0(s.text_view(), s.pos()),
{
    let mut n: usize = 0;
    proof {
        lemma_ws0(s.text_view(), s.pos());
    }
    loop
        invariant
            s.wf(),
            s.pos() + n <= s.text_view().len(),
            ws0(s.text_view(), s.pos()) == ws0(s.text_view(), s.pos() + n),
        ensures
            s.pos() + n <= s.text_view().len(),
            ws0(s.text_view(), s.pos()) == ws0(s.text_view(), s.pos() + n),
            s.pos() + n == s.text_view().len() || !is_space(s.text_view()[s.pos() + n]),
        decreases s.text_view().len() - s.pos() - n,
    {
        if s.offset + n >= s.len {
            break ;
        }
        let c = s.at(n);
        if !exec_is_space(c) {
            break ;
        }
        n = n + 1;
    }
    proof {
        assert(ws0(s.text_view(), s.pos() + n) == s.pos() + n);
    }
    s.advance(n)
}

/// Whether the required-whitespace parser succeeds: at least one whitespace
/// character must stand at `from`.
pub open spec fn spec_ws1(s: Seq<char>, from: int) -> SpecOut<()> {
    if 0 <= from < s.len() && is_space(s[from]) {
        SpecOut::Parsed { end: ws0(s, from), val: () }
    } else {
        SpecOut::NoMatch
    }
}

/// Require at least one whitespace character, then skip the whole run.
pub(crate) fn take_space1<'a>(s: Span<'a>) -> (r: PRes<'a, ()>)
    requires
        s.wf(),
    ensures
        res_wf(s, r),
        outcome(r) == spec_ws1(s.text_view(), s.pos()),
{
    if s.offset < s.len && exec_is_space(s.at(0)) {
        let r = skip_space(s);
        proof {
            lemma_ws0(s.text_view(), s.pos());
        }
        Ok((r, ()))
    } else {
        Err(ParseErr::NoMatch(ParseFailure::leaf(ParseContext::Whitespace, s.offset)))
    }
}

/// The identifier grammar: one or more consecutive alphanumeric
/// characters; zero matching characters is a recoverable failure.
pub open spec fn spec_identifier(s: Seq<char>, from: int) -> SpecOut<Seq<char>> {
    let e = alnum_run(s, from);
    if from < e {
        SpecOut::Parsed { end: e, val: s.subrange(from, e) }
    } else {
        SpecOut::NoMatch
    }
}

/// Parse an unquoted identifier.
pub fn identifier<'a>(s: Span<'a>) -> (r: PRes<'a, String>)
    requires
        s.wf(),
    ensures
        res_wf(s, r),
        outcome(r) == spec_identifier(s.text_view(), s.pos()),
{
    let mut n: usize = 0;
    proof {
        lemma_alnum_run(s.text_view(), s.pos());
    }
    loop
        invariant
            s.wf(),
            s.pos() + n <= s.text_view().len(),
            alnum_run(s.text_view(), s.pos()) == alnum_run(s.text_view(), s.pos() + n),
        ensures
            s.pos() + n <= s.text_view().len(),
            alnum_run(s.text_view(), s.pos()) == alnum_run(s.text_view(), s.pos() + n),
            s.pos() + n == s.text_view().len() || !char_alphanumeric(
                s.text_view()[s.pos() + n],
            ),
        decreases s.text_view().len() - s.pos() - n,
    {
        if s.offset + n >= s.len {
            break ;
        }
        let c = s.at(n);
        if !exec_char_alphanumeric(c) {
            break ;
        }
        n = n + 1;
    }
    proof {
        assert(alnum_run(s.text_view(), s.pos() + n) == s.pos() + n);
    }
    if n == 0 {
        Err(ParseErr::NoMatch(ParseFailure::leaf(ParseContext::UnexpectedCharacter, s.offset)))
    } else {
        let name = s.take(s.offset, s.offset + n);
        Ok((s.advance(n), name))
    }
}

/// Whether the keyword `kw` stands at the current position; if so, the
/// position just past it. Peeking and consuming keywords share this.
pub(crate) fn keyword_end<'a>(s: &Span<'a>, kw: &str) -> (r: Option<usize>)
    requires
        s.wf(),
    ensures
        match r {
            Some(e) => crate::lex::kw_match(s.text_view(), s.pos(), kw@) && e == s.pos()
                + kw@.len(),
            None => !crate::lex::kw_match(s.text_view(), s.pos(), kw@),
        },
{
    let klen = kw.unicode_len();
    if s.len - s.offset < klen {
        return None;
    }
    let mut i: usize = 0;
    while i < klen
        invariant
            s.wf(),
            klen == kw@.len(),
            i <= klen,
            s.pos() + klen <= s.text_view().len(),
            forall|j: int| 0 <= j < i ==> eq_ignore_case(s.text_view()[s.pos() + j], kw@[j]),
        decreases klen - i,
    {
        let a = s.at(i);
        let b = kw.get_char(i);
        if !exec_eq_ignore_case(a, b) {
            return None;
        }
        i = i + 1;
    }
    Some(s.offset + klen)
}

} // verus!
