//! Parse-failure data: a stack of labelled context frames, each with the
//! character offset at which that context failed, plus the recoverable /
//! non-recoverable distinction that drives commit-point error handling.

use vstd::prelude::*;
use vstd::string::StringExecFns;

use crate::span::{spec_line_end, spec_line_start, Span};

verus! {

/// The grammar context a parser was in when it failed. Purely descriptive:
/// the diagnostic formatter turns each into a label.
#[derive(Clone, Copy, PartialEq, Eq, Structural, Debug)]
pub enum ParseContext {
    Query,
    CreateTable,
    TableName,
    ColumnName,
    ColumnType,
    CreateColumn,
    ColumnDefinitions,
    InsertStatement,
    Values,
    SelectStatement,
    SelectColumns,
    FromTable,
    StringLiteral,
    NumberLiteral,
    ValueLiteral,
    Whitespace,
    UnexpectedCharacter,
    Terminator,
    TrailingInput,
}

/// One entry of the failure stack: which context failed, and where.
#[derive(Clone, Copy, PartialEq, Eq, Structural, Debug)]
pub struct ErrorFrame {
    pub context: ParseContext,
    pub offset: usize,
}

/// The ordered failure stack built while a parse unwinds, innermost
/// context last.
#[derive(Debug)]
pub struct ParseFailure {
    pub frames: Vec<ErrorFrame>,
}

impl ParseFailure {
    /// A failure always carries at least one frame.
    pub open spec fn wf(self) -> bool {
        self.frames@.len() > 0
    }

    /// A fresh single-frame failure.
    pub fn leaf(context: ParseContext, offset: usize) -> (r: ParseFailure)
        ensures
            r.wf(),
            r.frames@ =~= seq![ErrorFrame { context, offset }],
    {
        ParseFailure { frames: vec![ErrorFrame { context, offset }] }
    }

    /// Wrap the failure in one more (outer) context frame; outer frames
    /// come first, the innermost context stays last.
    pub fn wrap(self, context: ParseContext, offset: usize) -> (r: ParseFailure)
        ensures
            r.wf(),
            r.frames@ =~= seq![ErrorFrame { context, offset }] + self.frames@,
    {
        let mut frames: Vec<ErrorFrame> = vec![ErrorFrame { context, offset }];
        let mut rest = self.frames;
        frames.append(&mut rest);
        ParseFailure { frames }
    }
}

/// A parse error: `NoMatch` lets an enclosing choice try its next
/// alternative; `Fatal` is a committed failure that no alternative may
/// swallow.
#[derive(Debug)]
pub enum ParseErr {
    NoMatch(ParseFailure),
    Fatal(ParseFailure),
}

impl ParseErr {
    pub open spec fn wf(self) -> bool {
        match self {
            ParseErr::NoMatch(f) => f.wf(),
            ParseErr::Fatal(f) => f.wf(),
        }
    }

    pub open spec fn failure(self) -> ParseFailure {
        match self {
            ParseErr::NoMatch(f) => f,
            ParseErr::Fatal(f) => f,
        }
    }

    /// Add an outer context frame, keeping the recoverability.
    pub fn wrap(self, context: ParseContext, offset: usize) -> (r: ParseErr)
        ensures
            r.wf(),
            r is NoMatch <==> self is NoMatch,
    {
        match self {
            ParseErr::NoMatch(f) => ParseErr::NoMatch(f.wrap(context, offset)),
            ParseErr::Fatal(f) => ParseErr::Fatal(f.wrap(context, offset)),
        }
    }

    /// Commit: whatever recoverability the error had, it is now fatal.
    pub fn cut(self) -> (r: ParseErr)
        ensures
            r.wf() <==> self.wf(),
            r is Fatal,
    {
        match self {
            ParseErr::NoMatch(f) => ParseErr::Fatal(f),
            ParseErr::Fatal(f) => ParseErr::Fatal(f),
        }
    }
}

/// The label a context frame is reported under.
pub open spec fn spec_label(c: ParseContext) -> Seq<char> {
    match c {
        ParseContext::Query => "Query"@,
        ParseContext::CreateTable => "Create Table"@,
        ParseContext::TableName => "Table Name"@,
        ParseContext::ColumnName => "Column Name"@,
        ParseContext::ColumnType => "Column Type"@,
        ParseContext::CreateColumn => "Create Column"@,
        ParseContext::ColumnDefinitions => "Column Definitions"@,
        ParseContext::InsertStatement => "Insert Statement"@,
        ParseContext::Values => "Values"@,
        ParseContext::SelectStatement => "Select Statement"@,
        ParseContext::SelectColumns => "Select Columns"@,
        ParseContext::FromTable => "From Table"@,
        ParseContext::StringLiteral => "String Literal"@,
        ParseContext::NumberLiteral => "Number Literal"@,
        ParseContext::ValueLiteral => "Value"@,
        ParseContext::Whitespace => "Whitespace"@,
        ParseContext::UnexpectedCharacter => "Unexpected Character"@,
        ParseContext::Terminator => "Statement Terminator"@,
        ParseContext::TrailingInput => "Trailing Input"@,
    }
}

fn label(c: ParseContext) -> (r: &'static str)
    ensures
        r@ == spec_label(c),
{
    match c {
        ParseContext::Query => "Query",
        ParseContext::CreateTable => "Create Table",
        ParseContext::TableName => "Table Name",
        ParseContext::ColumnName => "Column Name",
        ParseContext::ColumnType => "Column Type",
        ParseContext::CreateColumn => "Create Column",
        ParseContext::ColumnDefinitions => "Column Definitions",
        ParseContext::InsertStatement => "Insert Statement",
        ParseContext::Values => "Values",
        ParseContext::SelectStatement => "Select Statement",
        ParseContext::SelectColumns => "Select Columns",
        ParseContext::FromTable => "From Table",
        ParseContext::StringLiteral => "String Literal",
        ParseContext::NumberLiteral => "Number Literal",
        ParseContext::ValueLiteral => "Value",
        ParseContext::Whitespace => "Whitespace",
        ParseContext::UnexpectedCharacter => "Unexpected Character",
        ParseContext::Terminator => "Statement Terminator",
        ParseContext::TrailingInput => "Trailing Input",
    }
}

/// The start of the line holding `at`.
fn line_start(sp: &Span, at: usize) -> (r: usize)
    requires
        sp.wf(),
        sp.pos() == 0,
        at <= sp.text_view().len(),
    ensures
        r == spec_line_start(sp.text_view(), at as int),
        r <= at,
{
    let mut i: usize = at;
    loop
        invariant
            sp.wf(),
            sp.pos() == 0,
            i <= at <= sp.text_view().len(),
            spec_line_start(sp.text_view(), at as int) == spec_line_start(
                sp.text_view(),
                i as int,
            ),
        ensures
            i <= at,
            spec_line_start(sp.text_view(), at as int) == spec_line_start(
                sp.text_view(),
                i as int,
            ),
            i == 0 || sp.text_view()[i - 1] == '\n',
        decreases i,
    {
        if i == 0 {
            break ;
        }
        if sp.at(i - 1) == '\n' {
            break ;
        }
        i = i - 1;
    }
    proof {
        assert(spec_line_start(sp.text_view(), i as int) == i);
    }
    i
}

/// The end of the line holding `at`.
fn line_end(sp: &Span, at: usize) -> (r: usize)
    requires
        sp.wf(),
        sp.pos() == 0,
        at <= sp.text_view().len(),
    ensures
        r == spec_line_end(sp.text_view(), at as int),
        at <= r <= sp.text_view().len(),
{
    let mut i: usize = at;
    loop
        invariant
            sp.wf(),
            sp.pos() == 0,
            at <= i <= sp.text_view().len(),
            spec_line_end(sp.text_view(), at as int) == spec_line_end(sp.text_view(), i as int),
        ensures
            at <= i <= sp.text_view().len(),
            spec_line_end(sp.text_view(), at as int) == spec_line_end(sp.text_view(), i as int),
            i == sp.text_view().len() || sp.text_view()[i as int] == '\n',
        decreases sp.text_view().len() - i,
    {
        if i >= sp.len {
            break ;
        }
        if sp.at(i) == '\n' {
            break ;
        }
        i = i + 1;
    }
    proof {
        assert(spec_line_end(sp.text_view(), i as int) == i);
    }
    i
}

/// How many source lines of leading orientation a report shows at most.
pub open spec fn context_line_bound() -> int {
    10
}

/// The start of the block of up to `k` lines before the line starting at
/// `ls`, for orientation.
pub open spec fn spec_context_start(s: Seq<char>, ls: int, k: int) -> int
    decreases k,
{
    if k <= 0 || ls <= 0 {
        ls
    } else {
        spec_context_start(s, spec_line_start(s, ls - 1), k - 1)
    }
}

pub proof fn lemma_line_start_bounds(s: Seq<char>, at: int)
    requires
        0 <= at,
    ensures
        0 <= spec_line_start(s, at) <= at,
    decreases at,
{
    if at > 0 && s[at - 1] != '\n' {
        lemma_line_start_bounds(s, at - 1);
    }
}

pub proof fn lemma_context_start_bounds(s: Seq<char>, ls: int, k: int)
    requires
        0 <= ls,
    ensures
        0 <= spec_context_start(s, ls, k) <= ls,
    decreases k,
{
    if !(k <= 0 || ls <= 0) {
        lemma_line_start_bounds(s, ls - 1);
        lemma_context_start_bounds(s, spec_line_start(s, ls - 1), k - 1);
    }
}

fn context_start(sp: &Span, ls: usize, k: usize) -> (r: usize)
    requires
        sp.wf(),
        sp.pos() == 0,
        ls <= sp.text_view().len(),
    ensures
        r == spec_context_start(sp.text_view(), ls as int, k as int),
        r <= ls,
    decreases k,
{
    if k == 0 || ls == 0 {
        ls
    } else {
        let p = line_start(sp, ls - 1);
        context_start(sp, p, k - 1)
    }
}

/// The report one frame contributes: its label, then the offending line
/// with up to ten preceding lines for orientation, then a caret under the
/// failure column.
pub open spec fn spec_render_frame(s: Seq<char>, fr: ErrorFrame) -> Seq<char> {
    let off = if fr.offset <= s.len() {
        fr.offset as int
    } else {
        s.len() as int
    };
    let ls = spec_line_start(s, off);
    let le = spec_line_end(s, off);
    let cs = spec_context_start(s, ls, context_line_bound());
    spec_label(fr.context) + "\n"@ + s.subrange(cs, le) + "\n"@ + Seq::new(
        (off - ls) as nat,
        |i: int| ' ',
    ) + "^\n"@
}

/// The whole report: each frame's contribution, outer context first,
/// innermost last.
pub open spec fn spec_render(s: Seq<char>, frames: Seq<ErrorFrame>) -> Seq<char>
    decreases frames.len(),
{
    if frames.len() == 0 {
        Seq::empty()
    } else {
        spec_render(s, frames.drop_last()) + spec_render_frame(s, frames.last())
    }
}

/// A run of spaces, for positioning the caret.
fn spaces(n: usize) -> (r: String)
    ensures
        r@ =~= Seq::new(n as nat, |i: int| ' '),
{
    let mut r = String::new();
    let mut i: usize = 0;
    while i < n
        invariant
            i <= n,
            r@ =~= Seq::new(i as nat, |k: int| ' '),
        decreases n - i,
    {
        r.append(" ");
        proof {
            reveal_strlit(" ");
            assert(" "@ =~= seq![' ']);
            assert(r@ =~= Seq::new((i + 1) as nat, |k: int| ' '));
        }
        i = i + 1;
    }
    r
}

/// Render a parse failure against its source text: for each context
/// frame, the offending line (with up to ten preceding lines) and a caret
/// at the failure column.
pub fn render_failure(input: &str, failure: &ParseFailure) -> (r: String)
    ensures
        r@ == spec_render(input@, failure.frames@),
{
    let sp = Span::new(input);
    let frames = &failure.frames;
    let mut out = String::new();
    let mut i: usize = 0;
    proof {
        assert(frames@.subrange(0, 0) =~= Seq::<ErrorFrame>::empty());
    }
    while i < frames.len()
        invariant
            sp.wf(),
            sp.pos() == 0,
            sp.text_view() == input@,
            i <= frames@.len(),
            out@ == spec_render(input@, frames@.subrange(0, i as int)),
        decreases frames@.len() - i,
    {
        let fr = frames[i];
        let off = if fr.offset <= sp.len {
            fr.offset
        } else {
            sp.len
        };
        let ls = line_start(&sp, off);
        let le = line_end(&sp, off);
        proof {
            lemma_context_start_bounds(input@, ls as int, context_line_bound());
        }
        let cs = context_start(&sp, ls, 10);
        out.append(label(fr.context));
        out.append("\n");
        let block = sp.slice(cs, le);
        out.append(block);
        out.append("\n");
        let pad = spaces(off - ls);
        out.append(pad.as_str());
        out.append("^\n");
        proof {
            assert(frames@.subrange(0, i + 1).drop_last() =~= frames@.subrange(0, i as int));
            assert(frames@.subrange(0, i + 1).last() == frames@[i as int]);
            assert(out@ == spec_render(input@, frames@.subrange(0, i + 1)));
        }
        i = i + 1;
    }
    proof {
        assert(frames@.subrange(0, frames@.len() as int) =~= frames@);
    }
    out
}

} // verus!
