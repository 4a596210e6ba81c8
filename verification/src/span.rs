//! Position-aware slices of the source text. Every parser receives a `Span`
//! and, on success, hands back a `Span` over the same text with only the
//! offset advanced; line and column are recomputed from newline counts when
//! a diagnostic needs them.

use vstd::prelude::*;
use vstd::string::StrSliceExecFns;

verus! {

/// A position-aware slice: the whole source text, a character offset into
/// it, and the text's character length (cached so parsers need not rescan).
#[derive(Clone, Copy)]
pub struct Span<'a> {
    pub text: &'a str,
    pub offset: usize,
    pub len: usize,
}

impl<'a> Span<'a> {
    /// A span is well formed when its cached length is the text's character
    /// count and the offset lies inside the text (or just past its end).
    pub open spec fn wf(self) -> bool {
        &&& self.len == self.text@.len()
        &&& self.offset <= self.len
    }

    pub open spec fn text_view(self) -> Seq<char> {
        self.text@
    }

    pub open spec fn pos(self) -> int {
        self.offset as int
    }

    /// The characters not yet consumed.
    pub open spec fn rest(self) -> Seq<char> {
        self.text@.skip(self.offset as int)
    }

    /// Wrap a raw text in a span positioned at its start.
    pub fn new(text: &'a str) -> (r: Span<'a>)
        ensures
            r.wf(),
            r.text_view() == text@,
            r.pos() == 0,
    {
        let len = text.unicode_len();
        Span { text, offset: 0, len }
    }

    pub fn offset(&self) -> (r: usize)
        ensures
            r == self.pos(),
    {
        self.offset
    }

    /// Number of characters left to consume.
    pub fn remaining(&self) -> (r: usize)
        requires
            self.wf(),
        ensures
            r == self.text_view().len() - self.pos(),
    {
        self.len - self.offset
    }

    /// The character at distance `i` from the current position.
    pub fn at(&self, i: usize) -> (c: char)
        requires
            self.wf(),
            self.pos() + i < self.text_view().len(),
        ensures
            c == self.text_view()[self.pos() + i],
    {
        self.text.get_char(self.offset + i)
    }

    /// The same text, advanced by `n` consumed characters.
    pub fn advance(&self, n: usize) -> (r: Span<'a>)
        requires
            self.wf(),
            self.pos() + n <= self.text_view().len(),
        ensures
            r.wf(),
            r.text_view() == self.text_view(),
            r.pos() == self.pos() + n,
    {
        Span { text: self.text, offset: self.offset + n, len: self.len }
    }

    /// The consumed-so-far prefix between two positions, as an owned string.
    pub fn take(&self, from: usize, to: usize) -> (r: String)
        requires
            self.wf(),
            from <= to <= self.text_view().len(),
        ensures
            r@ == self.text_view().subrange(from as int, to as int),
    {
        let s: &str = self.text.substring_char(from, to);
        s.to_owned()
    }

    /// A borrowed slice of the source between two character positions.
    pub fn slice(&self, from: usize, to: usize) -> (r: &'a str)
        requires
            self.wf(),
            from <= to <= self.text_view().len(),
        ensures
            r@ == self.text_view().subrange(from as int, to as int),
    {
        self.text.substring_char(from, to)
    }

    /// The not-yet-consumed remainder, as a borrowed slice of the source.
    pub fn fragment(&self) -> (r: &'a str)
        requires
            self.wf(),
        ensures
            r@ == self.rest(),
    {
        let r = self.text.substring_char(self.offset, self.len);
        proof {
            assert(r@ =~= self.rest());
        }
        r
    }
}

/// The character offset at which the line holding `at` begins: one past the
/// last newline before `at`, or the text's start.
pub open spec fn spec_line_start(s: Seq<char>, at: int) -> int
    decreases at,
{
    if at <= 0 {
        0
    } else if s[at - 1] == '\n' {
        at
    } else {
        spec_line_start(s, at - 1)
    }
}

/// The character offset at which the line holding `at` ends: the next
/// newline at or after `at`, or the text's end.
pub open spec fn spec_line_end(s: Seq<char>, at: int) -> int
    decreases s.len() - at,
{
    if at < 0 {
        0
    } else if at >= s.len() {
        s.len() as int
    } else if s[at] == '\n' {
        at
    } else {
        spec_line_end(s, at + 1)
    }
}

} // verus!
