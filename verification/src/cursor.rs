use vstd::prelude::*;
use vstd::string::StrSliceExecFns;

verus! {

/// A half-open range of character positions into the underlying text,
/// marking one matched subsequence.
#[derive(Clone, Copy, Debug, PartialEq, Eq, Structural)]
pub struct Span {
    pub start: usize,
    pub end: usize,
}

impl Span {
    /// The span is ordered and lies inside a text of `len` characters.
    pub open spec fn wf(self, len: nat) -> bool {
        self.start <= self.end <= len
    }

    /// The number of characters the span covers.
    pub open spec fn spec_len(self) -> int {
        self.end - self.start
    }
}

/// The unconsumed remainder of an input text: a borrowed view of the whole
/// text together with the position where the remainder begins.
///
/// A cursor is never mutated in place; a successful match hands back a fresh
/// cursor that points further into the same text, so every result cursor is a
/// suffix of the cursor it came from.  The text buffer is owned by the caller
/// and must outlive every cursor built over it.
#[derive(Clone, Copy, Debug)]
pub struct Cursor<'a> {
    pub text: &'a str,
    pub pos: usize,
}

impl<'a> Cursor<'a> {
    /// The position does not run past the end of the text.
    pub open spec fn wf(self) -> bool {
        self.pos <= self.text@.len()
    }

    /// The characters still to be consumed.
    pub open spec fn rest(self) -> Seq<char> {
        self.text@.subrange(self.pos as int, self.text@.len() as int)
    }

    /// `self` is a suffix of `other`: same text, starting no earlier.
    pub open spec fn is_suffix_of(self, other: Self) -> bool {
        self.text == other.text && other.pos <= self.pos
    }

    /// A cursor over the whole of `text`.
    pub fn new(text: &'a str) -> (c: Cursor<'a>)
        ensures
            c.wf(),
            c.text == text,
            c.pos == 0,
            c.rest() == text@,
    {
        let c = Cursor { text, pos: 0 };
        proof {
            assert(c.rest() =~= text@);
        }
        c
    }

    /// The number of characters left to consume.
    pub fn remaining_len(&self) -> (n: usize)
        requires
            self.wf(),
        ensures
            n == self.rest().len(),
    {
        self.text.unicode_len() - self.pos
    }

    /// The remaining text as a slice.
    pub fn remaining_str(&self) -> (s: &'a str)
        requires
            self.wf(),
        ensures
            s@ == self.rest(),
    {
        let n = self.text.unicode_len();
        self.text.substring_char(self.pos, n)
    }

    /// The subsequence of the underlying text that `sp` marks.
    pub fn span_str(&self, sp: Span) -> (s: &'a str)
        requires
            sp.wf(self.text@.len()),
        ensures
            s@ == self.text@.subrange(sp.start as int, sp.end as int),
    {
        self.text.substring_char(sp.start, sp.end)
    }
}

} // verus!
