//! Positioned input: a cursor into the source text that tracks the absolute
//! offset (in Unicode scalar values) together with the 1-based line and
//! column of that offset.
//!
//! The source itself is held once, as a `Vec<char>`, and passed alongside the
//! cursor; a cursor never owns text. New cursors are derived by `advance`,
//! never by mutation.
use vstd::prelude::*;

verus! {

/// The line (1-based) on which the scalar value at `off` stands: one more
/// than the number of newlines strictly before `off`.
pub open spec fn line_of(s: Seq<char>, off: int) -> int
    decreases off,
{
    if off <= 0 {
        1
    } else if s[off - 1] == '\n' {
        line_of(s, off - 1) + 1
    } else {
        line_of(s, off - 1)
    }
}

/// The column (1-based, counted in Unicode scalar values) of the scalar value
/// at `off`: the distance to the nearest newline before `off`.
pub open spec fn col_of(s: Seq<char>, off: int) -> int
    decreases off,
{
    if off <= 0 {
        1
    } else if s[off - 1] == '\n' {
        1
    } else {
        col_of(s, off - 1) + 1
    }
}

/// Lines and columns start at 1 and never exceed the offset by more than one.
pub proof fn lemma_position_bounds(s: Seq<char>, off: int)
    requires
        0 <= off,
    ensures
        1 <= line_of(s, off) <= off + 1,
        1 <= col_of(s, off) <= off + 1,
    decreases off,
{
    if off > 0 {
        lemma_position_bounds(s, off - 1);
    }
}

/// An immutable view over the source: the offset of the next unconsumed
/// scalar value, plus the line and column of that offset. The remaining text
/// is the source's suffix from `offset`; two cursors into the same source are
/// interchangeable exactly when their offsets agree.
#[derive(Clone, Copy, Debug)]
pub struct Input {
    pub offset: usize,
    pub line: usize,
    pub column: usize,
}

impl PartialEq for Input {
    /// Two cursors into the same source are equal exactly when their
    /// offsets agree: the cached line and column are determined by the
    /// offset.
    fn eq(&self, other: &Self) -> (r: bool) {
        self.offset == other.offset
    }
}

impl vstd::std_specs::cmp::PartialEqSpecImpl for Input {
    open spec fn obeys_eq_spec() -> bool {
        true
    }

    open spec fn eq_spec(&self, other: &Self) -> bool {
        self.offset == other.offset
    }
}

impl Input {
    /// The cursor lies inside the source and its cached line and column agree
    /// with its offset.
    pub open spec fn wf(self, s: Seq<char>) -> bool {
        &&& self.offset <= s.len()
        &&& self.line == line_of(s, self.offset as int)
        &&& self.column == col_of(s, self.offset as int)
    }

    /// A cursor at the start of the source: line 1, column 1.
    pub fn new() -> (r: Input)
        ensures
            r.offset == 0,
            r.line == 1,
            r.column == 1,
    {
        Input { offset: 0, line: 1, column: 1 }
    }

    /// The suffix of the source that remains to be consumed.
    pub fn remaining_text(&self, src: &Vec<char>) -> (r: Vec<char>)
        requires
            self.offset <= src@.len(),
        ensures
            r@ == src@.subrange(self.offset as int, src@.len() as int),
    {
        let mut r: Vec<char> = Vec::new();
        let mut k: usize = self.offset;
        while k < src.len()
            invariant
                self.offset <= k <= src@.len(),
                r@ =~= src@.subrange(self.offset as int, k as int),
            decreases src@.len() - k,
        {
            r.push(src[k]);
            proof {
                assert(r@ =~= src@.subrange(self.offset as int, k + 1));
            }
            k = k + 1;
        }
        r
    }

    /// Whether the whole source has been consumed.
    pub fn is_empty(&self, src: &Vec<char>) -> (r: bool)
        ensures
            r == (self.offset >= src@.len()),
    {
        self.offset >= src.len()
    }

    /// A new cursor that has consumed `n` more scalar values: each newline
    /// consumed increments the line and resets the column to 1; every other
    /// scalar value increments the column.
    pub fn advance(self, src: &Vec<char>, n: usize) -> (r: Input)
        requires
            self.wf(src@),
            self.offset + n <= src@.len(),
            src@.len() < usize::MAX,
        ensures
            r.wf(src@),
            r.offset == self.offset + n,
    {
        let mut off: usize = self.offset;
        let mut line: usize = self.line;
        let mut column: usize = self.column;
        let mut k: usize = 0;
        while k < n
            invariant
                k <= n,
                off == self.offset + k,
                self.offset + n <= src@.len(),
                src@.len() < usize::MAX,
                line == line_of(src@, off as int),
                column == col_of(src@, off as int),
            decreases n - k,
        {
            proof {
                lemma_position_bounds(src@, off as int);
            }
            let c = src[off];
            if c == '\n' {
                line = line + 1;
                column = 1;
            } else {
                column = column + 1;
            }
            off = off + 1;
            k = k + 1;
        }
        Input { offset: off, line, column }
    }
}

} // verus!
