use vstd::prelude::*;
use vstd::string::StrSliceExecFns;
use crate::errors::{Error, SpecError};

verus! {

/// The largest source length the cursor accepts. Far beyond any text that
/// fits in memory, and small enough that line and column counters can never
/// wrap a 64-bit integer.
pub const MAX_SOURCE_LEN: u64 = 0x1000_0000_0000;

/// 1-based line number of the character at index `pos`: one more than the
/// number of newline characters among the first `pos` characters.
pub open spec fn sp_line_at(s: Seq<char>, pos: int) -> int
    decreases pos,
{
    if pos <= 0 {
        1
    } else {
        sp_line_at(s, pos - 1) + if s[pos - 1] == '\n' {
            1int
        } else {
            0int
        }
    }
}

/// 0-based column of the character at index `pos`: the number of characters
/// consumed since the last newline.
pub open spec fn sp_col_at(s: Seq<char>, pos: int) -> int
    decreases pos,
{
    if pos <= 0 {
        0
    } else if s[pos - 1] == '\n' {
        0
    } else {
        sp_col_at(s, pos - 1) + 1
    }
}

/// Line numbers never exceed `pos + 1` and columns never exceed `pos`.
pub proof fn lemma_line_col_bounds(s: Seq<char>, pos: int)
    ensures
        1 <= sp_line_at(s, pos),
        pos >= 0 ==> sp_line_at(s, pos) <= pos + 1,
        0 <= sp_col_at(s, pos),
        pos >= 0 ==> sp_col_at(s, pos) <= pos,
    decreases pos,
{
    if pos > 0 {
        lemma_line_col_bounds(s, pos - 1);
    }
}

/// A character-level cursor over source text. `next` consumes one character
/// at a time (handing back a `'\0'` sentinel at the end of input) and keeps
/// the current line and column for diagnostics.
#[derive(Debug)]
pub struct InputStream {
    pub chars: Vec<char>,
    pub pos: usize,
    pub line: u64,
    pub column: u64,
}

impl InputStream {
    /// The whole source text.
    pub open spec fn src(&self) -> Seq<char> {
        self.chars@
    }

    /// How many characters have been consumed.
    pub open spec fn cursor(&self) -> int {
        self.pos as int
    }

    /// The cursor is inside the text and the line/column counters agree
    /// with the consumed prefix.
    pub open spec fn wf(&self) -> bool {
        &&& self.pos <= self.chars@.len()
        &&& self.chars@.len() <= MAX_SOURCE_LEN
        &&& self.line == sp_line_at(self.chars@, self.pos as int)
        &&& self.column == sp_col_at(self.chars@, self.pos as int)
    }

    /// Builds a cursor positioned at the start of `input`.
    ///
    /// The length bound is a machine limit: it keeps the line and column
    /// counters provably free of overflow and admits any text that could
    /// exist in memory.
    pub fn new(input: &str) -> (r: InputStream)
        requires
            input@.len() <= MAX_SOURCE_LEN,
        ensures
            r.wf(),
            r.src() == input@,
            r.cursor() == 0,
    {
        let n = input.unicode_len();
        let mut chars: Vec<char> = Vec::new();
        let mut i: usize = 0;
        while i < n
            invariant
                i <= n,
                n == input@.len(),
                chars@.len() == i,
                forall|j: int| 0 <= j < i ==> chars@[j] == input@[j],
            decreases n - i,
        {
            chars.push(input.get_char(i));
            i += 1;
        }
        proof {
            assert(chars@ =~= input@);
        }
        InputStream { chars, pos: 0, line: 1, column: 0 }
    }

    /// Consumes and returns the next character, advancing the position
    /// counters (a newline resets the column and moves to the next line).
    /// At the end of input it returns `'\0'` and consumes nothing.
    pub fn next(&mut self) -> (c: char)
        requires
            old(self).wf(),
        ensures
            final(self).wf(),
            final(self).src() == old(self).src(),
            old(self).cursor() < old(self).src().len() ==> {
                &&& c == old(self).src()[old(self).cursor()]
                &&& final(self).cursor() == old(self).cursor() + 1
            },
            old(self).cursor() >= old(self).src().len() ==> {
                &&& c == '\0'
                &&& final(self).cursor() == old(self).cursor()
            },
    {
        if self.pos < self.chars.len() {
            let c = self.chars[self.pos];
            proof {
                lemma_line_col_bounds(self.chars@, self.pos as int);
            }
            self.pos = self.pos + 1;
            if c == '\n' {
                self.line = self.line + 1;
                self.column = 0;
            } else {
                self.column = self.column + 1;
            }
            c
        } else {
            '\0'
        }
    }

    /// Returns the next character without consuming it, or `'\0'` at the
    /// end of input.
    pub fn peek(&self) -> (c: char)
        requires
            self.wf(),
        ensures
            c == if self.cursor() < self.src().len() {
                self.src()[self.cursor()]
            } else {
                '\0'
            },
    {
        if self.pos < self.chars.len() {
            self.chars[self.pos]
        } else {
            '\0'
        }
    }

    /// Whether the input is exhausted.
    pub fn eof(&self) -> (r: bool)
        requires
            self.wf(),
        ensures
            r == (self.cursor() == self.src().len()),
    {
        self.pos == self.chars.len()
    }

    /// The fatal lexical error for an unhandleable character, tagged with
    /// the current line and column.
    pub fn panic(&self, c: char) -> (e: Error)
        requires
            self.wf(),
        ensures
            e@ == (SpecError::UnexpectedChar {
                c,
                line: sp_line_at(self.src(), self.cursor()),
                col: sp_col_at(self.src(), self.cursor()),
            }),
    {
        Error::UnexpectedChar { c, line: self.line, col: self.column }
    }

    /// The fatal error for a numeric literal that does not fit the number
    /// type, tagged with the current line and column.
    pub fn too_large(&self) -> (e: Error)
        requires
            self.wf(),
        ensures
            e@ == (SpecError::NumberTooLarge {
                line: sp_line_at(self.src(), self.cursor()),
                col: sp_col_at(self.src(), self.cursor()),
            }),
    {
        Error::NumberTooLarge { line: self.line, col: self.column }
    }
}

} // verus!
