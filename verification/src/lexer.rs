use vstd::prelude::*;
use crate::errors::{Error, SpecError};
use crate::input_stream::{InputStream, sp_line_at, sp_col_at};

verus! {

/// A reserved word of the language.
#[derive(Debug, Clone, Copy, PartialEq, Eq, Structural)]
pub enum Keyword {
    If,
    Then,
    Else,
    Fn,
    True,
    False,
}

/// The smallest lexical unit of source text. Numbers are 64-bit signed
/// integers; a numeric literal may carry a fractional part in the source,
/// whose digits are consumed but do not contribute to the value.
#[derive(Debug)]
pub enum Token {
    Punctuation(char),
    Number(i64),
    String_(String),
    Identifier(String),
    Operator(String),
    Keyword(Keyword),
}

/// Mathematical mirror of [`Token`].
pub ghost enum SpecToken {
    Punctuation(char),
    Number(int),
    StringLit(Seq<char>),
    Identifier(Seq<char>),
    Operator(Seq<char>),
    Keyword(Keyword),
}

impl View for Token {
    type V = SpecToken;

    open spec fn view(&self) -> SpecToken {
        match self {
            Token::Punctuation(c) => SpecToken::Punctuation(*c),
            Token::Number(n) => SpecToken::Number(*n as int),
            Token::String_(s) => SpecToken::StringLit(s@),
            Token::Identifier(s) => SpecToken::Identifier(s@),
            Token::Operator(s) => SpecToken::Operator(s@),
            Token::Keyword(k) => SpecToken::Keyword(*k),
        }
    }
}

impl Token {
    /// A copy denoting the same token.
    pub fn duplicate(&self) -> (r: Token)
        ensures
            r@ == self@,
    {
        match self {
            Token::Punctuation(c) => Token::Punctuation(*c),
            Token::Number(n) => Token::Number(*n),
            Token::String_(s) => Token::String_(s.clone()),
            Token::Identifier(s) => Token::Identifier(s.clone()),
            Token::Operator(s) => Token::Operator(s.clone()),
            Token::Keyword(k) => Token::Keyword(*k),
        }
    }
}

// ---------------------------------------------------------------------------
// Character classes. Identifiers and whitespace follow the Unicode classes
// that std's `char` methods decide, named here as predicates of the
// character alone; digits, operators and punctuation are the fixed ASCII
// sets the grammar lists. Any character outside every class is a lexical
// error.
// ---------------------------------------------------------------------------

/// Whether `c` has the Unicode `Alphabetic` property, as
/// `char::is_alphabetic` decides it.
pub uninterp spec fn sp_char_alphabetic(c: char) -> bool;

/// Whether `c` is alphanumeric (Unicode `Alphabetic` or a numeric general
/// category), as `char::is_alphanumeric` decides it.
pub uninterp spec fn sp_char_alphanumeric(c: char) -> bool;

/// Whether `c` has the Unicode `White_Space` property, as
/// `char::is_whitespace` decides it.
pub uninterp spec fn sp_char_whitespace(c: char) -> bool;

/// Relies on `char::is_alphabetic`: a property of the character alone; on
/// the ASCII range it holds of exactly the letters.
#[verifier::external_body]
fn char_is_alphabetic(c: char) -> (r: bool)
    ensures
        r == sp_char_alphabetic(c),
        (c as u32) < 128 ==> r == ((65 <= c as u32 && c as u32 <= 90) || (97 <= c as u32 && c
            as u32 <= 122)),
{
    c.is_alphabetic()
}

/// Relies on `char::is_alphanumeric`: a property of the character alone; on
/// the ASCII range it holds of exactly the letters and digits.
#[verifier::external_body]
fn char_is_alphanumeric(c: char) -> (r: bool)
    ensures
        r == sp_char_alphanumeric(c),
        (c as u32) < 128 ==> r == ((65 <= c as u32 && c as u32 <= 90) || (97 <= c as u32 && c
            as u32 <= 122) || (48 <= c as u32 && c as u32 <= 57)),
{
    c.is_alphanumeric()
}

/// Relies on `char::is_whitespace`: a property of the character alone; on
/// the ASCII range it holds of exactly the space and the five control
/// characters tab, line feed, vertical tab, form feed and carriage return.
#[verifier::external_body]
fn char_is_whitespace(c: char) -> (r: bool)
    ensures
        r == sp_char_whitespace(c),
        (c as u32) < 128 ==> r == (c == ' ' || (9 <= c as u32 && c as u32 <= 13)),
{
    c.is_whitespace()
}

pub open spec fn sp_is_whitespace(c: char) -> bool {
    sp_char_whitespace(c)
}

pub open spec fn sp_is_digit(c: char) -> bool {
    48 <= c as u32 && c as u32 <= 57
}

pub open spec fn sp_is_identifier_start(c: char) -> bool {
    sp_char_alphabetic(c) || c == '_'
}

pub open spec fn sp_is_identifier(c: char) -> bool {
    sp_char_alphanumeric(c) || sp_char_alphabetic(c) || c == '_'
}

pub open spec fn sp_is_operator(c: char) -> bool {
    c == '+' || c == '-' || c == '*' || c == '/' || c == '%' || c == '=' || c == '|' || c == '&'
        || c == '<' || c == '>' || c == '!'
}

pub open spec fn sp_is_punctuation(c: char) -> bool {
    c == ',' || c == ';' || c == '(' || c == ')' || c == '{' || c == '}' || c == '[' || c == ']'
}

/// Whether `c` may start an operator token.
pub fn is_operator(c: char) -> (r: bool)
    ensures
        r == sp_is_operator(c),
{
    c == '+' || c == '-' || c == '*' || c == '/' || c == '%' || c == '=' || c == '|' || c == '&'
        || c == '<' || c == '>' || c == '!'
}

/// Whether `c` is a single-character punctuation token.
pub fn is_punctuation(c: char) -> (r: bool)
    ensures
        r == sp_is_punctuation(c),
{
    c == ',' || c == ';' || c == '(' || c == ')' || c == '{' || c == '}' || c == '[' || c == ']'
}

/// Whether `c` may start an identifier: a Unicode letter or `_`.
pub fn is_identifier_start(c: char) -> (r: bool)
    ensures
        r == sp_is_identifier_start(c),
{
    char_is_alphabetic(c) || c == '_'
}

/// Whether `c` may continue an identifier: a Unicode letter or digit, or `_`.
pub fn is_identifier(c: char) -> (r: bool)
    ensures
        r == sp_is_identifier(c),
{
    char_is_alphanumeric(c) || char_is_alphabetic(c) || c == '_'
}

fn is_whitespace_char(c: char) -> (r: bool)
    ensures
        r == sp_is_whitespace(c),
{
    char_is_whitespace(c)
}

fn is_digit_char(c: char) -> (r: bool)
    ensures
        r == sp_is_digit(c),
{
    let u = c as u32;
    48 <= u && u <= 57
}

// ---------------------------------------------------------------------------
// Keywords.
// ---------------------------------------------------------------------------

/// The reserved word spelled by `t`, if any.
pub open spec fn sp_get_keyword(t: Seq<char>) -> Option<Keyword> {
    if t.len() == 2 && t[0] == 'i' && t[1] == 'f' {
        Some(Keyword::If)
    } else if t.len() == 4 && t[0] == 'e' && t[1] == 'l' && t[2] == 's' && t[3] == 'e' {
        Some(Keyword::Else)
    } else if t.len() == 4 && t[0] == 't' && t[1] == 'h' && t[2] == 'e' && t[3] == 'n' {
        Some(Keyword::Then)
    } else if t.len() == 2 && t[0] == 'f' && t[1] == 'n' {
        Some(Keyword::Fn)
    } else if t.len() == 4 && t[0] == 't' && t[1] == 'r' && t[2] == 'u' && t[3] == 'e' {
        Some(Keyword::True)
    } else if t.len() == 5 && t[0] == 'f' && t[1] == 'a' && t[2] == 'l' && t[3] == 's' && t[4]
        == 'e' {
        Some(Keyword::False)
    } else {
        None
    }
}

/// Looks up whether `identifier` is a reserved word.
pub fn get_keyword(identifier: &String) -> (r: Option<Keyword>)
    ensures
        r == sp_get_keyword(identifier@),
{
    let s = identifier.as_str();
    let n = s.unicode_len();
    if n == 2 {
        let c0 = s.get_char(0);
        let c1 = s.get_char(1);
        if c0 == 'i' && c1 == 'f' {
            Some(Keyword::If)
        } else if c0 == 'f' && c1 == 'n' {
            Some(Keyword::Fn)
        } else {
            None
        }
    } else if n == 4 {
        let c0 = s.get_char(0);
        let c1 = s.get_char(1);
        let c2 = s.get_char(2);
        let c3 = s.get_char(3);
        if c0 == 'e' && c1 == 'l' && c2 == 's' && c3 == 'e' {
            Some(Keyword::Else)
        } else if c0 == 't' && c1 == 'h' && c2 == 'e' && c3 == 'n' {
            Some(Keyword::Then)
        } else if c0 == 't' && c1 == 'r' && c2 == 'u' && c3 == 'e' {
            Some(Keyword::True)
        } else {
            None
        }
    } else if n == 5 {
        let c0 = s.get_char(0);
        let c1 = s.get_char(1);
        let c2 = s.get_char(2);
        let c3 = s.get_char(3);
        let c4 = s.get_char(4);
        if c0 == 'f' && c1 == 'a' && c2 == 'l' && c3 == 's' && c4 == 'e' {
            Some(Keyword::False)
        } else {
            None
        }
    } else {
        None
    }
}

// ---------------------------------------------------------------------------
// The specification lexer: where each token class ends, and what it spells.
// ---------------------------------------------------------------------------

/// First index at or after `pos` whose character fails `pred` (or the end
/// of the text).
pub open spec fn sp_run_end(s: Seq<char>, pos: int, pred: spec_fn(char) -> bool) -> int
    decreases s.len() - pos,
    when 0 <= pos <= s.len()
{
    if pos >= s.len() || !pred(s[pos]) {
        pos
    } else {
        sp_run_end(s, pos + 1, pred)
    }
}

/// Everything `sp_run_end` guarantees: the run stays inside the text, every
/// character inside it satisfies `pred`, and the run is maximal.
pub proof fn lemma_run_end(s: Seq<char>, pos: int, pred: spec_fn(char) -> bool)
    requires
        0 <= pos <= s.len(),
    ensures
        pos <= sp_run_end(s, pos, pred) <= s.len(),
        forall|i: int| pos <= i < sp_run_end(s, pos, pred) ==> pred(s[i]),
        sp_run_end(s, pos, pred) < s.len() ==> !pred(s[sp_run_end(s, pos, pred)]),
    decreases s.len() - pos,
{
    if pos < s.len() && pred(s[pos]) {
        lemma_run_end(s, pos + 1, pred);
    }
}

pub open spec fn sp_skip_ws(s: Seq<char>, pos: int) -> int {
    sp_run_end(s, pos, |c: char| sp_is_whitespace(c))
}

pub open spec fn sp_comment_end(s: Seq<char>, pos: int) -> int {
    sp_run_end(s, pos, |c: char| c != '\n')
}

pub open spec fn sp_ident_end(s: Seq<char>, pos: int) -> int {
    sp_run_end(s, pos, |c: char| sp_is_identifier(c))
}

pub open spec fn sp_op_end(s: Seq<char>, pos: int) -> int {
    sp_run_end(s, pos, |c: char| sp_is_operator(c))
}

pub open spec fn sp_int_end(s: Seq<char>, pos: int) -> int {
    sp_run_end(s, pos, |c: char| sp_is_digit(c))
}

/// Where a numeric literal starting at `pos` ends: a run of digits, then at
/// most one `.`, then a further run of digits. A second `.` ends the number.
pub open spec fn sp_num_end(s: Seq<char>, pos: int) -> int {
    let i = sp_int_end(s, pos);
    if i < s.len() && s[i] == '.' {
        sp_int_end(s, i + 1)
    } else {
        i
    }
}

/// The value spelled by the digits `s[pos..end]`, most significant first.
pub open spec fn sp_digits_val(s: Seq<char>, pos: int, end: int) -> int
    decreases end - pos,
{
    if end <= pos {
        0
    } else {
        sp_digits_val(s, pos, end - 1) * 10 + (s[end - 1] as u32 - 48)
    }
}

/// Digit strings spell non-negative values that only grow as digits are
/// appended.
pub proof fn lemma_digits_val_mono(s: Seq<char>, pos: int, i: int, j: int)
    requires
        pos <= i <= j,
        forall|k: int| pos <= k < j ==> sp_is_digit(s[k]),
    ensures
        0 <= sp_digits_val(s, pos, i) <= sp_digits_val(s, pos, j),
    decreases j - pos,
{
    if j > pos {
        if i == j {
            lemma_digits_val_mono(s, pos, j - 1, j - 1);
        } else {
            lemma_digits_val_mono(s, pos, i, j - 1);
        }
    }
}

/// The text and end position of a string literal scanned from `pos` with
/// escape state `escaped` and text `acc` so far: characters are copied
/// verbatim until an unescaped `end`; a backslash makes the next character
/// literal; an unterminated literal silently runs to the end of input.
pub open spec fn sp_str_scan(s: Seq<char>, pos: int, end: char, escaped: bool, acc: Seq<char>) -> (
    Seq<char>,
    int,
)
    decreases s.len() - pos,
    when 0 <= pos <= s.len()
{
    if pos >= s.len() {
        (acc, pos)
    } else if escaped {
        sp_str_scan(s, pos + 1, end, false, acc.push(s[pos]))
    } else if s[pos] == '\\' {
        sp_str_scan(s, pos + 1, end, true, acc)
    } else if s[pos] == end {
        (acc, pos + 1)
    } else {
        sp_str_scan(s, pos + 1, end, false, acc.push(s[pos]))
    }
}

pub proof fn lemma_str_scan_bounds(s: Seq<char>, pos: int, end: char, escaped: bool, acc: Seq<
    char,
>)
    requires
        0 <= pos <= s.len(),
    ensures
        pos <= sp_str_scan(s, pos, end, escaped, acc).1 <= s.len() + 1,
    decreases s.len() - pos,
{
    if pos < s.len() {
        if escaped {
            lemma_str_scan_bounds(s, pos + 1, end, false, acc.push(s[pos]));
        } else if s[pos] == '\\' {
            lemma_str_scan_bounds(s, pos + 1, end, true, acc);
        } else if s[pos] == end {
        } else {
            lemma_str_scan_bounds(s, pos + 1, end, false, acc.push(s[pos]));
        }
    }
}

/// What scanning one token from position `pos` produces.
pub ghost enum LexStep {
    /// A token, and the position just past it.
    Tok(SpecToken, int),
    /// Only whitespace and comments remained.
    End,
    /// A fatal lexical error.
    Fail(SpecError),
}

/// The specification lexer: the first token at or after `pos`, after
/// whitespace and `#`-to-end-of-line comments are skipped. Token classes are
/// tried in this order: string literal, number, identifier or keyword,
/// punctuation, operator; any other character is a fatal error.
pub open spec fn sp_next_token(s: Seq<char>, pos: int) -> LexStep
    decreases s.len() - pos,
    when 0 <= pos <= s.len()
    via sp_next_token_dec
{
    let p = sp_skip_ws(s, pos);
    if p >= s.len() {
        LexStep::End
    } else {
        let c = s[p];
        if c == '#' {
            sp_next_token(s, sp_comment_end(s, p))
        } else if c == '"' {
            let scan = sp_str_scan(s, p + 1, '"', false, Seq::empty());
            LexStep::Tok(SpecToken::StringLit(scan.0), scan.1)
        } else if sp_is_digit(c) {
            let v = sp_digits_val(s, p, sp_int_end(s, p));
            if v > i64::MAX {
                LexStep::Fail(
                    SpecError::NumberTooLarge { line: sp_line_at(s, p), col: sp_col_at(s, p) },
                )
            } else {
                LexStep::Tok(SpecToken::Number(v), sp_num_end(s, p))
            }
        } else if sp_is_identifier_start(c) {
            let e = sp_ident_end(s, p);
            let t = s.subrange(p, e);
            match sp_get_keyword(t) {
                Some(k) => LexStep::Tok(SpecToken::Keyword(k), e),
                None => LexStep::Tok(SpecToken::Identifier(t), e),
            }
        } else if sp_is_punctuation(c) {
            LexStep::Tok(SpecToken::Punctuation(c), p + 1)
        } else if sp_is_operator(c) {
            LexStep::Tok(SpecToken::Operator(s.subrange(p, sp_op_end(s, p))), sp_op_end(s, p))
        } else {
            LexStep::Fail(
                SpecError::UnexpectedChar { c, line: sp_line_at(s, p), col: sp_col_at(s, p) },
            )
        }
    }
}

#[via_fn]
proof fn sp_next_token_dec(s: Seq<char>, pos: int) {
    lemma_run_end(s, pos, |c: char| sp_is_whitespace(c));
    let p = sp_skip_ws(s, pos);
    if p < s.len() && s[p] == '#' {
        lemma_run_end(s, p, |c: char| c != '\n');
    }
}

/// A produced token always sits past `pos` and within the text (a string
/// literal may consume its closing quote, hence the one-past-the-end bound).
pub proof fn lemma_next_token_advances(s: Seq<char>, pos: int)
    requires
        0 <= pos <= s.len(),
    ensures
        match sp_next_token(s, pos) {
            LexStep::Tok(_, p2) => pos < p2 <= s.len() + 1,
            _ => true,
        },
    decreases s.len() - pos,
{
    lemma_run_end(s, pos, |c: char| sp_is_whitespace(c));
    let p = sp_skip_ws(s, pos);
    if p < s.len() {
        let c = s[p];
        if c == '#' {
            lemma_run_end(s, p, |c: char| c != '\n');
            lemma_next_token_advances(s, sp_comment_end(s, p));
        } else if c == '"' {
            lemma_str_scan_bounds(s, p + 1, '"', false, Seq::empty());
        } else if sp_is_digit(c) {
            lemma_run_end(s, p, |c: char| sp_is_digit(c));
            let i = sp_int_end(s, p);
            if i < s.len() && s[i] == '.' {
                lemma_run_end(s, i + 1, |c: char| sp_is_digit(c));
            }
        } else if sp_is_identifier_start(c) {
            lemma_run_end(s, p, |c: char| sp_is_identifier(c));
        } else if sp_is_punctuation(c) {
        } else if sp_is_operator(c) {
            lemma_run_end(s, p, |c: char| sp_is_operator(c));
        }
    }
}

/// The whole remaining token stream from `pos`, or the first lexical error.
pub ghost enum SpecTokens {
    Toks(Seq<SpecToken>),
    Fail(SpecError),
}

pub open spec fn sp_tokens(s: Seq<char>, pos: int) -> SpecTokens
    decreases s.len() + 1 - pos,
    when 0 <= pos <= s.len()
    via sp_tokens_dec
{
    match sp_next_token(s, pos) {
        LexStep::End => SpecTokens::Toks(Seq::empty()),
        LexStep::Fail(e) => SpecTokens::Fail(e),
        LexStep::Tok(t, p2) => if p2 <= s.len() {
            match sp_tokens(s, p2) {
                SpecTokens::Toks(rest) => SpecTokens::Toks(seq![t] + rest),
                SpecTokens::Fail(e) => SpecTokens::Fail(e),
            }
        } else {
            SpecTokens::Toks(seq![t])
        },
    }
}

#[via_fn]
proof fn sp_tokens_dec(s: Seq<char>, pos: int) {
    lemma_next_token_advances(s, pos);
}

// ---------------------------------------------------------------------------
// The executable lexer.
// ---------------------------------------------------------------------------

/// Relies on `String: FromIterator<char>` (`Iterator::collect`): collecting
/// a vector of characters yields the string of exactly those characters.
#[verifier::external_body]
fn chars_to_string(v: &Vec<char>) -> (r: String)
    ensures
        r@ == v@,
{
    v.iter().collect()
}

/// A one-token-lookahead stream of tokens over an [`InputStream`]. `peek`
/// buffers a token without consuming it; `next` consumes the buffer if one
/// is present, else reads a fresh token.
pub struct TokenStream {
    pub input_stream: InputStream,
    pub current: Option<Token>,
    pub marker: Ghost<int>,
}

impl TokenStream {
    /// The whole source text.
    pub open spec fn src(&self) -> Seq<char> {
        self.input_stream.src()
    }

    /// The position of the first unconsumed token: if a token is buffered,
    /// the position it was read from, else the character cursor.
    pub open spec fn mark(&self) -> int {
        if self.current is Some {
            self.marker@
        } else {
            self.input_stream.cursor()
        }
    }

    /// The buffered token, if any, is exactly what the specification lexer
    /// produces at the marked position.
    pub open spec fn wf(&self) -> bool {
        &&& self.input_stream.wf()
        &&& match self.current {
            Some(t) => {
                &&& 0 <= self.marker@ <= self.src().len()
                &&& sp_next_token(self.src(), self.marker@) == LexStep::Tok(
                    t@,
                    self.input_stream.cursor(),
                )
            },
            None => true,
        }
    }

    /// How the result of reading one token must relate to the
    /// specification lexer's step.
    pub open spec fn step_matches(step: LexStep, r: Result<Option<Token>, Error>) -> bool {
        match step {
            LexStep::Tok(t, _) => match r {
                Ok(Some(tok)) => tok@ == t,
                _ => false,
            },
            LexStep::End => match r {
                Ok(tok) => tok is None,
                _ => false,
            },
            LexStep::Fail(e) => match r {
                Err(err) => err@ == e,
                _ => false,
            },
        }
    }

    /// Wraps a character cursor with an empty lookahead buffer.
    pub fn new(input_stream: InputStream) -> (r: TokenStream)
        requires
            input_stream.wf(),
        ensures
            r.wf(),
            r.current is None,
            r.src() == input_stream.src(),
            r.mark() == input_stream.cursor(),
    {
        TokenStream { input_stream, current: None, marker: Ghost(0) }
    }

    /// Advances the character cursor past any whitespace.
    #[verifier::loop_isolation(false)]
    fn skip_whitespace(&mut self)
        requires
            old(self).wf(),
            old(self).current is None,
        ensures
            final(self).wf(),
            final(self).current is None,
            final(self).src() == old(self).src(),
            final(self).input_stream.cursor() == sp_skip_ws(
                old(self).src(),
                old(self).input_stream.cursor(),
            ),
    {
        let ghost s = self.src();
        let ghost c0 = self.input_stream.cursor();
        proof {
            lemma_run_end(s, c0, |c: char| sp_is_whitespace(c));
        }
        while !self.input_stream.eof() && is_whitespace_char(self.input_stream.peek())
            invariant
                self.wf(),
                self.current is None,
                self.src() == s,
                c0 <= self.input_stream.cursor() <= s.len(),
                sp_skip_ws(s, c0) == sp_skip_ws(s, self.input_stream.cursor()),
            decreases s.len() - self.input_stream.cursor(),
        {
            self.input_stream.next();
        }
    }

    /// Reads characters through the end of the current line, leaving the
    /// newline itself unconsumed.
    #[verifier::loop_isolation(false)]
    pub fn skip_comment(&mut self)
        requires
            old(self).wf(),
            old(self).current is None,
        ensures
            final(self).wf(),
            final(self).current is None,
            final(self).src() == old(self).src(),
            final(self).input_stream.cursor() == sp_comment_end(
                old(self).src(),
                old(self).input_stream.cursor(),
            ),
    {
        let ghost s = self.src();
        let ghost c0 = self.input_stream.cursor();
        proof {
            lemma_run_end(s, c0, |c: char| c != '\n');
        }
        while !self.input_stream.eof() && self.input_stream.peek() != '\n'
            invariant
                self.wf(),
                self.current is None,
                self.src() == s,
                c0 <= self.input_stream.cursor() <= s.len(),
                sp_comment_end(s, c0) == sp_comment_end(s, self.input_stream.cursor()),
            decreases s.len() - self.input_stream.cursor(),
        {
            self.input_stream.next();
        }
    }

    /// Reads a numeric literal: a run of digits, at most one `.`, and a
    /// further run of digits. The token's value is the integer part; the
    /// fractional digits are consumed and discarded. A value that does not
    /// fit the number type is a fatal error positioned at the first digit.
    #[verifier::loop_isolation(false)]
    pub fn read_number(&mut self) -> (r: Result<Token, Error>)
        requires
            old(self).wf(),
            old(self).current is None,
            old(self).input_stream.cursor() < old(self).src().len(),
            sp_is_digit(old(self).src()[old(self).input_stream.cursor()]),
        ensures
            final(self).wf(),
            final(self).current is None,
            final(self).src() == old(self).src(),
            old(self).input_stream.cursor() <= final(self).input_stream.cursor(),
            ({
                let s = old(self).src();
                let p = old(self).input_stream.cursor();
                let v = sp_digits_val(s, p, sp_int_end(s, p));
                if v > i64::MAX {
                    match r {
                        Err(e) => e@ == (SpecError::NumberTooLarge {
                            line: sp_line_at(s, p),
                            col: sp_col_at(s, p),
                        }),
                        _ => false,
                    }
                } else {
                    match r {
                        Ok(tok) => tok@ == SpecToken::Number(v)
                            && final(self).input_stream.cursor() == sp_num_end(s, p),
                        _ => false,
                    }
                }
            }),
    {
        let ghost s = self.src();
        let ghost p = self.input_stream.cursor();
        let overflow_error = self.input_stream.too_large();
        proof {
            lemma_run_end(s, p, |c: char| sp_is_digit(c));
        }
        let mut value: i64 = 0;
        while !self.input_stream.eof() && is_digit_char(self.input_stream.peek())
            invariant
                self.wf(),
                self.current is None,
                self.src() == s,
                p <= self.input_stream.cursor() <= s.len(),
                sp_int_end(s, p) == sp_int_end(s, self.input_stream.cursor()),
                forall|k: int| p <= k < self.input_stream.cursor() ==> sp_is_digit(s[k]),
                0 <= value,
                value as int == sp_digits_val(s, p, self.input_stream.cursor()),
                overflow_error@ == (SpecError::NumberTooLarge {
                    line: sp_line_at(s, p),
                    col: sp_col_at(s, p),
                }),
            decreases s.len() - self.input_stream.cursor(),
        {
            let ghost cur = self.input_stream.cursor();
            let c = self.input_stream.next();
            let d = (c as u32) - 48;
            if value > 922_337_203_685_477_580i64 || (value == 922_337_203_685_477_580i64 && d
                > 7) {
                proof {
                    lemma_run_end(s, cur, |c: char| sp_is_digit(c));
                    assert(sp_digits_val(s, p, cur + 1) > i64::MAX);
                    lemma_digits_val_mono(s, p, cur + 1, sp_int_end(s, cur));
                    assert(sp_int_end(s, cur) == sp_int_end(s, p));
                    assert(sp_digits_val(s, p, sp_int_end(s, p)) > i64::MAX);
                }
                return Err(overflow_error);
            }
            value = value * 10 + (d as i64);
            proof {
                lemma_run_end(s, cur, |c: char| sp_is_digit(c));
            }
        }
        proof {
            lemma_run_end(s, self.input_stream.cursor(), |c: char| sp_is_digit(c));
            assert(sp_int_end(s, p) == self.input_stream.cursor());
            lemma_digits_val_mono(s, p, p, sp_int_end(s, p));
        }
        // Optional fractional part: consumed, not represented in the value.
        if !self.input_stream.eof() {
            let c = self.input_stream.peek();
            if c == '.' {
                self.input_stream.next();
                let ghost f0 = self.input_stream.cursor();
                proof {
                    lemma_run_end(s, f0, |c: char| sp_is_digit(c));
                }
                while !self.input_stream.eof() && is_digit_char(self.input_stream.peek())
                    invariant
                        self.wf(),
                        self.current is None,
                        self.src() == s,
                        f0 <= self.input_stream.cursor() <= s.len(),
                        sp_int_end(s, f0) == sp_int_end(s, self.input_stream.cursor()),
                    decreases s.len() - self.input_stream.cursor(),
                {
                    self.input_stream.next();
                }
                proof {
                    lemma_run_end(s, self.input_stream.cursor(), |c: char| sp_is_digit(c));
                }
            }
        }
        Ok(Token::Number(value))
    }

    /// Reads a run of identifier characters and tags it as a keyword when
    /// it spells a reserved word.
    #[verifier::loop_isolation(false)]
    pub fn read_identifier(&mut self) -> (r: Token)
        requires
            old(self).wf(),
            old(self).current is None,
            old(self).input_stream.cursor() < old(self).src().len(),
            sp_is_identifier(old(self).src()[old(self).input_stream.cursor()]),
        ensures
            final(self).wf(),
            final(self).current is None,
            final(self).src() == old(self).src(),
            ({
                let s = old(self).src();
                let p = old(self).input_stream.cursor();
                let t = s.subrange(p, sp_ident_end(s, p));
                &&& final(self).input_stream.cursor() == sp_ident_end(s, p)
                &&& r@ == match sp_get_keyword(t) {
                    Some(k) => SpecToken::Keyword(k),
                    None => SpecToken::Identifier(t),
                }
            }),
    {
        let ghost s = self.src();
        let ghost p = self.input_stream.cursor();
        proof {
            lemma_run_end(s, p, |c: char| sp_is_identifier(c));
        }
        let mut acc: Vec<char> = Vec::new();
        while !self.input_stream.eof() && is_identifier(self.input_stream.peek())
            invariant
                self.wf(),
                self.current is None,
                self.src() == s,
                p <= self.input_stream.cursor() <= s.len(),
                sp_ident_end(s, p) == sp_ident_end(s, self.input_stream.cursor()),
                acc@ == s.subrange(p, self.input_stream.cursor()),
            decreases s.len() - self.input_stream.cursor(),
        {
            let ghost cur = self.input_stream.cursor();
            let c = self.input_stream.next();
            acc.push(c);
            proof {
                assert(acc@ =~= s.subrange(p, cur + 1));
            }
        }
        proof {
            lemma_run_end(s, self.input_stream.cursor(), |c: char| sp_is_identifier(c));
            assert(sp_ident_end(s, p) == self.input_stream.cursor());
        }
        let identifier = chars_to_string(&acc);
        if let Some(keyword) = get_keyword(&identifier) {
            Token::Keyword(keyword)
        } else {
            Token::Identifier(identifier)
        }
    }

    /// Consumes one opening character, then copies characters until an
    /// unescaped `end`: a backslash makes the following character literal
    /// (it is copied as-is, never interpreted). An unterminated literal
    /// silently runs to the end of input.
    #[verifier::loop_isolation(false)]
    pub fn read_escaped(&mut self, end: char) -> (r: String)
        requires
            old(self).wf(),
            old(self).current is None,
            old(self).input_stream.cursor() < old(self).src().len(),
        ensures
            final(self).wf(),
            final(self).current is None,
            final(self).src() == old(self).src(),
            ({
                let scan = sp_str_scan(
                    old(self).src(),
                    old(self).input_stream.cursor() + 1,
                    end,
                    false,
                    Seq::empty(),
                );
                r@ == scan.0 && final(self).input_stream.cursor() == scan.1
            }),
    {
        let ghost s = self.src();
        self.input_stream.next();
        let ghost p0 = self.input_stream.cursor();
        let mut escaped = false;
        let mut acc: Vec<char> = Vec::new();
        let mut done = false;
        while !done
            invariant
                self.wf(),
                self.current is None,
                self.src() == s,
                0 <= self.input_stream.cursor() <= s.len(),
                !done ==> sp_str_scan(s, p0, end, false, Seq::empty()) == sp_str_scan(
                    s,
                    self.input_stream.cursor(),
                    end,
                    escaped,
                    acc@,
                ),
                done ==> ({
                    let scan = sp_str_scan(s, p0, end, false, Seq::empty());
                    acc@ == scan.0 && self.input_stream.cursor() == scan.1
                }),
            decreases s.len() - self.input_stream.cursor() + (if done {
                0int
            } else {
                1int
            }),
        {
            if self.input_stream.eof() {
                done = true;
            } else {
                let c = self.input_stream.next();
                if escaped {
                    acc.push(c);
                    escaped = false;
                } else if c == '\\' {
                    escaped = true;
                } else if c == end {
                    done = true;
                } else {
                    acc.push(c);
                }
            }
        }
        chars_to_string(&acc)
    }

    /// Reads a string literal delimited by `"`.
    pub fn read_string(&mut self) -> (r: Token)
        requires
            old(self).wf(),
            old(self).current is None,
            old(self).input_stream.cursor() < old(self).src().len(),
        ensures
            final(self).wf(),
            final(self).current is None,
            final(self).src() == old(self).src(),
            ({
                let scan = sp_str_scan(
                    old(self).src(),
                    old(self).input_stream.cursor() + 1,
                    '"',
                    false,
                    Seq::empty(),
                );
                r@ == SpecToken::StringLit(scan.0) && final(self).input_stream.cursor() == scan.1
            }),
    {
        let string = self.read_escaped('"');
        Token::String_(string)
    }

    /// Reads the next token from the underlying characters, skipping
    /// whitespace and comments, or reports the end of input or a lexical
    /// error — exactly as the specification lexer says.
    #[verifier::loop_isolation(false)]
    pub fn read_next(&mut self) -> (r: Result<Option<Token>, Error>)
        requires
            old(self).wf(),
            old(self).current is None,
        ensures
            final(self).wf(),
            final(self).current is None,
            final(self).src() == old(self).src(),
            Self::step_matches(sp_next_token(old(self).src(), old(self).input_stream.cursor()), r),
            match sp_next_token(old(self).src(), old(self).input_stream.cursor()) {
                LexStep::Tok(_, p2) => final(self).input_stream.cursor() == p2,
                LexStep::End => final(self).input_stream.cursor() == old(self).src().len(),
                LexStep::Fail(_) => old(self).input_stream.cursor()
                    <= final(self).input_stream.cursor() <= old(self).src().len(),
            },
        decreases old(self).src().len() - old(self).input_stream.cursor(),
    {
        let ghost s = self.src();
        let ghost pos = self.input_stream.cursor();
        proof {
            lemma_run_end(s, pos, |c: char| sp_is_whitespace(c));
        }
        self.skip_whitespace();
        if self.input_stream.eof() {
            return Ok(None);
        }
        let c = self.input_stream.peek();
        if c == '#' {
            self.skip_comment();
            proof {
                lemma_run_end(s, pos, |c: char| sp_is_whitespace(c));
                lemma_run_end(s, sp_skip_ws(s, pos), |c: char| c != '\n');
            }
            self.read_next()
        } else if c == '"' {
            Ok(Some(self.read_string()))
        } else if is_digit_char(c) {
            match self.read_number() {
                Ok(tok) => Ok(Some(tok)),
                Err(e) => Err(e),
            }
        } else if is_identifier_start(c) {
            Ok(Some(self.read_identifier()))
        } else if is_punctuation(c) {
            let p = self.input_stream.next();
            Ok(Some(Token::Punctuation(p)))
        } else if is_operator(c) {
            let ghost p = self.input_stream.cursor();
            proof {
                lemma_run_end(s, p, |c: char| sp_is_operator(c));
            }
            let mut acc: Vec<char> = Vec::new();
            while !self.input_stream.eof() && is_operator(self.input_stream.peek())
                invariant
                    self.wf(),
                    self.current is None,
                    self.src() == s,
                    p <= self.input_stream.cursor() <= s.len(),
                    sp_op_end(s, p) == sp_op_end(s, self.input_stream.cursor()),
                    acc@ == s.subrange(p, self.input_stream.cursor()),
                decreases s.len() - self.input_stream.cursor(),
            {
                let ghost cur = self.input_stream.cursor();
                let c2 = self.input_stream.next();
                acc.push(c2);
                proof {
                    assert(acc@ =~= s.subrange(p, cur + 1));
                }
            }
            proof {
                lemma_run_end(s, self.input_stream.cursor(), |c: char| sp_is_operator(c));
            }
            Ok(Some(Token::Operator(chars_to_string(&acc))))
        } else {
            Err(self.input_stream.panic(c))
        }
    }

    /// Returns the next token without consuming it: reads one if none is
    /// buffered, and leaves it in the buffer. The token-level position is
    /// unchanged.
    pub fn peek(&mut self) -> (r: Result<Option<Token>, Error>)
        requires
            old(self).wf(),
        ensures
            final(self).wf(),
            final(self).src() == old(self).src(),
            Self::step_matches(sp_next_token(old(self).src(), old(self).mark()), r),
            match sp_next_token(old(self).src(), old(self).mark()) {
                LexStep::Tok(_, _) => final(self).mark() == old(self).mark(),
                LexStep::End => sp_next_token(final(self).src(), final(self).mark())
                    is End,
                LexStep::Fail(_) => old(self).mark() <= final(self).mark()
                    <= final(self).src().len(),
            },
    {
        match &self.current {
            Some(t) => Ok(Some(t.duplicate())),
            None => {
                let ghost pos = self.input_stream.cursor();
                match self.read_next() {
                    Ok(Some(tok)) => {
                        let copy = tok.duplicate();
                        self.current = Some(tok);
                        self.marker = Ghost(pos);
                        Ok(Some(copy))
                    },
                    Ok(None) => Ok(None),
                    Err(e) => Err(e),
                }
            },
        }
    }

    /// Consumes and returns the next token: the buffered one if present,
    /// else one read fresh. On success the token-level position moves just
    /// past the returned token.
    pub fn next(&mut self) -> (r: Result<Option<Token>, Error>)
        requires
            old(self).wf(),
        ensures
            final(self).wf(),
            final(self).src() == old(self).src(),
            final(self).current is None,
            Self::step_matches(sp_next_token(old(self).src(), old(self).mark()), r),
            match sp_next_token(old(self).src(), old(self).mark()) {
                LexStep::Tok(_, p2) => final(self).mark() == p2,
                LexStep::End => sp_next_token(final(self).src(), final(self).mark())
                    is End
                    && old(self).mark() <= final(self).mark() <= final(self).src().len(),
                LexStep::Fail(_) => old(self).mark() <= final(self).mark()
                    <= final(self).src().len(),
            },
    {
        match &self.current {
            Some(t) => {
                let tok = t.duplicate();
                self.current = None;
                Ok(Some(tok))
            },
            None => self.read_next(),
        }
    }

    /// Whether the token stream is exhausted: true exactly when `peek`
    /// would yield no token.
    pub fn eof(&mut self) -> (r: Result<bool, Error>)
        requires
            old(self).wf(),
        ensures
            final(self).wf(),
            final(self).src() == old(self).src(),
            match sp_next_token(old(self).src(), old(self).mark()) {
                LexStep::Tok(_, _) => r == Ok::<bool, Error>(false) && final(self).mark() == old(
                    self,
                ).mark(),
                LexStep::End => r == Ok::<bool, Error>(true) && sp_next_token(
                    final(self).src(),
                    final(self).mark(),
                ) is End,
                LexStep::Fail(e) => match r {
                    Err(err) => err@ == e && old(self).mark() <= final(self).mark()
                        <= final(self).src().len(),
                    _ => false,
                },
            },
    {
        match self.peek() {
            Ok(Some(_)) => Ok(false),
            Ok(None) => Ok(true),
            Err(e) => Err(e),
        }
    }

    /// The fatal lexical error for an unhandleable character, tagged with
    /// the current character position.
    pub fn panic(&self, c: char) -> (e: Error)
        requires
            self.wf(),
        ensures
            e@ == (SpecError::UnexpectedChar {
                c,
                line: sp_line_at(self.src(), self.input_stream.cursor()),
                col: sp_col_at(self.src(), self.input_stream.cursor()),
            }),
    {
        self.input_stream.panic(c)
    }
}


// ---------------------------------------------------------------------------
// Operator texts.
// ---------------------------------------------------------------------------

/// The operator an operator-token's text denotes. `Assign` is handled by the
/// parser alone; `NotEq` parses at relational precedence but the evaluator
/// has no rule for it, so it fails at run time like any unknown operator.
#[derive(Debug, Clone, Copy, PartialEq, Eq, Structural)]
pub enum OpKind {
    Assign,
    Or,
    And,
    Lt,
    Gt,
    Le,
    Ge,
    EqEq,
    NotEq,
    Add,
    Sub,
    Mul,
    Div,
    Mod,
    Unknown,
}

/// Which operator an operator text spells.
pub open spec fn sp_classify_op(t: Seq<char>) -> OpKind {
    if t.len() == 1 {
        if t[0] == '=' {
            OpKind::Assign
        } else if t[0] == '<' {
            OpKind::Lt
        } else if t[0] == '>' {
            OpKind::Gt
        } else if t[0] == '+' {
            OpKind::Add
        } else if t[0] == '-' {
            OpKind::Sub
        } else if t[0] == '*' {
            OpKind::Mul
        } else if t[0] == '/' {
            OpKind::Div
        } else if t[0] == '%' {
            OpKind::Mod
        } else {
            OpKind::Unknown
        }
    } else if t.len() == 2 {
        if t[0] == '|' && t[1] == '|' {
            OpKind::Or
        } else if t[0] == '&' && t[1] == '&' {
            OpKind::And
        } else if t[0] == '<' && t[1] == '=' {
            OpKind::Le
        } else if t[0] == '>' && t[1] == '=' {
            OpKind::Ge
        } else if t[0] == '=' && t[1] == '=' {
            OpKind::EqEq
        } else if t[0] == '!' && t[1] == '=' {
            OpKind::NotEq
        } else {
            OpKind::Unknown
        }
    } else {
        OpKind::Unknown
    }
}

/// Classifies an operator text.
pub fn classify_op(op: &String) -> (r: OpKind)
    ensures
        r == sp_classify_op(op@),
{
    let s = op.as_str();
    let n = s.unicode_len();
    if n == 1 {
        let c = s.get_char(0);
        if c == '=' {
            OpKind::Assign
        } else if c == '<' {
            OpKind::Lt
        } else if c == '>' {
            OpKind::Gt
        } else if c == '+' {
            OpKind::Add
        } else if c == '-' {
            OpKind::Sub
        } else if c == '*' {
            OpKind::Mul
        } else if c == '/' {
            OpKind::Div
        } else if c == '%' {
            OpKind::Mod
        } else {
            OpKind::Unknown
        }
    } else if n == 2 {
        let c0 = s.get_char(0);
        let c1 = s.get_char(1);
        if c0 == '|' && c1 == '|' {
            OpKind::Or
        } else if c0 == '&' && c1 == '&' {
            OpKind::And
        } else if c0 == '<' && c1 == '=' {
            OpKind::Le
        } else if c0 == '>' && c1 == '=' {
            OpKind::Ge
        } else if c0 == '=' && c1 == '=' {
            OpKind::EqEq
        } else if c0 == '!' && c1 == '=' {
            OpKind::NotEq
        } else {
            OpKind::Unknown
        }
    } else {
        OpKind::Unknown
    }
}

} // verus!
