use vstd::prelude::*;
use crate::ast::{AST, SpecAST, view_names, view_ast_seq, lemma_view_ast_seq};
use crate::errors::{Error, SpecError};
use crate::lexer::{
    Token, SpecToken, TokenStream, Keyword, OpKind, sp_classify_op, classify_op, SpecTokens,
    sp_tokens, lemma_next_token_advances,
};
use crate::input_stream::{InputStream, MAX_SOURCE_LEN};

verus! {

broadcast use vstd::std_specs::vec::axiom_spec_len;

// ---------------------------------------------------------------------------
// The specification parser: recursive descent with precedence climbing over
// a sequence of tokens. `fuel` bounds the recursion depth; the executable
// parser starts with more fuel than any input of that size can use, so
// running out is the fatal recursion-limit error.
// ---------------------------------------------------------------------------

/// What parsing one construct yields: a node and the position just past it,
/// or a fatal parse error.
pub ghost enum ParseOut {
    Node(SpecAST, int),
    Fail(SpecError),
}

/// A parsed expression list and the position just past its closing
/// punctuation.
pub ghost enum ExprsOut {
    Items(Seq<SpecAST>, int),
    Fail(SpecError),
}

/// A parsed parameter-name list and the position just past its closing
/// punctuation.
pub ghost enum NamesOut {
    Names(Seq<Seq<char>>, int),
    Fail(SpecError),
}

/// The views of a sequence of tokens, elementwise.
pub open spec fn view_tokens(s: Seq<Token>) -> Seq<SpecToken> {
    Seq::new(s.len(), |i: int| s[i]@)
}

/// Whether the token at `pos` is the punctuation character `c`.
pub open spec fn sp_at_punc(ts: Seq<SpecToken>, pos: int, c: char) -> bool {
    0 <= pos < ts.len() && ts[pos] == SpecToken::Punctuation(c)
}

/// Whether the token at `pos` is the keyword `k`.
pub open spec fn sp_at_keyword(ts: Seq<SpecToken>, pos: int, k: Keyword) -> bool {
    0 <= pos < ts.len() && ts[pos] == SpecToken::Keyword(k)
}

/// The binding strength of an operator text (higher binds tighter), or
/// nothing for an operator outside the table — a fatal parse error.
pub open spec fn sp_precedence(t: Seq<char>) -> Option<int> {
    match sp_classify_op(t) {
        OpKind::Assign => Some(1int),
        OpKind::Or => Some(2int),
        OpKind::And => Some(3int),
        OpKind::Lt => Some(7int),
        OpKind::Gt => Some(7int),
        OpKind::Le => Some(7int),
        OpKind::Ge => Some(7int),
        OpKind::EqEq => Some(7int),
        OpKind::NotEq => Some(7int),
        OpKind::Add => Some(10int),
        OpKind::Sub => Some(10int),
        OpKind::Mul => Some(20int),
        OpKind::Div => Some(20int),
        OpKind::Mod => Some(20int),
        OpKind::Unknown => None,
    }
}

/// An expression: an atom, extended by precedence climbing, then optionally
/// applied as a call when a `(` follows directly.
pub open spec fn sp_parse_expression(ts: Seq<SpecToken>, pos: int, fuel: nat) -> ParseOut
    decreases fuel, 3int,
{
    if fuel == 0 {
        ParseOut::Fail(SpecError::RecursionLimit)
    } else {
        match sp_parse_atom(ts, pos, (fuel - 1) as nat) {
            ParseOut::Fail(e) => ParseOut::Fail(e),
            ParseOut::Node(atom, p1) => match sp_maybe_binary(
                ts,
                atom,
                0,
                p1,
                (fuel - 1) as nat,
            ) {
                ParseOut::Fail(e) => ParseOut::Fail(e),
                ParseOut::Node(result, p2) => if sp_at_punc(ts, p2, '(') {
                    sp_parse_call(ts, result, p2, (fuel - 1) as nat)
                } else {
                    ParseOut::Node(result, p2)
                },
            },
        }
    }
}

/// An atom: a parenthesised expression, a block, an `if`, a boolean, a
/// function literal, or a single identifier / number / string token — each
/// optionally followed directly by a call suffix.
pub open spec fn sp_parse_atom(ts: Seq<SpecToken>, pos: int, fuel: nat) -> ParseOut
    decreases fuel, 3int,
{
    if fuel == 0 {
        ParseOut::Fail(SpecError::RecursionLimit)
    } else {
        let inner = if sp_at_punc(ts, pos, '(') {
            match sp_parse_expression(ts, pos + 1, (fuel - 1) as nat) {
                ParseOut::Fail(e) => ParseOut::Fail(e),
                ParseOut::Node(e1, p1) => if sp_at_punc(ts, p1, ')') {
                    ParseOut::Node(e1, p1 + 1)
                } else {
                    ParseOut::Fail(SpecError::ExpectedPunctuation(')'))
                },
            }
        } else if sp_at_punc(ts, pos, '{') {
            sp_parse_program(ts, pos, (fuel - 1) as nat)
        } else if sp_at_keyword(ts, pos, Keyword::If) {
            sp_parse_if(ts, pos, (fuel - 1) as nat)
        } else if sp_at_keyword(ts, pos, Keyword::True) || sp_at_keyword(
            ts,
            pos,
            Keyword::False,
        ) {
            sp_parse_boolean(ts, pos)
        } else if sp_at_keyword(ts, pos, Keyword::Fn) {
            sp_parse_function(ts, pos + 1, (fuel - 1) as nat)
        } else if 0 <= pos < ts.len() {
            match ts[pos] {
                SpecToken::Identifier(name) => ParseOut::Node(SpecAST::Variable(name), pos + 1),
                SpecToken::Number(n) => ParseOut::Node(SpecAST::Number(n), pos + 1),
                SpecToken::StringLit(s) => ParseOut::Node(SpecAST::StringLit(s), pos + 1),
                _ => ParseOut::Fail(SpecError::UnexpectedToken),
            }
        } else {
            ParseOut::Fail(SpecError::UnexpectedToken)
        };
        match inner {
            ParseOut::Fail(e) => ParseOut::Fail(e),
            ParseOut::Node(a, p) => if sp_at_punc(ts, p, '(') {
                sp_parse_call(ts, a, p, (fuel - 1) as nat)
            } else {
                ParseOut::Node(a, p)
            },
        }
    }
}

/// Precedence climbing: while an operator binding tighter than the context
/// follows, consume it and fold a binary (or assignment) node. `=` is
/// right-associative: its right side climbs from one level below its own
/// precedence, so assignment chains nest to the right. Every other operator
/// of equal precedence associates to the left.
pub open spec fn sp_maybe_binary(
    ts: Seq<SpecToken>,
    left: SpecAST,
    prec_left: int,
    pos: int,
    fuel: nat,
) -> ParseOut
    decreases fuel, 3int,
{
    if fuel == 0 {
        ParseOut::Fail(SpecError::RecursionLimit)
    } else if 0 <= pos < ts.len() && ts[pos] is Operator {
        let op = ts[pos]->Operator_0;
        match sp_precedence(op) {
            None => ParseOut::Fail(SpecError::UnknownOperator),
            Some(prec_right) => if prec_right > prec_left {
                let is_assign = sp_classify_op(op) == OpKind::Assign;
                let next_prec = if is_assign {
                    prec_right - 1
                } else {
                    prec_right
                };
                match sp_parse_atom(ts, pos + 1, (fuel - 1) as nat) {
                    ParseOut::Fail(e) => ParseOut::Fail(e),
                    ParseOut::Node(atom, p1) => match sp_maybe_binary(
                        ts,
                        atom,
                        next_prec,
                        p1,
                        (fuel - 1) as nat,
                    ) {
                        ParseOut::Fail(e) => ParseOut::Fail(e),
                        ParseOut::Node(next_bin, p2) => {
                            let node = if is_assign {
                                SpecAST::Assign {
                                    operator: op,
                                    left: Box::new(left),
                                    right: Box::new(next_bin),
                                }
                            } else {
                                SpecAST::Binary {
                                    operator: op,
                                    left: Box::new(left),
                                    right: Box::new(next_bin),
                                }
                            };
                            sp_maybe_binary(ts, node, prec_left, p2, (fuel - 1) as nat)
                        },
                    },
                }
            } else {
                ParseOut::Node(left, pos)
            },
        }
    } else {
        ParseOut::Node(left, pos)
    }
}

/// A call suffix: the argument list, applied to the already-parsed callee.
pub open spec fn sp_parse_call(ts: Seq<SpecToken>, f: SpecAST, pos: int, fuel: nat) -> ParseOut
    decreases fuel, 2int,
{
    match sp_delimited_expressions(ts, pos, '(', ')', ',', fuel) {
        ExprsOut::Fail(e) => ParseOut::Fail(e),
        ExprsOut::Items(args, p) => ParseOut::Node(
            SpecAST::Call { function: Box::new(f), arguments: args },
            p,
        ),
    }
}

/// A block `{ ... }`: an empty block denotes false, a one-statement block
/// collapses to that statement, anything longer becomes a `Program`.
pub open spec fn sp_parse_program(ts: Seq<SpecToken>, pos: int, fuel: nat) -> ParseOut
    decreases fuel, 2int,
{
    match sp_delimited_expressions(ts, pos, '{', '}', ';', fuel) {
        ExprsOut::Fail(e) => ParseOut::Fail(e),
        ExprsOut::Items(list, p) => if list.len() == 0 {
            ParseOut::Node(SpecAST::Boolean(false), p)
        } else if list.len() == 1 {
            ParseOut::Node(list[0], p)
        } else {
            ParseOut::Node(SpecAST::Program(list), p)
        },
    }
}

/// A boolean literal.
pub open spec fn sp_parse_boolean(ts: Seq<SpecToken>, pos: int) -> ParseOut {
    if sp_at_keyword(ts, pos, Keyword::True) {
        ParseOut::Node(SpecAST::Boolean(true), pos + 1)
    } else if sp_at_keyword(ts, pos, Keyword::False) {
        ParseOut::Node(SpecAST::Boolean(false), pos + 1)
    } else {
        ParseOut::Fail(SpecError::UnexpectedToken)
    }
}

/// `if` condition `then` branch, with an optional `else` branch.
pub open spec fn sp_parse_if(ts: Seq<SpecToken>, pos: int, fuel: nat) -> ParseOut
    decreases fuel, 3int,
{
    if fuel == 0 {
        ParseOut::Fail(SpecError::RecursionLimit)
    } else if !sp_at_keyword(ts, pos, Keyword::If) {
        ParseOut::Fail(SpecError::ExpectedKeyword(Keyword::If))
    } else {
        match sp_parse_expression(ts, pos + 1, (fuel - 1) as nat) {
            ParseOut::Fail(e) => ParseOut::Fail(e),
            ParseOut::Node(cond, p1) => if !sp_at_keyword(ts, p1, Keyword::Then) {
                ParseOut::Fail(SpecError::ExpectedKeyword(Keyword::Then))
            } else {
                match sp_parse_expression(ts, p1 + 1, (fuel - 1) as nat) {
                    ParseOut::Fail(e) => ParseOut::Fail(e),
                    ParseOut::Node(thenb, p2) => if sp_at_keyword(ts, p2, Keyword::Else) {
                        match sp_parse_expression(ts, p2 + 1, (fuel - 1) as nat) {
                            ParseOut::Fail(e) => ParseOut::Fail(e),
                            ParseOut::Node(elseb, p3) => ParseOut::Node(
                                SpecAST::If {
                                    condition: Box::new(cond),
                                    then_branch: Box::new(thenb),
                                    otherwise: Some(Box::new(elseb)),
                                },
                                p3,
                            ),
                        }
                    } else {
                        ParseOut::Node(
                            SpecAST::If {
                                condition: Box::new(cond),
                                then_branch: Box::new(thenb),
                                otherwise: None,
                            },
                            p2,
                        )
                    },
                }
            },
        }
    }
}

/// A function literal (after its `fn` keyword): a parenthesised parameter
/// list, then a single expression body.
pub open spec fn sp_parse_function(ts: Seq<SpecToken>, pos: int, fuel: nat) -> ParseOut
    decreases fuel, 3int,
{
    if fuel == 0 {
        ParseOut::Fail(SpecError::RecursionLimit)
    } else {
        match sp_delimited_identifiers(ts, pos, '(', ')', ',', (fuel - 1) as nat) {
            NamesOut::Fail(e) => ParseOut::Fail(e),
            NamesOut::Names(params, p1) => match sp_parse_expression(ts, p1, (fuel - 1) as nat) {
                ParseOut::Fail(e) => ParseOut::Fail(e),
                ParseOut::Node(body, p2) => ParseOut::Node(
                    SpecAST::Function { parameters: params, body: Box::new(body), native: None },
                    p2,
                ),
            },
        }
    }
}

/// A delimited expression list: the opening punctuation, items separated by
/// exactly one separator (a trailing separator before the close is
/// allowed), and the closing punctuation.
pub open spec fn sp_delimited_expressions(
    ts: Seq<SpecToken>,
    pos: int,
    start: char,
    end: char,
    sep: char,
    fuel: nat,
) -> ExprsOut
    decreases fuel, 1int,
{
    if !sp_at_punc(ts, pos, start) {
        ExprsOut::Fail(SpecError::ExpectedPunctuation(start))
    } else {
        sp_delim_expr_items(ts, pos + 1, end, sep, true, fuel)
    }
}

/// The items of an expression list, from the position after the opening
/// punctuation (or after an item).
pub open spec fn sp_delim_expr_items(
    ts: Seq<SpecToken>,
    pos: int,
    end: char,
    sep: char,
    first: bool,
    fuel: nat,
) -> ExprsOut
    decreases fuel, 0int,
{
    if fuel == 0 {
        ExprsOut::Fail(SpecError::RecursionLimit)
    } else if pos >= ts.len() {
        ExprsOut::Fail(SpecError::ExpectedPunctuation(end))
    } else if ts[pos] == SpecToken::Punctuation(end) {
        ExprsOut::Items(Seq::empty(), pos + 1)
    } else if first {
        match sp_parse_expression(ts, pos, (fuel - 1) as nat) {
            ParseOut::Fail(e) => ExprsOut::Fail(e),
            ParseOut::Node(a, p) => match sp_delim_expr_items(
                ts,
                p,
                end,
                sep,
                false,
                (fuel - 1) as nat,
            ) {
                ExprsOut::Fail(e) => ExprsOut::Fail(e),
                ExprsOut::Items(rest, p2) => ExprsOut::Items(seq![a] + rest, p2),
            },
        }
    } else if ts[pos] == SpecToken::Punctuation(sep) {
        if sp_at_punc(ts, pos + 1, end) {
            ExprsOut::Items(Seq::empty(), pos + 2)
        } else {
            match sp_parse_expression(ts, pos + 1, (fuel - 1) as nat) {
                ParseOut::Fail(e) => ExprsOut::Fail(e),
                ParseOut::Node(a, p) => match sp_delim_expr_items(
                    ts,
                    p,
                    end,
                    sep,
                    false,
                    (fuel - 1) as nat,
                ) {
                    ExprsOut::Fail(e) => ExprsOut::Fail(e),
                    ExprsOut::Items(rest, p2) => ExprsOut::Items(seq![a] + rest, p2),
                },
            }
        }
    } else {
        ExprsOut::Fail(SpecError::ExpectedPunctuation(sep))
    }
}

/// A delimited parameter-name list, shaped like the expression lists but
/// holding identifiers only.
pub open spec fn sp_delimited_identifiers(
    ts: Seq<SpecToken>,
    pos: int,
    start: char,
    end: char,
    sep: char,
    fuel: nat,
) -> NamesOut
    decreases fuel, 1int,
{
    if !sp_at_punc(ts, pos, start) {
        NamesOut::Fail(SpecError::ExpectedPunctuation(start))
    } else {
        sp_delim_name_items(ts, pos + 1, end, sep, true, fuel)
    }
}

/// A single identifier token, as a parameter name.
pub open spec fn sp_parse_variable(ts: Seq<SpecToken>, pos: int) -> Result<
    (Seq<char>, int),
    SpecError,
> {
    if 0 <= pos < ts.len() && ts[pos] is Identifier {
        Ok((ts[pos]->Identifier_0, pos + 1))
    } else {
        Err(SpecError::ExpectedVariableName)
    }
}

/// The items of a parameter-name list.
pub open spec fn sp_delim_name_items(
    ts: Seq<SpecToken>,
    pos: int,
    end: char,
    sep: char,
    first: bool,
    fuel: nat,
) -> NamesOut
    decreases fuel, 0int,
{
    if fuel == 0 {
        NamesOut::Fail(SpecError::RecursionLimit)
    } else if pos >= ts.len() {
        NamesOut::Fail(SpecError::ExpectedPunctuation(end))
    } else if ts[pos] == SpecToken::Punctuation(end) {
        NamesOut::Names(Seq::empty(), pos + 1)
    } else if first {
        match sp_parse_variable(ts, pos) {
            Err(e) => NamesOut::Fail(e),
            Ok((n, p)) => match sp_delim_name_items(ts, p, end, sep, false, (fuel - 1) as nat) {
                NamesOut::Fail(e) => NamesOut::Fail(e),
                NamesOut::Names(rest, p2) => NamesOut::Names(seq![n] + rest, p2),
            },
        }
    } else if ts[pos] == SpecToken::Punctuation(sep) {
        if sp_at_punc(ts, pos + 1, end) {
            NamesOut::Names(Seq::empty(), pos + 2)
        } else {
            match sp_parse_variable(ts, pos + 1) {
                Err(e) => NamesOut::Fail(e),
                Ok((n, p)) => match sp_delim_name_items(
                    ts,
                    p,
                    end,
                    sep,
                    false,
                    (fuel - 1) as nat,
                ) {
                    NamesOut::Fail(e) => NamesOut::Fail(e),
                    NamesOut::Names(rest, p2) => NamesOut::Names(seq![n] + rest, p2),
                },
            }
        }
    } else {
        NamesOut::Fail(SpecError::ExpectedPunctuation(sep))
    }
}

/// The statements of a whole program: expressions separated by `;`, where
/// the final expression may omit its `;`.
pub open spec fn sp_parse_stmts_top(ts: Seq<SpecToken>, pos: int, fuel: nat) -> ExprsOut
    decreases fuel, 3int,
{
    if fuel == 0 {
        ExprsOut::Fail(SpecError::RecursionLimit)
    } else if pos >= ts.len() {
        ExprsOut::Items(Seq::empty(), pos)
    } else {
        match sp_parse_expression(ts, pos, (fuel - 1) as nat) {
            ParseOut::Fail(e) => ExprsOut::Fail(e),
            ParseOut::Node(a, p1) => if p1 >= ts.len() {
                ExprsOut::Items(seq![a], p1)
            } else if ts[p1] == SpecToken::Punctuation(';') {
                match sp_parse_stmts_top(ts, p1 + 1, (fuel - 1) as nat) {
                    ExprsOut::Fail(e) => ExprsOut::Fail(e),
                    ExprsOut::Items(rest, p2) => ExprsOut::Items(seq![a] + rest, p2),
                }
            } else {
                ExprsOut::Fail(SpecError::ExpectedPunctuation(';'))
            },
        }
    }
}

/// The fuel the executable parser starts with: far more than one recursion
/// level can exist per token.
pub open spec fn sp_parse_fuel(n: int) -> nat {
    (16 * n + 64) as nat
}

/// A whole token sequence parsed as a program.
pub open spec fn sp_parse_tokens(ts: Seq<SpecToken>) -> Result<SpecAST, SpecError> {
    match sp_parse_stmts_top(ts, 0, sp_parse_fuel(ts.len() as int)) {
        ExprsOut::Fail(e) => Err(e),
        ExprsOut::Items(list, _) => Ok(SpecAST::Program(list)),
    }
}

/// Source text from position `pos`, lexed and parsed as a program.
pub open spec fn sp_parse_source(s: Seq<char>, pos: int) -> Result<SpecAST, SpecError> {
    match sp_tokens(s, pos) {
        SpecTokens::Fail(e) => Err(e),
        SpecTokens::Toks(ts) => sp_parse_tokens(ts),
    }
}

// ---------------------------------------------------------------------------
// The executable parser.
// ---------------------------------------------------------------------------

/// How an executable parsing function's result must relate to the
/// specification parser's.
pub open spec fn parse_result_matches(sr: ParseOut, r: Result<(AST, usize), Error>) -> bool {
    match sr {
        ParseOut::Node(a, p) => r matches Ok(q) && q.0@ == a && q.1 as int == p,
        ParseOut::Fail(e) => r matches Err(err) && err@ == e,
    }
}

pub open spec fn exprs_result_matches(sr: ExprsOut, r: Result<(Vec<AST>, usize), Error>) -> bool {
    match sr {
        ExprsOut::Items(list, p) => r matches Ok(q) && view_ast_seq(q.0@) == list && q.1 as int
            == p,
        ExprsOut::Fail(e) => r matches Err(err) && err@ == e,
    }
}

pub open spec fn names_result_matches(sr: NamesOut, r: Result<(Vec<String>, usize), Error>) -> bool {
    match sr {
        NamesOut::Names(list, p) => r matches Ok(q) && view_names(q.0@) == list && q.1 as int
            == p,
        NamesOut::Fail(e) => r matches Err(err) && err@ == e,
    }
}

/// Whether the token at `pos` is the punctuation `c`.
fn tok_punc(toks: &Vec<Token>, pos: usize, c: char) -> (r: bool)
    ensures
        r == sp_at_punc(view_tokens(toks@), pos as int, c),
        r ==> pos < toks@.len(),
{
    pos < toks.len() && match &toks[pos] {
        Token::Punctuation(p) => *p == c,
        _ => false,
    }
}

/// Whether the token at `pos` is the keyword `k`.
fn tok_keyword(toks: &Vec<Token>, pos: usize, k: Keyword) -> (r: bool)
    ensures
        r == sp_at_keyword(view_tokens(toks@), pos as int, k),
        r ==> pos < toks@.len(),
{
    pos < toks.len() && match &toks[pos] {
        Token::Keyword(kw) => *kw == k,
        _ => false,
    }
}

/// A vector starting with `x`, followed by everything in `rest`.
fn prepend_ast(x: AST, rest: Vec<AST>) -> (r: Vec<AST>)
    ensures
        view_ast_seq(r@) == seq![x@] + view_ast_seq(rest@),
{
    let ghost xv = x@;
    let ghost rest_elems = rest@;
    proof {
        lemma_view_ast_seq(rest@);
    }
    let ghost rest_view = view_ast_seq(rest@);
    let mut out: Vec<AST> = Vec::new();
    out.push(x);
    let mut tail = rest;
    out.append(&mut tail);
    proof {
        lemma_view_ast_seq(out@);
        assert(out@ =~= seq![out@[0]] + rest_elems);
        assert forall|k: int| 0 <= k < out@.len() implies view_ast_seq(out@)[k] == (seq![xv]
            + rest_view)[k] by {
            assert(view_ast_seq(out@)[k] == out@[k]@);
            if k > 0 {
                assert(rest_view[k - 1] == rest_elems[k - 1]@);
            }
        }
        assert(view_ast_seq(out@) =~= seq![xv] + rest_view);
    }
    out
}

/// A vector starting with the name `x`, followed by everything in `rest`.
fn prepend_name(x: String, rest: Vec<String>) -> (r: Vec<String>)
    ensures
        view_names(r@) == seq![x@] + view_names(rest@),
{
    let ghost xv = x@;
    let ghost rest_elems = rest@;
    let mut out: Vec<String> = Vec::new();
    out.push(x);
    let mut tail = rest;
    out.append(&mut tail);
    proof {
        assert(out@ =~= seq![out@[0]] + rest_elems);
        assert(view_names(out@) =~= seq![xv] + view_names(rest_elems));
    }
    out
}

/// The binding strength of an operator token's text (higher binds tighter),
/// or nothing for one outside the table.
pub fn precedence(op: &String) -> (r: Option<u8>)
    ensures
        match r {
            Some(p) => sp_precedence(op@) == Some(p as int),
            None => sp_precedence(op@) is None,
        },
{
    match classify_op(op) {
        OpKind::Assign => Some(1),
        OpKind::Or => Some(2),
        OpKind::And => Some(3),
        OpKind::Lt => Some(7),
        OpKind::Gt => Some(7),
        OpKind::Le => Some(7),
        OpKind::Ge => Some(7),
        OpKind::EqEq => Some(7),
        OpKind::NotEq => Some(7),
        OpKind::Add => Some(10),
        OpKind::Sub => Some(10),
        OpKind::Mul => Some(20),
        OpKind::Div => Some(20),
        OpKind::Mod => Some(20),
        OpKind::Unknown => None,
    }
}

fn parse_expression(toks: &Vec<Token>, pos: usize, fuel: u64) -> (r: Result<(AST, usize), Error>)
    requires
        pos <= toks@.len(),
    ensures
        parse_result_matches(sp_parse_expression(view_tokens(toks@), pos as int, fuel as nat), r),
        r matches Ok(q) ==> q.1 <= toks@.len(),
    decreases fuel, 3int,
{
    if fuel == 0 {
        return Err(Error::RecursionLimit);
    }
    match parse_atom(toks, pos, fuel - 1) {
        Err(e) => Err(e),
        Ok((atom, p1)) => match maybe_binary(toks, atom, 0, p1, fuel - 1) {
            Err(e) => Err(e),
            Ok((result, p2)) => {
                if tok_punc(toks, p2, '(') {
                    parse_call(toks, result, p2, fuel - 1)
                } else {
                    Ok((result, p2))
                }
            },
        },
    }
}

fn parse_atom(toks: &Vec<Token>, pos: usize, fuel: u64) -> (r: Result<(AST, usize), Error>)
    requires
        pos <= toks@.len(),
    ensures
        parse_result_matches(sp_parse_atom(view_tokens(toks@), pos as int, fuel as nat), r),
        r matches Ok(q) ==> q.1 <= toks@.len(),
    decreases fuel, 3int,
{
    if fuel == 0 {
        return Err(Error::RecursionLimit);
    }
    // Pins the vector length as a machine integer for the bounds checks.
    let _tlen: usize = toks.len();
    let inner = if tok_punc(toks, pos, '(') {
        match parse_expression(toks, pos + 1, fuel - 1) {
            Err(e) => Err(e),
            Ok((e1, p1)) => {
                if tok_punc(toks, p1, ')') {
                    Ok((e1, p1 + 1))
                } else {
                    Err(Error::ExpectedPunctuation(')'))
                }
            },
        }
    } else if tok_punc(toks, pos, '{') {
        parse_program(toks, pos, fuel - 1)
    } else if tok_keyword(toks, pos, Keyword::If) {
        parse_if(toks, pos, fuel - 1)
    } else if tok_keyword(toks, pos, Keyword::True) || tok_keyword(toks, pos, Keyword::False) {
        parse_boolean(toks, pos)
    } else if tok_keyword(toks, pos, Keyword::Fn) {
        parse_function(toks, pos + 1, fuel - 1)
    } else if pos < toks.len() {
        match &toks[pos] {
            Token::Identifier(name) => Ok((AST::Variable(name.clone()), pos + 1)),
            Token::Number(n) => Ok((AST::Number(*n), pos + 1)),
            Token::String_(s) => Ok((AST::String_(s.clone()), pos + 1)),
            _ => Err(Error::UnexpectedToken),
        }
    } else {
        Err(Error::UnexpectedToken)
    };
    match inner {
        Err(e) => Err(e),
        Ok((a, p)) => {
            if tok_punc(toks, p, '(') {
                parse_call(toks, a, p, fuel - 1)
            } else {
                Ok((a, p))
            }
        },
    }
}

fn maybe_binary(toks: &Vec<Token>, left: AST, prec_left: u8, pos: usize, fuel: u64) -> (r: Result<
    (AST, usize),
    Error,
>)
    requires
        pos <= toks@.len(),
    ensures
        parse_result_matches(
            sp_maybe_binary(view_tokens(toks@), left@, prec_left as int, pos as int, fuel as nat),
            r,
        ),
        r matches Ok(q) ==> q.1 <= toks@.len(),
    decreases fuel, 3int,
{
    if fuel == 0 {
        return Err(Error::RecursionLimit);
    }
    if pos < toks.len() {
        let op = match &toks[pos] {
            Token::Operator(o) => o.clone(),
            _ => {
                return Ok((left, pos));
            },
        };
        match precedence(&op) {
            None => Err(Error::UnknownOperator),
            Some(prec_right) => {
                if prec_right > prec_left {
                    let is_assign = match classify_op(&op) {
                        OpKind::Assign => true,
                        _ => false,
                    };
                    let next_prec: u8 = if is_assign {
                        prec_right - 1
                    } else {
                        prec_right
                    };
                    match parse_atom(toks, pos + 1, fuel - 1) {
                        Err(e) => Err(e),
                        Ok((atom, p1)) => match maybe_binary(toks, atom, next_prec, p1, fuel
                            - 1) {
                            Err(e) => Err(e),
                            Ok((next_bin, p2)) => {
                                let node = if is_assign {
                                    AST::Assign {
                                        operator: op,
                                        left: Box::new(left),
                                        right: Box::new(next_bin),
                                    }
                                } else {
                                    AST::Binary {
                                        operator: op,
                                        left: Box::new(left),
                                        right: Box::new(next_bin),
                                    }
                                };
                                maybe_binary(toks, node, prec_left, p2, fuel - 1)
                            },
                        },
                    }
                } else {
                    Ok((left, pos))
                }
            },
        }
    } else {
        Ok((left, pos))
    }
}

fn parse_call(toks: &Vec<Token>, f: AST, pos: usize, fuel: u64) -> (r: Result<(AST, usize), Error>)
    requires
        pos <= toks@.len(),
    ensures
        parse_result_matches(sp_parse_call(view_tokens(toks@), f@, pos as int, fuel as nat), r),
        r matches Ok(q) ==> q.1 <= toks@.len(),
    decreases fuel, 2int,
{
    match delimited_expressions(toks, pos, '(', ')', ',', fuel) {
        Err(e) => Err(e),
        Ok((args, p)) => Ok((AST::Call { function: Box::new(f), arguments: args }, p)),
    }
}

fn parse_program(toks: &Vec<Token>, pos: usize, fuel: u64) -> (r: Result<(AST, usize), Error>)
    requires
        pos <= toks@.len(),
    ensures
        parse_result_matches(sp_parse_program(view_tokens(toks@), pos as int, fuel as nat), r),
        r matches Ok(q) ==> q.1 <= toks@.len(),
    decreases fuel, 2int,
{
    match delimited_expressions(toks, pos, '{', '}', ';', fuel) {
        Err(e) => Err(e),
        Ok((list, p)) => {
            proof {
                lemma_view_ast_seq(list@);
            }
            if list.len() == 0 {
                Ok((AST::Boolean(false), p))
            } else if list.len() == 1 {
                let mut l = list;
                let single = l.remove(0);
                Ok((single, p))
            } else {
                Ok((AST::Program(list), p))
            }
        },
    }
}

fn parse_boolean(toks: &Vec<Token>, pos: usize) -> (r: Result<(AST, usize), Error>)
    requires
        pos <= toks@.len(),
    ensures
        parse_result_matches(sp_parse_boolean(view_tokens(toks@), pos as int), r),
        r matches Ok(q) ==> q.1 <= toks@.len(),
{
    // Pins the vector length as a machine integer for the bounds checks.
    let _tlen: usize = toks.len();
    if tok_keyword(toks, pos, Keyword::True) {
        Ok((AST::Boolean(true), pos + 1))
    } else if tok_keyword(toks, pos, Keyword::False) {
        Ok((AST::Boolean(false), pos + 1))
    } else {
        Err(Error::UnexpectedToken)
    }
}

fn parse_if(toks: &Vec<Token>, pos: usize, fuel: u64) -> (r: Result<(AST, usize), Error>)
    requires
        pos <= toks@.len(),
    ensures
        parse_result_matches(sp_parse_if(view_tokens(toks@), pos as int, fuel as nat), r),
        r matches Ok(q) ==> q.1 <= toks@.len(),
    decreases fuel, 3int,
{
    if fuel == 0 {
        return Err(Error::RecursionLimit);
    }
    // Pins the vector length as a machine integer for the bounds checks.
    let _tlen: usize = toks.len();
    if !tok_keyword(toks, pos, Keyword::If) {
        return Err(Error::ExpectedKeyword(Keyword::If));
    }
    match parse_expression(toks, pos + 1, fuel - 1) {
        Err(e) => Err(e),
        Ok((cond, p1)) => {
            if !tok_keyword(toks, p1, Keyword::Then) {
                return Err(Error::ExpectedKeyword(Keyword::Then));
            }
            match parse_expression(toks, p1 + 1, fuel - 1) {
                Err(e) => Err(e),
                Ok((thenb, p2)) => {
                    if tok_keyword(toks, p2, Keyword::Else) {
                        match parse_expression(toks, p2 + 1, fuel - 1) {
                            Err(e) => Err(e),
                            Ok((elseb, p3)) => Ok(
                                (
                                    AST::If {
                                        condition: Box::new(cond),
                                        then_branch: Box::new(thenb),
                                        otherwise: Some(Box::new(elseb)),
                                    },
                                    p3,
                                ),
                            ),
                        }
                    } else {
                        Ok(
                            (
                                AST::If {
                                    condition: Box::new(cond),
                                    then_branch: Box::new(thenb),
                                    otherwise: None,
                                },
                                p2,
                            ),
                        )
                    }
                },
            }
        },
    }
}

fn parse_function(toks: &Vec<Token>, pos: usize, fuel: u64) -> (r: Result<(AST, usize), Error>)
    requires
        pos <= toks@.len(),
    ensures
        parse_result_matches(sp_parse_function(view_tokens(toks@), pos as int, fuel as nat), r),
        r matches Ok(q) ==> q.1 <= toks@.len(),
    decreases fuel, 3int,
{
    if fuel == 0 {
        return Err(Error::RecursionLimit);
    }
    match delimited_identifiers(toks, pos, '(', ')', ',', fuel - 1) {
        Err(e) => Err(e),
        Ok((params, p1)) => match parse_expression(toks, p1, fuel - 1) {
            Err(e) => Err(e),
            Ok((body, p2)) => Ok(
                (AST::Function { parameters: params, body: Box::new(body), native: None }, p2),
            ),
        },
    }
}

fn parse_variable(toks: &Vec<Token>, pos: usize) -> (r: Result<(String, usize), Error>)
    requires
        pos <= toks@.len(),
    ensures
        match sp_parse_variable(view_tokens(toks@), pos as int) {
            Ok(q) => r matches Ok(p) && p.0@ == q.0 && p.1 as int == q.1 && p.1 <= toks@.len(),
            Err(e) => r matches Err(err) && err@ == e,
        },
{
    if pos < toks.len() {
        match &toks[pos] {
            Token::Identifier(name) => Ok((name.clone(), pos + 1)),
            _ => Err(Error::ExpectedVariableName),
        }
    } else {
        Err(Error::ExpectedVariableName)
    }
}

fn delimited_expressions(
    toks: &Vec<Token>,
    pos: usize,
    start: char,
    end: char,
    sep: char,
    fuel: u64,
) -> (r: Result<(Vec<AST>, usize), Error>)
    requires
        pos <= toks@.len(),
    ensures
        exprs_result_matches(
            sp_delimited_expressions(view_tokens(toks@), pos as int, start, end, sep, fuel as nat),
            r,
        ),
        r matches Ok(q) ==> q.1 <= toks@.len(),
    decreases fuel, 1int,
{
    // Pins the vector length as a machine integer for the bounds checks.
    let _tlen: usize = toks.len();
    if !tok_punc(toks, pos, start) {
        return Err(Error::ExpectedPunctuation(start));
    }
    delim_expr_items(toks, pos + 1, end, sep, true, fuel)
}

fn delim_expr_items(
    toks: &Vec<Token>,
    pos: usize,
    end: char,
    sep: char,
    first: bool,
    fuel: u64,
) -> (r: Result<(Vec<AST>, usize), Error>)
    requires
        pos <= toks@.len(),
    ensures
        exprs_result_matches(
            sp_delim_expr_items(view_tokens(toks@), pos as int, end, sep, first, fuel as nat),
            r,
        ),
        r matches Ok(q) ==> q.1 <= toks@.len(),
    decreases fuel, 0int,
{
    if fuel == 0 {
        return Err(Error::RecursionLimit);
    }
    if pos >= toks.len() {
        return Err(Error::ExpectedPunctuation(end));
    }
    if tok_punc(toks, pos, end) {
        proof {
            assert(view_ast_seq(Seq::<AST>::empty()) =~= Seq::<SpecAST>::empty());
        }
        return Ok((Vec::new(), pos + 1));
    }
    if first {
        match parse_expression(toks, pos, fuel - 1) {
            Err(e) => Err(e),
            Ok((a, p)) => match delim_expr_items(toks, p, end, sep, false, fuel - 1) {
                Err(e) => Err(e),
                Ok((rest, p2)) => Ok((prepend_ast(a, rest), p2)),
            },
        }
    } else if tok_punc(toks, pos, sep) {
        if tok_punc(toks, pos + 1, end) {
            proof {
                assert(view_ast_seq(Seq::<AST>::empty()) =~= Seq::<SpecAST>::empty());
            }
            Ok((Vec::new(), pos + 2))
        } else {
            match parse_expression(toks, pos + 1, fuel - 1) {
                Err(e) => Err(e),
                Ok((a, p)) => match delim_expr_items(toks, p, end, sep, false, fuel - 1) {
                    Err(e) => Err(e),
                    Ok((rest, p2)) => Ok((prepend_ast(a, rest), p2)),
                },
            }
        }
    } else {
        Err(Error::ExpectedPunctuation(sep))
    }
}

fn delimited_identifiers(
    toks: &Vec<Token>,
    pos: usize,
    start: char,
    end: char,
    sep: char,
    fuel: u64,
) -> (r: Result<(Vec<String>, usize), Error>)
    requires
        pos <= toks@.len(),
    ensures
        names_result_matches(
            sp_delimited_identifiers(view_tokens(toks@), pos as int, start, end, sep, fuel as nat),
            r,
        ),
        r matches Ok(q) ==> q.1 <= toks@.len(),
    decreases fuel, 1int,
{
    // Pins the vector length as a machine integer for the bounds checks.
    let _tlen: usize = toks.len();
    if !tok_punc(toks, pos, start) {
        return Err(Error::ExpectedPunctuation(start));
    }
    delim_name_items(toks, pos + 1, end, sep, true, fuel)
}

fn delim_name_items(
    toks: &Vec<Token>,
    pos: usize,
    end: char,
    sep: char,
    first: bool,
    fuel: u64,
) -> (r: Result<(Vec<String>, usize), Error>)
    requires
        pos <= toks@.len(),
    ensures
        names_result_matches(
            sp_delim_name_items(view_tokens(toks@), pos as int, end, sep, first, fuel as nat),
            r,
        ),
        r matches Ok(q) ==> q.1 <= toks@.len(),
    decreases fuel, 0int,
{
    if fuel == 0 {
        return Err(Error::RecursionLimit);
    }
    if pos >= toks.len() {
        return Err(Error::ExpectedPunctuation(end));
    }
    if tok_punc(toks, pos, end) {
        proof {
            assert(view_names(Seq::<String>::empty()) =~= Seq::<Seq<char>>::empty());
        }
        return Ok((Vec::new(), pos + 1));
    }
    if first {
        match parse_variable(toks, pos) {
            Err(e) => Err(e),
            Ok((n, p)) => match delim_name_items(toks, p, end, sep, false, fuel - 1) {
                Err(e) => Err(e),
                Ok((rest, p2)) => Ok((prepend_name(n, rest), p2)),
            },
        }
    } else if tok_punc(toks, pos, sep) {
        if tok_punc(toks, pos + 1, end) {
            proof {
                assert(view_names(Seq::<String>::empty()) =~= Seq::<Seq<char>>::empty());
            }
            Ok((Vec::new(), pos + 2))
        } else {
            match parse_variable(toks, pos + 1) {
                Err(e) => Err(e),
                Ok((n, p)) => match delim_name_items(toks, p, end, sep, false, fuel - 1) {
                    Err(e) => Err(e),
                    Ok((rest, p2)) => Ok((prepend_name(n, rest), p2)),
                },
            }
        }
    } else {
        Err(Error::ExpectedPunctuation(sep))
    }
}

fn parse_stmts_top(toks: &Vec<Token>, pos: usize, fuel: u64) -> (r: Result<
    (Vec<AST>, usize),
    Error,
>)
    requires
        pos <= toks@.len(),
    ensures
        exprs_result_matches(sp_parse_stmts_top(view_tokens(toks@), pos as int, fuel as nat), r),
    decreases fuel, 3int,
{
    if fuel == 0 {
        return Err(Error::RecursionLimit);
    }
    if pos >= toks.len() {
        proof {
            assert(view_ast_seq(Seq::<AST>::empty()) =~= Seq::<SpecAST>::empty());
        }
        return Ok((Vec::new(), pos));
    }
    match parse_expression(toks, pos, fuel - 1) {
        Err(e) => Err(e),
        Ok((a, p1)) => {
            if p1 >= toks.len() {
                let ghost av = a@;
                let mut out: Vec<AST> = Vec::new();
                out.push(a);
                proof {
                    lemma_view_ast_seq(out@);
                    assert(view_ast_seq(out@) =~= seq![av]);
                }
                Ok((out, p1))
            } else if tok_punc(toks, p1, ';') {
                match parse_stmts_top(toks, p1 + 1, fuel - 1) {
                    Err(e) => Err(e),
                    Ok((rest, p2)) => Ok((prepend_ast(a, rest), p2)),
                }
            } else {
                Err(Error::ExpectedPunctuation(';'))
            }
        },
    }
}

/// The recursive-descent parser: it consumes a token stream and builds the
/// whole program's syntax tree.
pub struct Parser {
    pub token_stream: TokenStream,
}

impl Parser {
    /// Wraps a token stream.
    pub fn new(token_stream: TokenStream) -> (r: Parser)
        ensures
            r.token_stream == token_stream,
    {
        Parser { token_stream }
    }

    /// Parses the whole remaining input as a program: expressions separated
    /// by `;` (the final one may omit it), wrapped in a `Program` node —
    /// exactly what the specification parser says of the source text, fatal
    /// lexical and parse errors included.
    #[verifier::loop_isolation(false)]
    pub fn parse(&mut self) -> (r: Result<AST, Error>)
        requires
            old(self).token_stream.wf(),
        ensures
            match sp_parse_source(old(self).token_stream.src(), old(self).token_stream.mark()) {
                Ok(a) => r matches Ok(ast) && ast@ == a,
                Err(e) => r matches Err(err) && err@ == e,
            },
    {
        let ghost src = self.token_stream.src();
        let ghost mark0 = self.token_stream.mark();
        let mut toks: Vec<Token> = Vec::new();
        proof {
            assert(view_tokens(toks@) =~= Seq::<SpecToken>::empty());
        }
        let mut done = false;
        while !done
            invariant
                self.token_stream.wf(),
                self.token_stream.src() == src,
                0 <= self.token_stream.mark() <= src.len(),
                toks@.len() <= self.token_stream.mark(),
                sp_tokens(src, mark0) == (match sp_tokens(src, self.token_stream.mark()) {
                    SpecTokens::Toks(rest) => SpecTokens::Toks(view_tokens(toks@) + rest),
                    SpecTokens::Fail(e) => SpecTokens::Fail(e),
                }),
                done ==> sp_tokens(src, mark0) == SpecTokens::Toks(view_tokens(toks@)),
            decreases src.len() - self.token_stream.mark() + (if done {
                0int
            } else {
                1int
            }),
        {
            let ghost mark_before = self.token_stream.mark();
            proof {
                lemma_next_token_advances(src, mark_before);
            }
            match self.token_stream.next() {
                Err(e) => {
                    return Err(e);
                },
                Ok(None) => {
                    proof {
                        assert(view_tokens(toks@) + Seq::<SpecToken>::empty() =~= view_tokens(
                            toks@,
                        ));
                    }
                    done = true;
                },
                Ok(Some(t)) => {
                    let ghost tv = t@;
                    let ghost old_toks = toks@;
                    toks.push(t);
                    proof {
                        assert(view_tokens(toks@) =~= view_tokens(old_toks).push(tv));
                        match sp_tokens(src, self.token_stream.mark()) {
                            SpecTokens::Toks(rest) => {
                                assert(view_tokens(old_toks) + (seq![tv] + rest) =~= view_tokens(
                                    toks@,
                                ) + rest);
                            },
                            SpecTokens::Fail(e) => {},
                        }
                    }
                },
            }
        }
        let n = toks.len();
        proof {
            assert(toks@.len() <= MAX_SOURCE_LEN);
        }
        let fuel: u64 = 16 * (n as u64) + 64;
        match parse_stmts_top(&toks, 0, fuel) {
            Err(e) => Err(e),
            Ok((list, _)) => Ok(AST::Program(list)),
        }
    }
}

/// Lexes and parses a whole source text as a program, exactly as the
/// specification lexer and parser say. The length bound is the character
/// cursor's machine limit.
pub fn parse_source(input: &str) -> (r: Result<AST, Error>)
    requires
        input@.len() <= MAX_SOURCE_LEN,
    ensures
        match sp_parse_source(input@, 0) {
            Ok(a) => r matches Ok(ast) && ast@ == a,
            Err(e) => r matches Err(err) && err@ == e,
        },
{
    let stream = InputStream::new(input);
    let lexer = TokenStream::new(stream);
    let mut parser = Parser::new(lexer);
    parser.parse()
}

} // verus!
