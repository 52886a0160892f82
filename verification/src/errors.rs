use vstd::prelude::*;
use crate::lexer::Keyword;

verus! {

/// Mathematical mirror of [`Error`]: the same variants, with `int` positions
/// and character sequences instead of machine integers and `String`s.
/// The specification lexer, parser and evaluator produce these.
pub ghost enum SpecError {
    UnexpectedChar { c: char, line: int, col: int },
    NumberTooLarge { line: int, col: int },
    UnexpectedToken,
    ExpectedPunctuation(char),
    ExpectedKeyword(Keyword),
    ExpectedVariableName,
    UnknownOperator,
    RecursionLimit,
    UndefinedVariable(Seq<char>),
    AssignToNonVariable,
    NotAFunction,
    MissingOperandValue,
    ConditionNotBoolean,
    TypeMismatch,
    DivisionByZero,
    Overflow,
    NegativeRepeat,
    HostFailure,
}

/// Why a run was aborted. Every error is fatal: the interpreter offers no
/// recovery construct, it hands the error to the host and stops.
///
/// Lexical errors carry the source position (1-based line, 0-based column of
/// characters consumed on that line) at which they were detected.
#[derive(Debug, Clone, PartialEq)]
pub enum Error {
    /// A character that starts no token class.
    UnexpectedChar { c: char, line: u64, col: u64 },
    /// A numeric literal whose integer part does not fit the number type.
    NumberTooLarge { line: u64, col: u64 },
    /// A token that no grammar rule accepts at this point (or missing input).
    UnexpectedToken,
    /// A required punctuation character was not the next token.
    ExpectedPunctuation(char),
    /// A required keyword was not the next token.
    ExpectedKeyword(Keyword),
    /// A parameter list held something other than an identifier.
    ExpectedVariableName,
    /// An operator token that has no precedence entry.
    UnknownOperator,
    /// The nesting or call budget was exhausted.
    RecursionLimit,
    /// A variable was referenced but bound in no reachable scope.
    UndefinedVariable(String),
    /// The left side of `=` was not a variable.
    AssignToNonVariable,
    /// A call whose target is not a variable bound to a function value.
    NotAFunction,
    /// A binary operand evaluated to no value at all.
    MissingOperandValue,
    /// The condition of an `if` evaluated to a non-boolean.
    ConditionNotBoolean,
    /// Operand kinds that the operator does not accept.
    TypeMismatch,
    /// Division or remainder by zero.
    DivisionByZero,
    /// Arithmetic outside the number type, or a repetition too large to hold.
    Overflow,
    /// String repetition with a negative count.
    NegativeRepeat,
    /// A native (host-supplied) function reported failure.
    HostFailure,
}

impl View for Error {
    type V = SpecError;

    open spec fn view(&self) -> SpecError {
        match self {
            Error::UnexpectedChar { c, line, col } => SpecError::UnexpectedChar {
                c: *c,
                line: *line as int,
                col: *col as int,
            },
            Error::NumberTooLarge { line, col } => SpecError::NumberTooLarge {
                line: *line as int,
                col: *col as int,
            },
            Error::UnexpectedToken => SpecError::UnexpectedToken,
            Error::ExpectedPunctuation(p) => SpecError::ExpectedPunctuation(*p),
            Error::ExpectedKeyword(k) => SpecError::ExpectedKeyword(*k),
            Error::ExpectedVariableName => SpecError::ExpectedVariableName,
            Error::UnknownOperator => SpecError::UnknownOperator,
            Error::RecursionLimit => SpecError::RecursionLimit,
            Error::UndefinedVariable(name) => SpecError::UndefinedVariable(name@),
            Error::AssignToNonVariable => SpecError::AssignToNonVariable,
            Error::NotAFunction => SpecError::NotAFunction,
            Error::MissingOperandValue => SpecError::MissingOperandValue,
            Error::ConditionNotBoolean => SpecError::ConditionNotBoolean,
            Error::TypeMismatch => SpecError::TypeMismatch,
            Error::DivisionByZero => SpecError::DivisionByZero,
            Error::Overflow => SpecError::Overflow,
            Error::NegativeRepeat => SpecError::NegativeRepeat,
            Error::HostFailure => SpecError::HostFailure,
        }
    }
}

} // verus!
