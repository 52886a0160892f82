use minilang::ast::AST;
use minilang::environment::Environment;
use minilang::errors::Error;
use minilang::evaluate::{evaluate, NativeHost, NoNatives};
use minilang::input_stream::InputStream;
use minilang::lexer::{get_keyword, is_identifier, is_identifier_start, is_operator, is_punctuation, Keyword, Token, TokenStream};
use minilang::parser::{parse_source, precedence, Parser};

const FUEL: u64 = 100_000;

/// Parses `src` and evaluates its statements in order in one fresh
/// environment, returning the last statement's result.
fn run_last(src: &str) -> Result<Option<AST>, Error> {
    let ast = parse_source(src)?;
    let mut env = Environment::new();
    let mut host = NoNatives;
    match ast {
        AST::Program(stmts) => {
            let mut last: Result<Option<AST>, Error> = Ok(None);
            for stmt in &stmts {
                last = evaluate(stmt, &mut env, &mut host, FUEL);
                if last.is_err() {
                    return last;
                }
            }
            last
        }
        _ => panic!("parse_source always yields a Program"),
    }
}

fn expect_number(src: &str, expected: i64) {
    match run_last(src) {
        Ok(Some(AST::Number(n))) => assert_eq!(n, expected, "program: {}", src),
        other => panic!("expected Number({}), got {:?} for {}", expected, other, src),
    }
}

fn expect_string(src: &str, expected: &str) {
    match run_last(src) {
        Ok(Some(AST::String_(s))) => assert_eq!(s, expected, "program: {}", src),
        other => panic!("expected String({}), got {:?} for {}", expected, other, src),
    }
}

fn expect_boolean(src: &str, expected: bool) {
    match run_last(src) {
        Ok(Some(AST::Boolean(b))) => assert_eq!(b, expected, "program: {}", src),
        other => panic!("expected Boolean({}), got {:?} for {}", expected, other, src),
    }
}

fn expect_error(src: &str, expected: Error) {
    match run_last(src) {
        Err(e) => assert_eq!(e, expected, "program: {}", src),
        other => panic!("expected {:?}, got {:?} for {}", expected, other, src),
    }
}

#[test]
fn lexes_precedence_example() {
    let stream = InputStream::new("2 + 3 * 4");
    let mut lexer = TokenStream::new(stream);
    assert!(matches!(lexer.next(), Ok(Some(Token::Number(2)))));
    match lexer.next() {
        Ok(Some(Token::Operator(op))) => assert_eq!(op, "+"),
        other => panic!("expected +, got {:?}", other),
    }
    assert!(matches!(lexer.next(), Ok(Some(Token::Number(3)))));
    match lexer.next() {
        Ok(Some(Token::Operator(op))) => assert_eq!(op, "*"),
        other => panic!("expected *, got {:?}", other),
    }
    assert!(matches!(lexer.next(), Ok(Some(Token::Number(4)))));
    assert!(matches!(lexer.next(), Ok(None)));
}

#[test]
fn lexer_peek_is_idempotent() {
    let stream = InputStream::new("hello 5");
    let mut lexer = TokenStream::new(stream);
    assert!(matches!(lexer.peek(), Ok(Some(Token::Identifier(_)))));
    assert!(matches!(lexer.peek(), Ok(Some(Token::Identifier(_)))));
    assert!(matches!(lexer.eof(), Ok(false)));
    assert!(matches!(lexer.next(), Ok(Some(Token::Identifier(_)))));
    assert!(matches!(lexer.next(), Ok(Some(Token::Number(5)))));
    assert!(matches!(lexer.eof(), Ok(true)));
}

#[test]
fn multiplication_binds_tighter_than_addition() {
    expect_number("2 + 3 * 4", 14);
}

#[test]
fn fib_ten_is_55() {
    expect_number(
        "fib = fn(n) if n < 2 then n else fib(n-1)+fib(n-2); fib(10)",
        55,
    );
}

#[test]
fn string_repetition() {
    expect_string("\"ab\" * 3", "ababab");
}

#[test]
fn string_concatenation() {
    expect_string("\"a\" + \"b\"", "ab");
}

#[test]
fn adding_number_and_string_is_fatal() {
    expect_error("1 + \"a\"", Error::TypeMismatch);
}

#[test]
fn if_without_else_yields_false() {
    expect_boolean("if false then 1", false);
}

#[test]
fn assignment_in_transient_scope_shadows_without_leaking() {
    // An `if` branch runs in a fresh child scope: assigning there shadows
    // the outer binding locally and never leaks upward.
    expect_number("x = 1; if true then x = 2; x", 1);
    // The right side of an assignment is a transient scope too.
    expect_error(
        "y = (z = 2); z",
        Error::UndefinedVariable("z".to_string()),
    );
}

#[test]
fn blocks_do_not_open_scopes() {
    // A block is not a scope: a one-statement block collapses to the
    // statement at parse time, and a longer block's statements run directly
    // in the enclosing scope, so the assignment lands in the outer frame.
    expect_number("x = 1; { x = 2 }; x", 2);
    expect_number("x = 1; { x = 3; 0 }; x", 3);
}

#[test]
fn missing_argument_binds_false() {
    expect_boolean("f = fn(a, b) b; f(1)", false);
}

#[test]
fn extra_arguments_are_ignored() {
    expect_number("g = fn(a) a; g(1, 2)", 1);
}

#[test]
fn undefined_variable_aborts() {
    expect_error("y", Error::UndefinedVariable("y".to_string()));
}

#[test]
fn unicode_identifiers_and_whitespace() {
    // Identifier characters follow Unicode `is_alphabetic`/`is_alphanumeric`
    // and whitespace follows Unicode `is_whitespace`, as in `char`'s own
    // classes: accented letters, Greek letters and a no-break space all lex.
    expect_number("caf\u{e9} = 1; caf\u{e9}", 1);
    expect_number("\u{3bb} = 2;\u{a0}\u{3bb}", 2);
    expect_number("x1 = 4; x1", 4);
}

#[test]
fn comments_are_skipped() {
    expect_number("# a comment\n# another\n 7", 7);
}

#[test]
fn string_escapes_are_copied_verbatim() {
    // A backslash makes the next character literal: `\n` is the letter n,
    // `\"` a literal quote; nothing is interpreted.
    expect_string("\"x\\ny\"", "xny");
    expect_string("\"a\\\"b\"", "a\"b");
}

#[test]
fn unterminated_string_runs_to_end_of_input() {
    expect_string("\"abc", "abc");
}

#[test]
fn fractional_digits_are_consumed_but_dropped() {
    expect_number("1.5", 1);
    expect_number("12. + 1", 13);
}

#[test]
fn second_dot_ends_the_number() {
    match run_last("1.2.3") {
        Err(Error::UnexpectedChar { c, line, col }) => {
            assert_eq!(c, '.');
            assert_eq!(line, 1);
            assert_eq!(col, 3);
        }
        other => panic!("expected unexpected-char error, got {:?}", other),
    }
}

#[test]
fn number_too_large_is_fatal() {
    assert!(matches!(
        run_last("99999999999999999999"),
        Err(Error::NumberTooLarge { .. })
    ));
    expect_number("9223372036854775807", i64::MAX);
}

#[test]
fn division_truncates_toward_zero() {
    expect_number("7 / 2", 3);
    expect_number("(0 - 7) / 2", -3);
    expect_number("7 % 3", 1);
    expect_number("(0 - 7) % 3", -1);
}

#[test]
fn division_by_zero_is_fatal() {
    expect_error("1 / 0", Error::DivisionByZero);
    expect_error("1 % 0", Error::DivisionByZero);
}

#[test]
fn arithmetic_overflow_is_fatal() {
    expect_error("9223372036854775807 + 1", Error::Overflow);
}

#[test]
fn negative_repetition_is_fatal() {
    expect_error("\"a\" * (0 - 1)", Error::NegativeRepeat);
}

#[test]
fn structural_equality() {
    expect_boolean("1 == 1", true);
    expect_boolean("1 == \"a\"", false);
    expect_boolean("\"a\" == \"a\"", true);
    expect_boolean("(fn(x) x) == (fn(x) x)", true);
    expect_boolean("(fn(x) x) == (fn(y) x)", false);
}

#[test]
fn boolean_operators() {
    expect_boolean("true || false", true);
    expect_boolean("false || false", false);
    expect_boolean("true && false", false);
    expect_boolean("true && true", true);
    expect_boolean("false && 1", false);
    expect_boolean("true || 1", true);
    expect_error("1 && true", Error::TypeMismatch);
}

#[test]
fn comparisons() {
    expect_boolean("1 < 2", true);
    expect_boolean("2 <= 2", true);
    expect_boolean("1 > 2", false);
    expect_boolean("2 >= 3", false);
    expect_error("\"a\" < \"b\"", Error::TypeMismatch);
}

#[test]
fn not_equal_reaches_no_evaluation_rule() {
    expect_error("1 != 2", Error::UnknownOperator);
}

#[test]
fn assignment_to_non_variable_is_fatal() {
    expect_error("1 = 2", Error::AssignToNonVariable);
}

#[test]
fn assignment_chain_nests_to_the_right() {
    // `a = b = 2` parses as `a = (b = 2)`. The inner assignment runs in the
    // transient scope of the outer one's right side, so its binding of `b`
    // is discarded; and it produces no value, so `a` is never bound either.
    expect_error("a = b = 2; b", Error::UndefinedVariable("b".to_string()));
    expect_error("a = b = 2; a", Error::UndefinedVariable("a".to_string()));
}

#[test]
fn calling_a_non_function_is_fatal() {
    expect_error("x = 1; x(2)", Error::NotAFunction);
    expect_error("f = fn(a) fn(b) a; f(1)(2)", Error::NotAFunction);
}

#[test]
fn non_boolean_condition_is_fatal() {
    expect_error("if 1 then 2", Error::ConditionNotBoolean);
}

#[test]
fn parse_errors() {
    assert!(matches!(run_last("(1"), Err(Error::ExpectedPunctuation(')'))));
    assert!(matches!(run_last("1 2"), Err(Error::ExpectedPunctuation(';'))));
    assert!(matches!(
        run_last("if 1 2"),
        Err(Error::ExpectedKeyword(Keyword::Then))
    ));
    assert!(matches!(run_last("fn(1) x"), Err(Error::ExpectedVariableName)));
    assert!(matches!(run_last("+"), Err(Error::UnexpectedToken)));
}

#[test]
fn unexpected_character_reports_position() {
    match run_last("\n @") {
        Err(Error::UnexpectedChar { c, line, col }) => {
            assert_eq!(c, '@');
            assert_eq!(line, 2);
            assert_eq!(col, 1);
        }
        other => panic!("expected unexpected-char error, got {:?}", other),
    }
}

#[test]
fn blocks_collapse() {
    assert!(matches!(run_last("{}"), Ok(Some(AST::Boolean(false)))));
    expect_number("{ 2 }", 2);
    // A multi-statement block is a Program, which produces no value.
    assert!(matches!(run_last("{ 1; 2 }"), Ok(None)));
}

#[test]
fn variable_resolution_walks_the_calling_scope() {
    // Functions capture no environment: free names resolve through the
    // caller's scopes at call time.
    expect_number("f = fn() x; g = fn(x) f(); g(5)", 5);
}

#[test]
fn environment_def_get_and_dump() {
    let mut env = Environment::new();
    assert!(env.get(&"x".to_string()).is_none());
    env.def(&"x".to_string(), AST::Number(1));
    assert!(matches!(env.get(&"x".to_string()), Some(AST::Number(1))));
    env.def(&"x".to_string(), AST::Number(2));
    assert!(matches!(env.get(&"x".to_string()), Some(AST::Number(2))));
    env.push_scope();
    env.def(&"y".to_string(), AST::Boolean(true));
    let pairs = env.dump();
    assert_eq!(pairs[0].0, "y");
    env.pop_scope();
    assert!(env.get(&"y".to_string()).is_none());
}

#[test]
fn input_stream_tracks_lines_and_columns() {
    let mut stream = InputStream::new("ab\nc");
    assert_eq!(stream.peek(), 'a');
    assert_eq!(stream.next(), 'a');
    assert_eq!(stream.next(), 'b');
    assert_eq!(stream.next(), '\n');
    assert_eq!(stream.next(), 'c');
    assert!(stream.eof());
    assert_eq!(stream.next(), '\0');
}

#[test]
fn keyword_and_character_classes() {
    assert_eq!(get_keyword(&"if".to_string()), Some(Keyword::If));
    assert_eq!(get_keyword(&"else".to_string()), Some(Keyword::Else));
    assert_eq!(get_keyword(&"fn".to_string()), Some(Keyword::Fn));
    assert_eq!(get_keyword(&"iff".to_string()), None);
    assert!(is_operator('+') && is_operator('!'));
    assert!(!is_operator('a'));
    assert!(is_punctuation(';') && is_punctuation('['));
    assert!(!is_punctuation('+'));
    assert!(is_identifier_start('_') && is_identifier_start('z'));
    assert!(!is_identifier_start('1'));
    assert!(is_identifier('1') && is_identifier('A'));
    assert!(!is_identifier('-'));
}

#[test]
fn precedence_table() {
    assert_eq!(precedence(&"=".to_string()), Some(1));
    assert_eq!(precedence(&"||".to_string()), Some(2));
    assert_eq!(precedence(&"&&".to_string()), Some(3));
    assert_eq!(precedence(&"<=".to_string()), Some(7));
    assert_eq!(precedence(&"+".to_string()), Some(10));
    assert_eq!(precedence(&"%".to_string()), Some(20));
    assert_eq!(precedence(&"|".to_string()), None);
}

#[test]
fn parser_type_is_usable_directly() {
    let stream = InputStream::new("1 + 2");
    let lexer = TokenStream::new(stream);
    let mut parser = Parser::new(lexer);
    match parser.parse() {
        Ok(AST::Program(stmts)) => assert_eq!(stmts.len(), 1),
        other => panic!("expected a one-statement program, got {:?}", other),
    }
}

struct RecordingHost {
    seen: Vec<AST>,
}

impl NativeHost for RecordingHost {
    fn call(&mut self, name: &String, mut args: Vec<AST>) -> Result<AST, Error> {
        assert_eq!(name, "emit");
        self.seen.append(&mut args);
        Ok(AST::Boolean(true))
    }
}

#[test]
fn native_functions_receive_evaluated_arguments() {
    let ast = parse_source("emit(2 + 3, \"hi\")").expect("parses");
    let mut env = Environment::new();
    env.def(
        &"emit".to_string(),
        AST::Function {
            parameters: vec!["value".to_string()],
            body: Box::new(AST::Boolean(true)),
            native: Some("emit".to_string()),
        },
    );
    let mut host = RecordingHost { seen: Vec::new() };
    let stmts = match ast {
        AST::Program(stmts) => stmts,
        other => panic!("expected program, got {:?}", other),
    };
    let r = evaluate(&stmts[0], &mut env, &mut host, FUEL);
    assert!(matches!(r, Ok(Some(AST::Boolean(true)))));
    assert_eq!(host.seen.len(), 2);
    assert!(matches!(host.seen[0], AST::Number(5)));
    match &host.seen[1] {
        AST::String_(s) => assert_eq!(s, "hi"),
        other => panic!("expected string argument, got {:?}", other),
    }
}

#[test]
fn native_arguments_skip_valueless_expressions() {
    // An argument that produces no value (an assignment) is evaluated for
    // its effect in the calling scope but handed to the host as nothing.
    let ast = parse_source("emit(1, x = 2, 3, x)").expect("parses");
    let mut env = Environment::new();
    env.def(
        &"emit".to_string(),
        AST::Function {
            parameters: vec!["value".to_string()],
            body: Box::new(AST::Boolean(true)),
            native: Some("emit".to_string()),
        },
    );
    let mut host = RecordingHost { seen: Vec::new() };
    let stmts = match ast {
        AST::Program(stmts) => stmts,
        other => panic!("expected program, got {:?}", other),
    };
    let r = evaluate(&stmts[0], &mut env, &mut host, FUEL);
    assert!(matches!(r, Ok(Some(AST::Boolean(true)))));
    assert_eq!(host.seen.len(), 3);
    assert!(matches!(host.seen[0], AST::Number(1)));
    assert!(matches!(host.seen[1], AST::Number(3)));
    assert!(matches!(host.seen[2], AST::Number(2)));
}

#[test]
fn duplicate_preserves_structure() {
    let ast = parse_source("fib = fn(n) if n < 2 then n else fib(n-1); fib(3)").expect("parses");
    let copy = ast.duplicate();
    assert!(minilang::ast::ast_equals(&ast, &copy));
}

#[test]
fn fuel_exhaustion_reports_recursion_limit() {
    let ast = parse_source("loop_ = fn() loop_(); loop_()").expect("parses");
    let mut env = Environment::new();
    let mut host = NoNatives;
    let stmts = match ast {
        AST::Program(stmts) => stmts,
        other => panic!("expected program, got {:?}", other),
    };
    assert!(matches!(
        evaluate(&stmts[0], &mut env, &mut host, 1000),
        Ok(None)
    ));
    assert!(matches!(
        evaluate(&stmts[1], &mut env, &mut host, 1000),
        Err(Error::RecursionLimit)
    ));
}
