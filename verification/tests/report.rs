use laria::ast::BinaryOp;
use laria::eval::error::Context;
use laria::eval::error::Error;
use laria::eval::value::Value;
use laria::lexer::LexError;
use laria::lexer::Token;
use laria::report::join_strings;
use laria::report::render_eval_error;
use laria::report::render_lex_error;
use laria::report::render_parse_error;
use laria::report::render_parse_report;
use laria::report::render_token_as_char;
use laria::report::ParseError;

fn at(source: Error, line: usize, col: usize) -> Error {
    Error::AtLoc { source: Box::new(source), line, col }
}

fn within(context: Context, source: Error) -> Error {
    Error::Context { context, source: Box::new(source) }
}

#[test]
fn joins_strings_as_a_choice() {
    let xs = |n: usize| -> Vec<String> {
        ["a", "b", "c", "d"].iter().take(n).map(|s| s.to_string()).collect()
    };
    assert_eq!(join_strings(&xs(0)), "");
    assert_eq!(join_strings(&xs(1)), "a");
    assert_eq!(join_strings(&xs(2)), "a or b");
    assert_eq!(join_strings(&xs(3)), "a, b or c");
    assert_eq!(join_strings(&xs(4)), "a, b, c or d");
}

#[test]
fn shows_tokens() {
    assert_eq!(render_token_as_char(Token::Ident("x".to_string())), "`x`");
    assert_eq!(render_token_as_char(Token::IntLiteral(-12)), "-12");
    assert_eq!(render_token_as_char(Token::StrLiteral("s".to_string())), "\"s\"");
    assert_eq!(
        render_token_as_char(Token::InterpStrLiteral("a${b}".to_string(), vec![(1, 5)])),
        "$\"a${b}\"",
    );
    assert_eq!(render_token_as_char(Token::False), "`false`");
    assert_eq!(render_token_as_char(Token::While), "`while`");
    assert_eq!(render_token_as_char(Token::Bang), "!");
    assert_eq!(render_token_as_char(Token::BraceOpen), "{");
    assert_eq!(render_token_as_char(Token::ColonEquals), ":=");
    assert_eq!(render_token_as_char(Token::DashGreaterThan), "->");
    assert_eq!(render_token_as_char(Token::PipePipe), "||");
}

#[test]
fn reports_parse_errors() {
    assert_eq!(
        render_parse_error(ParseError::InvalidToken { location: (1, 2) }),
        ((1, 2), "invalid token".to_string()),
    );
    assert_eq!(
        render_parse_error(ParseError::UnrecognizedEOF {
            location: (3, 4),
            expected: vec!["\";\"".to_string(), "\")\"".to_string()],
        }),
        ((3, 4), "unexpected EOF; expected \";\" or \")\"".to_string()),
    );
    assert_eq!(
        render_parse_error(ParseError::UnrecognizedToken {
            token: ((5, 6), Token::Comma, (5, 6)),
            expected: vec!["a".to_string(), "b".to_string(), "c".to_string()],
        }),
        ((5, 6), "unexpected ','; expected a, b or c".to_string()),
    );
    assert_eq!(
        render_parse_error(ParseError::ExtraToken {
            token: ((7, 8), Token::Ident("x".to_string()), (7, 8)),
        }),
        ((7, 8), "encountered extra token '`x`'".to_string()),
    );
    assert_eq!(
        render_parse_error(ParseError::User { error: LexError::Unexpected((9, 1), '@') }),
        ((9, 1), "unexpected '@'".to_string()),
    );
    assert_eq!(
        render_parse_report(ParseError::InvalidToken { location: (10, 20) }),
        "10:20: invalid token",
    );
}

#[test]
fn reports_lex_errors() {
    assert_eq!(
        render_lex_error(LexError::IntTooHigh((1, 1), "99".to_string())),
        ((1, 1), "integer '99' is too high".to_string()),
    );
    assert_eq!(
        render_lex_error(LexError::IntTooLow((1, 1), "99".to_string())),
        ((1, 1), "integer '99' is too low".to_string()),
    );
    assert_eq!(
        render_lex_error(LexError::UnescapedDollar((2, 3))),
        ((2, 3), "unescaped '$' in string".to_string()),
    );
    assert_eq!(
        render_lex_error(LexError::InvalidInterpolationStart((2, 3), 'x')),
        ((2, 3), "expected '{' after '$', found 'x'".to_string()),
    );
    assert_eq!(
        render_lex_error(LexError::InvalidEscapeChar((2, 3), 'q')),
        ((2, 3), "invalid escape character 'q'".to_string()),
    );
    assert_eq!(
        render_lex_error(LexError::InvalidHexChar((2, 3), 'g')),
        ((2, 3), "invalid hexadecimal character 'g'".to_string()),
    );
}

#[test]
fn reports_an_error_at_its_innermost_place() {
    let e = within(
        Context::EvalStmtsFailed,
        at(
            within(
                Context::InterpolateStringEvalExprFailed,
                at(Error::Undefined { name: "x".to_string() }, 3, 14),
            ),
            3,
            9,
        ),
    );
    assert_eq!(e.place(), Some((3, 14)));
    assert_eq!(e.message(), "'x' is not defined");
    assert_eq!(render_eval_error(e), "3:14: 'x' is not defined");
}

#[test]
fn reports_an_error_of_a_native_function_at_the_call() {
    let e = within(
        Context::EvalCallFailed,
        Error::EvalBuiltinFuncCallFailed {
            source: Box::new(within(
                Context::AssertArgsFailed,
                Error::BuiltinFuncErr { msg: "`print` only takes 1 argument (got 2)".to_string() },
            )),
            func_name: Some("print".to_string()),
            call_loc: (12, 1),
        },
    );
    assert_eq!(render_eval_error(e), "12:1: `print` only takes 1 argument (got 2)");
}

#[test]
fn reports_an_error_without_a_place_by_its_message() {
    assert_eq!(
        render_eval_error(within(Context::EvalStmtFailed, Error::StepLimitReached)),
        "the step limit was reached",
    );
}

#[test]
fn messages_of_errors() {
    let cases: Vec<(Error, &str)> = vec![
        (Error::CannotCallNonFunc { v: Value::Int(1) }, "can't call 'int' as a function"),
        (Error::Undefined { name: "x".to_string() }, "'x' is not defined"),
        (Error::ObjectPropShorthandNotVar, "object property name isn't a variable"),
        (
            Error::InvalidBindTarget { descr: "a function call".to_string() },
            "cannot bind to a function call",
        ),
        (
            Error::AlreadyInBinding { name: "a".to_string() },
            "'a' is bound multiple times in this binding",
        ),
        (
            Error::AlreadyInScope { name: "a".to_string(), prev_line: 3, prev_col: 10 },
            "'a' is already defined in the current scope at [3:10]",
        ),
        (
            Error::IncorrectType {
                descr: "condition".to_string(),
                exp_type: "bool".to_string(),
                value: Value::Str(vec![]),
            },
            "condition must be 'bool', got 'string'",
        ),
        (
            Error::StringConstructionFailed {
                reason: "invalid".to_string(),
                descr: "property".to_string(),
            },
            "couldn't create property string: invalid",
        ),
        (Error::ArgNumMismatch { need: 2, got: 0 }, "expected 2 arguments, got 0"),
        (Error::TooFewArgs { minimum: 1, got: 0 }, "expected at least 1 arguments, got 0"),
        (
            Error::InvalidOpTypes { op: BinaryOp::Sum, lhs: Value::Null, rhs: Value::Bool(true) },
            "can't apply '+' to 'null' and 'bool'",
        ),
        (Error::BreakOutsideLoop, "'break' can't be used outside of a loop"),
        (Error::ContinueOutsideLoop, "'continue' can't be used outside of a loop"),
        (Error::ReturnOutsideFunction, "'return' can't be used outside of a function"),
        (Error::ForIterNotIterable, "'for' iterator must be a 'list', 'object' or 'string'"),
        (Error::ValueNotIndexable, "only 'list's, 'object's or 'string's can be indexed"),
        (Error::ValueNotIndexAssignable, "only 'list's or 'object's can update indices"),
        (Error::ValueNotRangeIndexAssignable, "only 'list's can update range indices"),
        (Error::AssignToTypeProp, "type properties cannot be assigned to"),
        (Error::OutOfStringBounds { index: 7 }, "index '7' is outside the string bounds"),
        (Error::OutOfListBounds { index: 0 }, "index '0' is outside the list bounds"),
        (
            Error::RangeOutOfStringBounds { start: 1, end: 20 },
            "range [1:20] is outside the string bounds",
        ),
        (
            Error::RangeOutOfListBounds { start: 3, end: 2 },
            "range [3:2] is outside the list bounds",
        ),
        (
            Error::RangeStartOutOfListBounds { start: 4, list_len: 3 },
            "range start (4) is greater than list length (3)",
        ),
        (
            Error::RangeStartNotBeforeEnd { start: 2, end: 1 },
            "range end (1) must be greater than range start (2)",
        ),
        (
            Error::RangeEndOutOfListBounds { end: 4, list_len: 3 },
            "range end (4) is greater than list length (3)",
        ),
        (Error::ValueNotRangeIndexable, "only 'list's or 'string's can be range-indexed"),
        (Error::NegativeIndex { index: -1 }, "index can't be negative"),
        (
            Error::ListCollectOutsideDestructure,
            "cannot collect 'list' items outside a destructure",
        ),
        (
            Error::ObjectCollectOutsideDestructure,
            "cannot collect 'object' items outside a destructure",
        ),
        (Error::ObjectCollectIsNotLast, "only the last item in the destructure can collect"),
        (
            Error::SpreadNonListInList { value: Value::Int(1) },
            "only lists can be spread in lists, got 'int'",
        ),
        (
            Error::SpreadNonObjectInObject { value: Value::List(0) },
            "only objects can be spread in objects, got 'list'",
        ),
        (
            Error::RangeIndexAssignOnNonIndexable { value: Value::Object(0) },
            "only 'list's or 'string's can be assigned to range indexes, got 'object'",
        ),
        (
            Error::ObjectDestructureOnNonObject { value: Value::Func(0) },
            "only objects can be destructured into objects, got 'func'",
        ),
        (Error::SpreadOnObjectDestructure, "can't use spread operator in object destructuring"),
        (
            Error::ListDestructureOnNonList { value: Value::Null },
            "only lists can be destructured into lists, got 'null'",
        ),
        (
            Error::ListDestructureItemMismatch { lhs_len: 1, rhs_len: 2 },
            "cannot bind 2 item(s) to 1 variable name(s)",
        ),
        (
            Error::ListCollectTooFew { lhs_len: 3, rhs_len: 1 },
            "cannot bind 1 item(s) to 3 variable name(s)",
        ),
        (
            Error::SpreadInListDestructure { index: 1 },
            "cannot use spread operator (at index 1) of list destructure",
        ),
        (
            Error::RangeIndexItemMismatch { range_len: 2, rhs_len: 1 },
            "cannot bind 1 item(s) to 2 index(s)",
        ),
        (Error::PropNotFound { name: "k".to_string() }, "object doesn't contain property 'k'"),
        (
            Error::TypeFunctionNotFound { value: Value::List(0), name: "len".to_string() },
            "there is no type function 'len' for 'list'",
        ),
        (Error::TypeFunctionOnNull, "cannot access type function on 'null'"),
        (
            Error::PropAccessOnNonObject { value: Value::Int(1) },
            "properties can only be accessed on objects, got 'int'",
        ),
        (
            Error::InterpolatedValueNotString { value: Value::Int(1) },
            "interpolated values can only be strings, got 'int'",
        ),
        (
            Error::InterpolateStringParseFailed { source_str: "oops".to_string() },
            "couldn't parse interpolation slot: oops",
        ),
        (Error::OpOnUndefinedIndex { name: "k".to_string() }, "'k' is not defined"),
        (Error::OpOnUndefinedProp { name: "k".to_string() }, "'k' is not defined"),
        (Error::OpOnRangeIndex, "cannot perform this operation on a range-index"),
        (
            Error::OpOnObjectDestructure,
            "cannot perform this operation on an object destructure",
        ),
        (Error::OpOnListDestructure, "cannot perform this operation on an list destructure"),
        (
            Error::IntOverflow { op: BinaryOp::Mul, lhs: i64::MAX, rhs: -2 },
            "'9223372036854775807 * -2' caused an integer overflow",
        ),
        (
            Error::DupParamName { name: "p".to_string(), line: 1, col: 2 },
            "'p' is already declared at [1:2]",
        ),
        (Error::PropSpreadInParamList, "can't use spread operator in parameter list"),
        (Error::ItemSpreadInParamList, "can't use spread operator in parameter list"),
        (Error::BuiltinFuncErr { msg: "as it is".to_string() }, "as it is"),
        (Error::Dev { msg: "broken".to_string() }, "dev error: broken"),
    ];
    for (e, exp) in cases {
        assert_eq!(e.message(), exp);
    }
}
