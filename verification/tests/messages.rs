use rlox::error::{ParseError, ParseErrorType, RuntimeError, RuntimeErrorKind, SyntaxError};
use rlox::operator::BinaryOperator;
use rlox::text::decimal;
use rlox::token::TokenType;
use rlox::value::Value;

fn number_text(bits: u64) -> String {
    format!("{}", f64::from_bits(bits))
}

#[test]
fn numbers_in_decimal_digits() {
    for n in [0u32, 1, 9, 10, 11, 99, 100, 101, 12345, 4000000000, u32::MAX] {
        assert_eq!(decimal(n), n.to_string());
    }
}

#[test]
fn message_of_a_syntax_error() {
    assert_eq!(SyntaxError { line_num: 12 }.to_text(), "syntax error on line 12");
}

#[test]
fn messages_of_parse_errors() {
    let error = ParseError {
        error_type: ParseErrorType::UnexpectedToken {
            expected: TokenType::RightParen,
            found: TokenType::Number("5".to_string()),
        },
        line_num: 3,
    };
    assert_eq!(error.to_text(), "line 3: Expected `)`, found `5`");
    let error = ParseError {
        error_type: ParseErrorType::UnexpectedToken {
            expected: TokenType::Semicolon,
            found: TokenType::Identifier("abc".to_string()),
        },
        line_num: 10,
    };
    assert_eq!(error.to_text(), "line 10: Expected `;`, found `abc`");
    let error = ParseError {
        error_type: ParseErrorType::UnexpectedStart { found: TokenType::Star },
        line_num: 1,
    };
    assert_eq!(error.to_text(), "line 1: Unexpected token: `*`");
    assert_eq!(
        ParseErrorType::ExpectedVariableName.describe(),
        "Expected variable name"
    );
    assert_eq!(ParseErrorType::ExpectedExpression.describe(), "Expected expression");
    assert_eq!(
        ParseErrorType::ExpectedCondition.describe(),
        "Expected one condition in parentheses"
    );
}

#[test]
fn messages_of_runtime_errors() {
    let message = |kind| RuntimeError { kind }.to_text();
    assert_eq!(
        message(RuntimeErrorKind::ExpectedNumber),
        "Runtime error: Expected a number"
    );
    assert_eq!(
        message(RuntimeErrorKind::TypeMismatch { operator: BinaryOperator::Plus }),
        "Runtime error: Cannot apply `+` to values of these types"
    );
    assert_eq!(
        message(RuntimeErrorKind::UnexpectedOperator { operator: BinaryOperator::Equal }),
        "Runtime error: Unexpected operator: ="
    );
    assert_eq!(
        message(RuntimeErrorKind::UndefinedVariable { name: "x".to_string() }),
        "Runtime error: x is not defined."
    );
    assert_eq!(
        message(RuntimeErrorKind::UndefinedAssignment { name: "x".to_string() }),
        "Runtime error: x is undefined"
    );
    assert_eq!(
        message(RuntimeErrorKind::InvalidAssignmentTarget),
        "Runtime error: Cannot assign to this expression"
    );
    assert_eq!(message(RuntimeErrorKind::InvalidNumber), "Runtime error: Not a number");
    assert_eq!(
        message(RuntimeErrorKind::StepLimit),
        "Runtime error: Too many rounds of a loop"
    );
}

#[test]
fn text_of_values() {
    assert_eq!(Value::Nil.to_text(&number_text), "nil");
    assert_eq!(Value::Bool(true).to_text(&number_text), "true");
    assert_eq!(Value::Bool(false).to_text(&number_text), "false");
    assert_eq!(Value::String("a b".to_string()).to_text(&number_text), "a b");
    assert_eq!(Value::Number(64.0f64.to_bits()).to_text(&number_text), "64");
    assert_eq!(Value::Number(45.67f64.to_bits()).to_text(&number_text), "45.67");
}
