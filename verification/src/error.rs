//! The three kinds of error: from scanning, from parsing and from running.
use vstd::prelude::*;
use vstd::string::StringExecFns;
use crate::operator::BinaryOperator;
use crate::text::{decimal, decimal_digits};
use crate::token::TokenType;

verus! {

/// A character or a literal that the scanner could not read, by its line.
#[derive(Debug, PartialEq, Eq, Structural, Clone, Copy)]
pub struct SyntaxError {
    pub line_num: u32,
}

/// What the parser met in place of what the grammar asks for.
#[derive(Debug, PartialEq)]
pub enum ParseErrorType {
    /// A token of one type was required and another stood there.
    UnexpectedToken { expected: TokenType, found: TokenType },
    /// No expression can start with this token.
    UnexpectedStart { found: TokenType },
    /// `var` was not followed by a name.
    ExpectedVariableName,
    /// The initializer of a variable is a statement that is no expression.
    ExpectedExpression,
    /// The condition of `if` or `while` is more than one parenthesized expression.
    ExpectedCondition,
}

/// A parse error and the line of the token at which it was found.
#[derive(Debug, PartialEq)]
pub struct ParseError {
    pub error_type: ParseErrorType,
    pub line_num: u32,
}

/// Why a statement or an expression could not be run.
#[derive(Debug, PartialEq)]
pub enum RuntimeErrorKind {
    /// Unary minus was applied to a value that is no number.
    ExpectedNumber,
    /// An infix operator was applied to values of types it does not take.
    TypeMismatch { operator: BinaryOperator },
    /// An infix node holds an operator that computes nothing.
    UnexpectedOperator { operator: BinaryOperator },
    /// A variable was read that no scope defines.
    UndefinedVariable { name: String },
    /// A variable was assigned to that no scope defines.
    UndefinedAssignment { name: String },
    /// The target of an assignment is no variable.
    InvalidAssignmentTarget,
    /// A number literal's text is no number, or the arithmetic gave no result.
    InvalidNumber,
    /// The loops ran more rounds than the caller allowed.
    StepLimit,
}

/// An error raised while running; it ends the statement that raised it.
#[derive(Debug, PartialEq)]
pub struct RuntimeError {
    pub kind: RuntimeErrorKind,
}

impl SyntaxError {
    /// The message of the error.
    pub open spec fn message(self) -> Seq<char> {
        "syntax error on line "@ + decimal_digits(self.line_num as nat)
    }

    /// The message of the error.
    pub fn to_text(&self) -> (text: String)
        ensures
            text@ == self.message(),
    {
        let mut text = String::from_str("syntax error on line ");
        text.append(decimal(self.line_num).as_str());
        text
    }
}

impl ParseErrorType {
    /// What the error says went wrong.
    pub open spec fn description(self) -> Seq<char> {
        match self {
            ParseErrorType::UnexpectedToken { expected, found } => "Expected `"@
                + expected.spec_lexeme() + "`, found `"@ + found.spec_lexeme() + "`"@,
            ParseErrorType::UnexpectedStart { found } => "Unexpected token: `"@
                + found.spec_lexeme() + "`"@,
            ParseErrorType::ExpectedVariableName => "Expected variable name"@,
            ParseErrorType::ExpectedExpression => "Expected expression"@,
            ParseErrorType::ExpectedCondition => "Expected one condition in parentheses"@,
        }
    }

    /// What the error says went wrong.
    pub fn describe(&self) -> (text: String)
        ensures
            text@ == self.description(),
    {
        match self {
            ParseErrorType::UnexpectedToken { expected, found } => {
                let mut text = String::from_str("Expected `");
                text.append(expected.lexeme().as_str());
                text.append("`, found `");
                text.append(found.lexeme().as_str());
                text.append("`");
                text
            },
            ParseErrorType::UnexpectedStart { found } => {
                let mut text = String::from_str("Unexpected token: `");
                text.append(found.lexeme().as_str());
                text.append("`");
                text
            },
            ParseErrorType::ExpectedVariableName => String::from_str("Expected variable name"),
            ParseErrorType::ExpectedExpression => String::from_str("Expected expression"),
            ParseErrorType::ExpectedCondition => String::from_str(
                "Expected one condition in parentheses",
            ),
        }
    }
}

impl ParseError {
    /// The message of the error: the line, then what went wrong.
    pub open spec fn message(self) -> Seq<char> {
        "line "@ + decimal_digits(self.line_num as nat) + ": "@ + self.error_type.description()
    }

    /// The message of the error.
    pub fn to_text(&self) -> (text: String)
        ensures
            text@ == self.message(),
    {
        let mut text = String::from_str("line ");
        text.append(decimal(self.line_num).as_str());
        text.append(": ");
        text.append(self.error_type.describe().as_str());
        text
    }
}

impl RuntimeErrorKind {
    /// What the error says went wrong.
    pub open spec fn description(self) -> Seq<char> {
        match self {
            RuntimeErrorKind::ExpectedNumber => "Expected a number"@,
            RuntimeErrorKind::TypeMismatch { operator } => "Cannot apply `"@ + operator.symbol()
                + "` to values of these types"@,
            RuntimeErrorKind::UnexpectedOperator { operator } => "Unexpected operator: "@
                + operator.symbol(),
            RuntimeErrorKind::UndefinedVariable { name } => name@ + " is not defined."@,
            RuntimeErrorKind::UndefinedAssignment { name } => name@ + " is undefined"@,
            RuntimeErrorKind::InvalidAssignmentTarget => "Cannot assign to this expression"@,
            RuntimeErrorKind::InvalidNumber => "Not a number"@,
            RuntimeErrorKind::StepLimit => "Too many rounds of a loop"@,
        }
    }

    /// What the error says went wrong.
    pub fn describe(&self) -> (text: String)
        ensures
            text@ == self.description(),
    {
        match self {
            RuntimeErrorKind::ExpectedNumber => String::from_str("Expected a number"),
            RuntimeErrorKind::TypeMismatch { operator } => {
                let mut text = String::from_str("Cannot apply `");
                text.append(operator.to_text().as_str());
                text.append("` to values of these types");
                text
            },
            RuntimeErrorKind::UnexpectedOperator { operator } => {
                let mut text = String::from_str("Unexpected operator: ");
                text.append(operator.to_text().as_str());
                text
            },
            RuntimeErrorKind::UndefinedVariable { name } => {
                let mut text = name.clone();
                text.append(" is not defined.");
                text
            },
            RuntimeErrorKind::UndefinedAssignment { name } => {
                let mut text = name.clone();
                text.append(" is undefined");
                text
            },
            RuntimeErrorKind::InvalidAssignmentTarget => String::from_str(
                "Cannot assign to this expression",
            ),
            RuntimeErrorKind::InvalidNumber => String::from_str("Not a number"),
            RuntimeErrorKind::StepLimit => String::from_str("Too many rounds of a loop"),
        }
    }
}

impl RuntimeError {
    /// The message of the error.
    pub open spec fn message(self) -> Seq<char> {
        "Runtime error: "@ + self.kind.description()
    }

    /// The message of the error.
    pub fn to_text(&self) -> (text: String)
        ensures
            text@ == self.message(),
    {
        let mut text = String::from_str("Runtime error: ");
        text.append(self.kind.describe().as_str());
        text
    }
}

} // verus!
