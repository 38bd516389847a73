//! The operators of the language.
use vstd::prelude::*;
use vstd::string::StringExecFns;
use crate::token::{Token, TokenKind};

verus! {

#[derive(PartialEq, Eq, Structural, Hash, Copy, Clone, Debug)]
pub enum UnaryOperator {
    Minus,
    Not,
}

#[derive(PartialEq, Eq, Structural, Hash, Copy, Clone, Debug)]
pub enum BinaryOperator {
    Minus,
    Plus,
    Div,
    Mult,
    NotEqual,
    Equal,
    EqualEqual,
    Greater,
    GreaterEqual,
    Less,
    LessEqual,
    And,
    Or,
}

#[derive(PartialEq, Eq, Structural, Hash, Copy, Clone, Debug)]
pub enum Operator {
    Unary(UnaryOperator),
    Binary(BinaryOperator),
}

/// A token that stands for no operator of the kind asked for.
#[derive(PartialEq, Eq, Structural, Copy, Clone, Debug)]
pub struct NotAnOperator {
    pub found: TokenKind,
}

impl From<UnaryOperator> for Operator {
    fn from(value: UnaryOperator) -> (op: Operator) {
        Operator::Unary(value)
    }
}

impl vstd::std_specs::convert::FromSpecImpl<UnaryOperator> for Operator {
    open spec fn obeys_from_spec() -> bool {
        true
    }

    open spec fn from_spec(value: UnaryOperator) -> Operator {
        Operator::Unary(value)
    }
}

impl From<BinaryOperator> for Operator {
    fn from(value: BinaryOperator) -> (op: Operator) {
        Operator::Binary(value)
    }
}

impl vstd::std_specs::convert::FromSpecImpl<BinaryOperator> for Operator {
    open spec fn obeys_from_spec() -> bool {
        true
    }

    open spec fn from_spec(value: BinaryOperator) -> Operator {
        Operator::Binary(value)
    }
}

/// The prefix operator that a token of the given shape stands for.
pub open spec fn unary_of(kind: TokenKind) -> Option<UnaryOperator> {
    match kind {
        TokenKind::Minus => Some(UnaryOperator::Minus),
        TokenKind::Bang => Some(UnaryOperator::Not),
        _ => None,
    }
}

/// The infix operator that a token of the given shape stands for.
pub open spec fn binary_of(kind: TokenKind) -> Option<BinaryOperator> {
    match kind {
        TokenKind::Minus => Some(BinaryOperator::Minus),
        TokenKind::Plus => Some(BinaryOperator::Plus),
        TokenKind::Slash => Some(BinaryOperator::Div),
        TokenKind::Star => Some(BinaryOperator::Mult),
        TokenKind::BangEqual => Some(BinaryOperator::NotEqual),
        TokenKind::Equal => Some(BinaryOperator::Equal),
        TokenKind::EqualEqual => Some(BinaryOperator::EqualEqual),
        TokenKind::Greater => Some(BinaryOperator::Greater),
        TokenKind::GreaterEqual => Some(BinaryOperator::GreaterEqual),
        TokenKind::Less => Some(BinaryOperator::Less),
        TokenKind::LessEqual => Some(BinaryOperator::LessEqual),
        TokenKind::And => Some(BinaryOperator::And),
        TokenKind::Or => Some(BinaryOperator::Or),
        _ => None,
    }
}

impl UnaryOperator {
    /// The operator's spelling.
    pub open spec fn symbol(self) -> Seq<char> {
        match self {
            UnaryOperator::Minus => "-"@,
            UnaryOperator::Not => "!"@,
        }
    }

    /// The prefix operator that the token stands for, or the token's shape
    /// where it stands for none.
    pub fn try_from(value: &Token) -> (r: Result<UnaryOperator, NotAnOperator>)
        ensures
            r == match unary_of(value.spec_kind()) {
                Some(op) => Ok::<UnaryOperator, NotAnOperator>(op),
                None => Err(NotAnOperator { found: value.spec_kind() }),
            },
    {
        match value.kind() {
            TokenKind::Minus => Ok(UnaryOperator::Minus),
            TokenKind::Bang => Ok(UnaryOperator::Not),
            found => Err(NotAnOperator { found }),
        }
    }

    /// The operator's spelling.
    pub fn to_text(&self) -> (text: String)
        ensures
            text@ == self.symbol(),
    {
        match self {
            UnaryOperator::Minus => String::from_str("-"),
            UnaryOperator::Not => String::from_str("!"),
        }
    }
}

impl BinaryOperator {
    /// The operator's spelling.
    pub open spec fn symbol(self) -> Seq<char> {
        match self {
            BinaryOperator::Minus => "-"@,
            BinaryOperator::Plus => "+"@,
            BinaryOperator::Div => "/"@,
            BinaryOperator::Mult => "*"@,
            BinaryOperator::NotEqual => "!="@,
            BinaryOperator::Equal => "="@,
            BinaryOperator::EqualEqual => "=="@,
            BinaryOperator::Greater => ">"@,
            BinaryOperator::GreaterEqual => ">="@,
            BinaryOperator::Less => "<"@,
            BinaryOperator::LessEqual => "<="@,
            BinaryOperator::And => "and"@,
            BinaryOperator::Or => "or"@,
        }
    }

    /// The infix operator that the token stands for, or the token's shape
    /// where it stands for none.
    pub fn try_from(value: &Token) -> (r: Result<BinaryOperator, NotAnOperator>)
        ensures
            r == match binary_of(value.spec_kind()) {
                Some(op) => Ok::<BinaryOperator, NotAnOperator>(op),
                None => Err(NotAnOperator { found: value.spec_kind() }),
            },
    {
        match value.kind() {
            TokenKind::Minus => Ok(BinaryOperator::Minus),
            TokenKind::Plus => Ok(BinaryOperator::Plus),
            TokenKind::Slash => Ok(BinaryOperator::Div),
            TokenKind::Star => Ok(BinaryOperator::Mult),
            TokenKind::BangEqual => Ok(BinaryOperator::NotEqual),
            TokenKind::Equal => Ok(BinaryOperator::Equal),
            TokenKind::EqualEqual => Ok(BinaryOperator::EqualEqual),
            TokenKind::Greater => Ok(BinaryOperator::Greater),
            TokenKind::GreaterEqual => Ok(BinaryOperator::GreaterEqual),
            TokenKind::Less => Ok(BinaryOperator::Less),
            TokenKind::LessEqual => Ok(BinaryOperator::LessEqual),
            TokenKind::And => Ok(BinaryOperator::And),
            TokenKind::Or => Ok(BinaryOperator::Or),
            found => Err(NotAnOperator { found }),
        }
    }

    /// The operator's spelling.
    pub fn to_text(&self) -> (text: String)
        ensures
            text@ == self.symbol(),
    {
        match self {
            BinaryOperator::Minus => String::from_str("-"),
            BinaryOperator::Plus => String::from_str("+"),
            BinaryOperator::Div => String::from_str("/"),
            BinaryOperator::Mult => String::from_str("*"),
            BinaryOperator::NotEqual => String::from_str("!="),
            BinaryOperator::Equal => String::from_str("="),
            BinaryOperator::EqualEqual => String::from_str("=="),
            BinaryOperator::Greater => String::from_str(">"),
            BinaryOperator::GreaterEqual => String::from_str(">="),
            BinaryOperator::Less => String::from_str("<"),
            BinaryOperator::LessEqual => String::from_str("<="),
            BinaryOperator::And => String::from_str("and"),
            BinaryOperator::Or => String::from_str("or"),
        }
    }
}

} // verus!
