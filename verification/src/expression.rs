//! Expressions: the nodes of the syntax tree that denote values.
use vstd::prelude::*;
use crate::operator::{BinaryOperator, UnaryOperator};

verus! {

#[derive(Debug)]
pub enum Expression {
    Literal(Literal),
    Unary(Unary),
    Binary(Binary),
    Grouping(Grouping),
    Var(Var),
    Assign(Assign),
}

/// A literal. A number keeps the text it was written with.
#[derive(Debug)]
pub enum Literal {
    Number(String),
    String(String),
    True,
    False,
    Nil,
}

#[derive(Debug)]
pub struct Unary {
    pub operator: UnaryOperator,
    pub expr: Box<Expression>,
}

#[derive(Debug)]
pub struct Binary {
    pub operator: BinaryOperator,
    pub left: Box<Expression>,
    pub right: Box<Expression>,
}

#[derive(Debug)]
pub struct Grouping {
    pub expr: Box<Expression>,
}

#[derive(Debug)]
pub struct Var {
    pub name: String,
}

/// An assignment. The target is any expression; only a variable can be
/// assigned to when the node is evaluated.
#[derive(Debug)]
pub struct Assign {
    pub name: Box<Expression>,
    pub value: Box<Expression>,
}

impl From<Literal> for Expression {
    fn from(value: Literal) -> (e: Expression) {
        Expression::Literal(value)
    }
}

impl vstd::std_specs::convert::FromSpecImpl<Literal> for Expression {
    open spec fn obeys_from_spec() -> bool {
        true
    }

    open spec fn from_spec(value: Literal) -> Expression {
        Expression::Literal(value)
    }
}

impl From<Unary> for Expression {
    fn from(value: Unary) -> (e: Expression) {
        Expression::Unary(value)
    }
}

impl vstd::std_specs::convert::FromSpecImpl<Unary> for Expression {
    open spec fn obeys_from_spec() -> bool {
        true
    }

    open spec fn from_spec(value: Unary) -> Expression {
        Expression::Unary(value)
    }
}

impl From<Binary> for Expression {
    fn from(value: Binary) -> (e: Expression) {
        Expression::Binary(value)
    }
}

impl vstd::std_specs::convert::FromSpecImpl<Binary> for Expression {
    open spec fn obeys_from_spec() -> bool {
        true
    }

    open spec fn from_spec(value: Binary) -> Expression {
        Expression::Binary(value)
    }
}

impl From<Grouping> for Expression {
    fn from(value: Grouping) -> (e: Expression) {
        Expression::Grouping(value)
    }
}

impl vstd::std_specs::convert::FromSpecImpl<Grouping> for Expression {
    open spec fn obeys_from_spec() -> bool {
        true
    }

    open spec fn from_spec(value: Grouping) -> Expression {
        Expression::Grouping(value)
    }
}

impl From<Var> for Expression {
    fn from(value: Var) -> (e: Expression) {
        Expression::Var(value)
    }
}

impl vstd::std_specs::convert::FromSpecImpl<Var> for Expression {
    open spec fn obeys_from_spec() -> bool {
        true
    }

    open spec fn from_spec(value: Var) -> Expression {
        Expression::Var(value)
    }
}

impl From<Assign> for Expression {
    fn from(value: Assign) -> (e: Expression) {
        Expression::Assign(value)
    }
}

impl vstd::std_specs::convert::FromSpecImpl<Assign> for Expression {
    open spec fn obeys_from_spec() -> bool {
        true
    }

    open spec fn from_spec(value: Assign) -> Expression {
        Expression::Assign(value)
    }
}

} // verus!
