//! The grammar, as mathematical functions from a token sequence and a
//! position in it to what is parsed there and the position that follows.
//!
//! Expressions are read by precedence climbing; statements by recursive
//! descent. A position past the end of the sequence reads as an end marker.
use vstd::prelude::*;
use crate::error::{ParseError, ParseErrorType};
use crate::expression::{Assign, Binary, Expression, Grouping, Literal, Unary, Var};
use crate::operator::{binary_of, unary_of, BinaryOperator};
use crate::statement::StmtView;
use crate::token::{Token, TokenKind, TokenType};

verus! {

/// Binding power of the prefix operators: tighter than every infix operator.
pub const PREFIX_BINDING_POWER: u8 = 8;

/// How tightly an infix operator binds; a higher power binds tighter.
pub open spec fn binding_power(op: BinaryOperator) -> u8 {
    match op {
        BinaryOperator::Equal => 1,
        BinaryOperator::Or => 2,
        BinaryOperator::And => 3,
        BinaryOperator::EqualEqual | BinaryOperator::NotEqual => 4,
        BinaryOperator::Greater | BinaryOperator::Less | BinaryOperator::GreaterEqual
        | BinaryOperator::LessEqual => 5,
        BinaryOperator::Minus | BinaryOperator::Plus => 6,
        BinaryOperator::Mult | BinaryOperator::Div => 7,
    }
}

/// What an expression rule gives: the expression or the error, and the
/// position of the first token that it did not consume.
pub struct ExprOutcome {
    pub result: Result<Expression, ParseError>,
    pub next: int,
}

/// What a statement rule gives. `errors` holds the errors recorded inside
/// blocks of the statement, from which the parser had recovered.
pub struct StmtOutcome {
    pub result: Result<StmtView, ParseError>,
    pub next: int,
    pub errors: Seq<ParseError>,
}

/// What a statement list gives: the statements that parsed, the position
/// behind the list's terminator, and every error recorded on the way.
pub struct ListOutcome {
    pub stmts: Seq<StmtView>,
    pub next: int,
    pub errors: Seq<ParseError>,
}

pub open spec fn in_range(ts: Seq<Token>, pos: int) -> bool {
    0 <= pos < ts.len()
}

/// The shape of the token at `pos`; the end marker past the end.
pub open spec fn kind_at(ts: Seq<Token>, pos: int) -> TokenKind {
    if in_range(ts, pos) {
        ts[pos].spec_kind()
    } else {
        TokenKind::EOF
    }
}

/// The type of the token at `pos`; the end marker past the end.
pub open spec fn type_at(ts: Seq<Token>, pos: int) -> TokenType {
    if in_range(ts, pos) {
        ts[pos].token_type
    } else {
        TokenType::EOF
    }
}

/// The line of the token at `pos`; 0 past the end.
pub open spec fn line_at(ts: Seq<Token>, pos: int) -> u32 {
    if in_range(ts, pos) {
        ts[pos].line_num
    } else {
        0
    }
}

/// The position behind the token at `pos`; nothing is consumed past the end.
pub open spec fn advance(ts: Seq<Token>, pos: int) -> int {
    if in_range(ts, pos) {
        pos + 1
    } else {
        pos
    }
}

/// The error for a token of another type than the one required.
pub open spec fn unexpected(ts: Seq<Token>, pos: int, expected: TokenType) -> ParseError {
    ParseError {
        error_type: ParseErrorType::UnexpectedToken { expected, found: type_at(ts, pos) },
        line_num: line_at(ts, pos),
    }
}

/// Whether a statement can start with a token of this shape, for recovery.
pub open spec fn starts_statement(kind: TokenKind) -> bool {
    kind == TokenKind::Var || kind == TokenKind::For || kind == TokenKind::If || kind
        == TokenKind::While || kind == TokenKind::Print || kind == TokenKind::Return
}

/// Recovery after an error: the position at which parsing resumes, at a
/// statement boundary. Tokens are skipped up to a closing brace, which
/// is left for the block that it ends, or up to and including a
/// semicolon that a statement keyword follows, or the end marker.
pub open spec fn synchronize_from(ts: Seq<Token>, pos: int) -> int
    decreases ts.len() - pos,
{
    if !in_range(ts, pos) {
        pos
    } else if kind_at(ts, pos) == TokenKind::RightBrace {
        pos
    } else if kind_at(ts, pos) == TokenKind::Semicolon {
        if in_range(ts, pos + 1) && starts_statement(kind_at(ts, pos + 1)) {
            pos + 1
        } else {
            synchronize_from(ts, pos + 1)
        }
    } else if kind_at(ts, pos) == TokenKind::EOF {
        pos + 1
    } else {
        synchronize_from(ts, pos + 1)
    }
}

/// A primary expression: a literal, a name, or an expression in
/// parentheses. It consumes the token at `pos`, whatever the token is.
pub open spec fn primary(ts: Seq<Token>, pos: int) -> ExprOutcome
    decreases ts.len() - pos, 0int,
{
    let next = advance(ts, pos);
    match type_at(ts, pos) {
        TokenType::True => ExprOutcome { result: Ok(Expression::Literal(Literal::True)), next },
        TokenType::False => ExprOutcome { result: Ok(Expression::Literal(Literal::False)), next },
        TokenType::Nil => ExprOutcome { result: Ok(Expression::Literal(Literal::Nil)), next },
        TokenType::Number(n) => ExprOutcome {
            result: Ok(Expression::Literal(Literal::Number(n))),
            next,
        },
        TokenType::String(s) => ExprOutcome {
            result: Ok(Expression::Literal(Literal::String(s))),
            next,
        },
        TokenType::Identifier(name) => ExprOutcome {
            result: Ok(Expression::Var(Var { name })),
            next,
        },
        TokenType::LeftParen => {
            if in_range(ts, pos) {
                let inner = expr_bp(ts, pos + 1, 0);
                match inner.result {
                    Err(e) => inner,
                    Ok(e) => if kind_at(ts, inner.next) == TokenKind::RightParen {
                        ExprOutcome {
                            result: Ok(Expression::Grouping(Grouping { expr: Box::new(e) })),
                            next: advance(ts, inner.next),
                        }
                    } else {
                        ExprOutcome {
                            result: Err(unexpected(ts, inner.next, TokenType::RightParen)),
                            next: advance(ts, inner.next),
                        }
                    },
                }
            } else {
                ExprOutcome { result: Err(unexpected_start(ts, pos)), next }
            }
        },
        _ => ExprOutcome { result: Err(unexpected_start(ts, pos)), next },
    }
}

/// The error for a token with which no expression starts.
pub open spec fn unexpected_start(ts: Seq<Token>, pos: int) -> ParseError {
    ParseError {
        error_type: ParseErrorType::UnexpectedStart { found: type_at(ts, pos) },
        line_num: line_at(ts, pos),
    }
}

/// The head of an expression: a prefix operator applied to an expression
/// of prefix binding power, or a primary expression.
pub open spec fn head(ts: Seq<Token>, pos: int) -> ExprOutcome
    decreases ts.len() - pos, 1int,
{
    if in_range(ts, pos) && unary_of(kind_at(ts, pos)) is Some {
        let operand = expr_bp(ts, pos + 1, PREFIX_BINDING_POWER);
        match operand.result {
            Err(e) => operand,
            Ok(e) => ExprOutcome {
                result: Ok(
                    Expression::Unary(
                        Unary { operator: unary_of(kind_at(ts, pos))->0, expr: Box::new(e) },
                    ),
                ),
                next: operand.next,
            },
        }
    } else {
        primary(ts, pos)
    }
}

/// The node that an infix operator makes of its two operands.
pub open spec fn combine(op: BinaryOperator, left: Expression, right: Expression) -> Expression {
    if op == BinaryOperator::Equal {
        Expression::Assign(Assign { name: Box::new(left), value: Box::new(right) })
    } else {
        Expression::Binary(Binary { operator: op, left: Box::new(left), right: Box::new(right) })
    }
}

/// Whether the token at `pos` is an infix operator that binds tighter than
/// `right_bp`, so that the climb goes on with it.
pub open spec fn climbs(ts: Seq<Token>, pos: int, right_bp: u8) -> bool {
    in_range(ts, pos) && binary_of(kind_at(ts, pos)) is Some && binding_power(
        binary_of(kind_at(ts, pos))->0,
    ) > right_bp
}

/// The climb: with `left` parsed and `pos` behind it, takes infix operators
/// that bind tighter than `right_bp`, each with a right operand parsed at the
/// operator's own power, and folds them to the left.
pub open spec fn climb(ts: Seq<Token>, left: Expression, pos: int, right_bp: u8) -> ExprOutcome
    decreases ts.len() - pos, 0int,
{
    if climbs(ts, pos, right_bp) {
        let op = binary_of(kind_at(ts, pos))->0;
        let right = expr_bp(ts, pos + 1, binding_power(op));
        match right.result {
            Err(e) => right,
            Ok(r) => if pos < right.next <= ts.len() {
                climb(ts, combine(op, left, r), right.next, right_bp)
            } else {
                ExprOutcome { result: Ok(combine(op, left, r)), next: right.next }
            },
        }
    } else {
        ExprOutcome { result: Ok(left), next: pos }
    }
}

/// An expression whose infix operators all bind tighter than `right_bp`.
pub open spec fn expr_bp(ts: Seq<Token>, pos: int, right_bp: u8) -> ExprOutcome
    decreases ts.len() - pos, 2int,
{
    let first = head(ts, pos);
    match first.result {
        Err(e) => first,
        Ok(e) => if pos < first.next <= ts.len() {
            climb(ts, e, first.next, right_bp)
        } else {
            first
        },
    }
}

/// A whole expression.
pub open spec fn expr(ts: Seq<Token>, pos: int) -> ExprOutcome {
    expr_bp(ts, pos, 0)
}

/// The semicolon that ends a statement. The token at `pos` is consumed,
/// whatever it is.
pub open spec fn semicolon(ts: Seq<Token>, pos: int) -> Result<(), ParseError> {
    if kind_at(ts, pos) == TokenKind::Semicolon {
        Ok(())
    } else {
        Err(unexpected(ts, pos, TokenType::Semicolon))
    }
}

/// An expression and the semicolon behind it, as the statement that `make`
/// builds of the expression.
pub open spec fn terminated(
    ts: Seq<Token>,
    pos: int,
    make: spec_fn(Expression) -> StmtView,
) -> StmtOutcome {
    let e = expr(ts, pos);
    match e.result {
        Err(err) => StmtOutcome { result: Err(err), next: e.next, errors: Seq::empty() },
        Ok(value) => match semicolon(ts, e.next) {
            Err(err) => StmtOutcome {
                result: Err(err),
                next: advance(ts, e.next),
                errors: Seq::empty(),
            },
            Ok(_) => StmtOutcome {
                result: Ok(make(value)),
                next: advance(ts, e.next),
                errors: Seq::empty(),
            },
        },
    }
}

/// The condition of `if` or `while` at `pos`: one expression in
/// parentheses, given without them.
pub open spec fn condition(ts: Seq<Token>, pos: int) -> ExprOutcome {
    if kind_at(ts, pos) != TokenKind::LeftParen {
        ExprOutcome { result: Err(unexpected(ts, pos, TokenType::LeftParen)), next: pos }
    } else {
        let e = expr(ts, pos);
        match e.result {
            Err(err) => e,
            Ok(Expression::Grouping(g)) => ExprOutcome { result: Ok(*g.expr), next: e.next },
            Ok(_) => ExprOutcome {
                result: Err(
                    ParseError {
                        error_type: ParseErrorType::ExpectedCondition,
                        line_num: line_at(ts, pos),
                    },
                ),
                next: e.next,
            },
        }
    }
}

/// A statement: `print`, a block, `if`, `while`, or an expression; all but
/// the block end with a semicolon or with a statement.
pub open spec fn statement(ts: Seq<Token>, pos: int) -> StmtOutcome
    decreases ts.len() - pos, 3int,
{
    if !in_range(ts, pos) {
        terminated(ts, pos, |e: Expression| StmtView::ExprStmt(e))
    } else if kind_at(ts, pos) == TokenKind::Print {
        terminated(ts, pos + 1, |e: Expression| StmtView::PrintStmt(e))
    } else if kind_at(ts, pos) == TokenKind::LeftBrace {
        let body = statements_until(ts, pos + 1, TokenKind::RightBrace);
        StmtOutcome {
            result: Ok(StmtView::BlockStmt(body.stmts)),
            next: body.next,
            errors: body.errors,
        }
    } else if kind_at(ts, pos) == TokenKind::If {
        let cond = condition(ts, pos + 1);
        match cond.result {
            Err(err) => StmtOutcome { result: Err(err), next: cond.next, errors: Seq::empty() },
            Ok(c) => if !(pos < cond.next <= ts.len()) {
                StmtOutcome { result: Err(unexpected_start(ts, pos)), next: pos, errors: Seq::empty() }
            } else {
                let then_branch = statement(ts, cond.next);
                match then_branch.result {
                    Err(err) => then_branch,
                    Ok(t) => if in_range(ts, then_branch.next) && then_branch.next > pos
                        && kind_at(ts, then_branch.next) == TokenKind::Else {
                        let else_branch = statement(ts, then_branch.next + 1);
                        match else_branch.result {
                            Err(err) => StmtOutcome {
                                result: Err(err),
                                next: else_branch.next,
                                errors: then_branch.errors + else_branch.errors,
                            },
                            Ok(e) => StmtOutcome {
                                result: Ok(
                                    StmtView::IfStmt {
                                        condition: c,
                                        then_branch: Box::new(t),
                                        else_branch: Some(Box::new(e)),
                                    },
                                ),
                                next: else_branch.next,
                                errors: then_branch.errors + else_branch.errors,
                            },
                        }
                    } else {
                        StmtOutcome {
                            result: Ok(
                                StmtView::IfStmt {
                                    condition: c,
                                    then_branch: Box::new(t),
                                    else_branch: None,
                                },
                            ),
                            next: then_branch.next,
                            errors: then_branch.errors,
                        }
                    },
                }
            },
        }
    } else if kind_at(ts, pos) == TokenKind::While {
        let cond = condition(ts, pos + 1);
        match cond.result {
            Err(err) => StmtOutcome { result: Err(err), next: cond.next, errors: Seq::empty() },
            Ok(c) => if !(pos < cond.next <= ts.len()) {
                StmtOutcome { result: Err(unexpected_start(ts, pos)), next: pos, errors: Seq::empty() }
            } else {
                let body = statement(ts, cond.next);
                match body.result {
                    Err(err) => body,
                    Ok(b) => StmtOutcome {
                        result: Ok(StmtView::WhileStmt { condition: c, body: Box::new(b) }),
                        next: body.next,
                        errors: body.errors,
                    },
                }
            },
        }
    } else {
        terminated(ts, pos, |e: Expression| StmtView::ExprStmt(e))
    }
}

/// A declaration: `var`, a name, and then either `=` with an expression
/// statement that gives the initial value, or a semicolon; or a statement.
pub open spec fn declaration(ts: Seq<Token>, pos: int) -> StmtOutcome
    decreases ts.len() - pos, 4int,
{
    if in_range(ts, pos) && kind_at(ts, pos) == TokenKind::Var {
        let target = primary(ts, pos + 1);
        match target.result {
            Err(err) => StmtOutcome { result: Err(err), next: target.next, errors: Seq::empty() },
            Ok(Expression::Var(v)) => if in_range(ts, target.next) && target.next > pos && kind_at(
                ts,
                target.next,
            ) == TokenKind::Equal {
                let init = statement(ts, target.next + 1);
                match init.result {
                    Err(err) => init,
                    Ok(StmtView::ExprStmt(e)) => StmtOutcome {
                        result: Ok(StmtView::VarDecl { name: v.name, initializer: Some(e) }),
                        next: init.next,
                        errors: init.errors,
                    },
                    Ok(_) => StmtOutcome {
                        result: Err(
                            ParseError {
                                error_type: ParseErrorType::ExpectedExpression,
                                line_num: line_at(ts, target.next + 1),
                            },
                        ),
                        next: init.next,
                        errors: init.errors,
                    },
                }
            } else {
                match semicolon(ts, target.next) {
                    Err(err) => StmtOutcome {
                        result: Err(err),
                        next: advance(ts, target.next),
                        errors: Seq::empty(),
                    },
                    Ok(_) => StmtOutcome {
                        result: Ok(StmtView::VarDecl { name: v.name, initializer: None }),
                        next: advance(ts, target.next),
                        errors: Seq::empty(),
                    },
                }
            },
            Ok(_) => StmtOutcome {
                result: Err(
                    ParseError {
                        error_type: ParseErrorType::ExpectedVariableName,
                        line_num: line_at(ts, pos + 1),
                    },
                ),
                next: target.next,
                errors: Seq::empty(),
            },
        }
    } else {
        statement(ts, pos)
    }
}

/// The declarations from `pos` up to a token of shape `until`, which is
/// consumed, or to the end of the tokens. A declaration that fails is
/// recorded and left out, and parsing resumes where recovery leads.
pub open spec fn statements_until(ts: Seq<Token>, pos: int, until: TokenKind) -> ListOutcome
    decreases ts.len() - pos, 5int,
{
    if !in_range(ts, pos) {
        ListOutcome { stmts: Seq::empty(), next: pos, errors: Seq::empty() }
    } else if kind_at(ts, pos) == until {
        ListOutcome { stmts: Seq::empty(), next: pos + 1, errors: Seq::empty() }
    } else {
        let first = declaration(ts, pos);
        let resume = match first.result {
            Ok(_) => first.next,
            Err(_) => synchronize_from(ts, first.next),
        };
        if !(pos < resume <= ts.len()) {
            ListOutcome { stmts: Seq::empty(), next: pos, errors: Seq::empty() }
        } else {
            let rest = statements_until(ts, resume, until);
            match first.result {
                Ok(s) => ListOutcome {
                    stmts: seq![s] + rest.stmts,
                    next: rest.next,
                    errors: first.errors + rest.errors,
                },
                Err(e) => ListOutcome {
                    stmts: rest.stmts,
                    next: rest.next,
                    errors: first.errors + seq![e] + rest.errors,
                },
            }
        }
    }
}

/// A whole program: the declarations up to the end marker.
pub open spec fn program(ts: Seq<Token>) -> ListOutcome {
    statements_until(ts, 0, TokenKind::EOF)
}

/// The expression that a token of one of the simple kinds is by itself: a
/// literal or a name.
pub open spec fn atom(t: TokenType) -> Option<Expression> {
    match t {
        TokenType::True => Some(Expression::Literal(Literal::True)),
        TokenType::False => Some(Expression::Literal(Literal::False)),
        TokenType::Nil => Some(Expression::Literal(Literal::Nil)),
        TokenType::Number(n) => Some(Expression::Literal(Literal::Number(n))),
        TokenType::String(s) => Some(Expression::Literal(Literal::String(s))),
        TokenType::Identifier(name) => Some(Expression::Var(Var { name })),
        _ => None,
    }
}

/// The binding powers rise from assignment over `or`, `and`, equality,
/// comparison and addition to multiplication, and the prefix power lies
/// above them all.
pub proof fn lemma_binding_powers_rise()
    ensures
        binding_power(BinaryOperator::Equal) < binding_power(BinaryOperator::Or),
        binding_power(BinaryOperator::Or) < binding_power(BinaryOperator::And),
        binding_power(BinaryOperator::And) < binding_power(BinaryOperator::EqualEqual),
        binding_power(BinaryOperator::EqualEqual) == binding_power(BinaryOperator::NotEqual),
        binding_power(BinaryOperator::NotEqual) < binding_power(BinaryOperator::Less),
        binding_power(BinaryOperator::Less) == binding_power(BinaryOperator::LessEqual),
        binding_power(BinaryOperator::Less) == binding_power(BinaryOperator::Greater),
        binding_power(BinaryOperator::Less) == binding_power(BinaryOperator::GreaterEqual),
        binding_power(BinaryOperator::Less) < binding_power(BinaryOperator::Plus),
        binding_power(BinaryOperator::Plus) == binding_power(BinaryOperator::Minus),
        binding_power(BinaryOperator::Plus) < binding_power(BinaryOperator::Mult),
        binding_power(BinaryOperator::Mult) == binding_power(BinaryOperator::Div),
        forall|op: BinaryOperator| 0 < #[trigger] binding_power(op) < PREFIX_BINDING_POWER,
{
}

/// A simple token is a primary expression, and a head, of one token.
pub proof fn lemma_atom(ts: Seq<Token>, pos: int)
    requires
        in_range(ts, pos),
        atom(ts[pos].token_type) is Some,
    ensures
        primary(ts, pos) == (ExprOutcome { result: Ok(atom(ts[pos].token_type)->0), next: pos + 1 }),
        head(ts, pos) == primary(ts, pos),
{
}

/// With nothing to climb at `pos`, the climb gives what was parsed so far.
pub proof fn lemma_climb_stops(ts: Seq<Token>, left: Expression, pos: int, right_bp: u8)
    requires
        !climbs(ts, pos, right_bp),
    ensures
        climb(ts, left, pos, right_bp) == (ExprOutcome { result: Ok(left), next: pos }),
{
}

/// Grouping of two infix operators between three simple operands, `a op1 b
/// op2 c`: where `op2` binds tighter than `op1`, it takes `b` and `c`
/// first; in every other case, also for two operators of one power, the
/// operators group to the left.
pub proof fn lemma_infix_grouping(ts: Seq<Token>, pos: int)
    requires
        0 <= pos,
        pos + 5 < ts.len(),
        atom(ts[pos].token_type) is Some,
        binary_of(ts[pos + 1].spec_kind()) is Some,
        atom(ts[pos + 2].token_type) is Some,
        binary_of(ts[pos + 3].spec_kind()) is Some,
        atom(ts[pos + 4].token_type) is Some,
        binary_of(ts[pos + 5].spec_kind()) is None,
    ensures
        expr(ts, pos).next == pos + 5,
        expr(ts, pos).result == Ok::<Expression, ParseError>(
            {
                let a = atom(ts[pos].token_type)->0;
                let b = atom(ts[pos + 2].token_type)->0;
                let c = atom(ts[pos + 4].token_type)->0;
                let op1 = binary_of(ts[pos + 1].spec_kind())->0;
                let op2 = binary_of(ts[pos + 3].spec_kind())->0;
                if binding_power(op2) > binding_power(op1) {
                    combine(op1, a, combine(op2, b, c))
                } else {
                    combine(op2, combine(op1, a, b), c)
                }
            },
        ),
{
    let a = atom(ts[pos].token_type)->0;
    let b = atom(ts[pos + 2].token_type)->0;
    let c = atom(ts[pos + 4].token_type)->0;
    let op1 = binary_of(ts[pos + 1].spec_kind())->0;
    let op2 = binary_of(ts[pos + 3].spec_kind())->0;
    let p1 = binding_power(op1);
    let p2 = binding_power(op2);
    lemma_atom(ts, pos);
    lemma_atom(ts, pos + 2);
    lemma_atom(ts, pos + 4);
    assert(kind_at(ts, pos + 1) == ts[pos + 1].spec_kind());
    assert(kind_at(ts, pos + 3) == ts[pos + 3].spec_kind());
    assert(kind_at(ts, pos + 5) == ts[pos + 5].spec_kind());
    assert(expr_bp(ts, pos, 0) == climb(ts, a, pos + 1, 0));
    assert(climbs(ts, pos + 1, 0));
    assert(expr_bp(ts, pos + 2, p1) == climb(ts, b, pos + 3, p1));
    if p2 > p1 {
        assert(climbs(ts, pos + 3, p1));
        assert(expr_bp(ts, pos + 4, p2) == climb(ts, c, pos + 5, p2));
        lemma_climb_stops(ts, c, pos + 5, p2);
        lemma_climb_stops(ts, combine(op2, b, c), pos + 5, p1);
        assert(climb(ts, b, pos + 3, p1) == climb(ts, combine(op2, b, c), pos + 5, p1));
        lemma_climb_stops(ts, combine(op1, a, combine(op2, b, c)), pos + 5, 0);
        assert(climb(ts, a, pos + 1, 0) == climb(
            ts,
            combine(op1, a, combine(op2, b, c)),
            pos + 5,
            0,
        ));
    } else {
        lemma_climb_stops(ts, b, pos + 3, p1);
        assert(climb(ts, a, pos + 1, 0) == climb(ts, combine(op1, a, b), pos + 3, 0));
        assert(climbs(ts, pos + 3, 0));
        assert(expr_bp(ts, pos + 4, p2) == climb(ts, c, pos + 5, p2));
        lemma_climb_stops(ts, c, pos + 5, p2);
        lemma_climb_stops(ts, combine(op2, combine(op1, a, b), c), pos + 5, 0);
        assert(climb(ts, combine(op1, a, b), pos + 3, 0) == climb(
            ts,
            combine(op2, combine(op1, a, b), c),
            pos + 5,
            0,
        ));
    }
}

/// A prefix operator binds tighter than any infix operator: in `u a op b`,
/// with simple operands, `u` takes `a` alone.
pub proof fn lemma_prefix_binds_tighter(ts: Seq<Token>, pos: int)
    requires
        0 <= pos,
        pos + 4 < ts.len(),
        unary_of(ts[pos].spec_kind()) is Some,
        atom(ts[pos + 1].token_type) is Some,
        binary_of(ts[pos + 2].spec_kind()) is Some,
        atom(ts[pos + 3].token_type) is Some,
        binary_of(ts[pos + 4].spec_kind()) is None,
    ensures
        expr(ts, pos).next == pos + 4,
        expr(ts, pos).result == Ok::<Expression, ParseError>(
            combine(
                binary_of(ts[pos + 2].spec_kind())->0,
                Expression::Unary(
                    Unary {
                        operator: unary_of(ts[pos].spec_kind())->0,
                        expr: Box::new(atom(ts[pos + 1].token_type)->0),
                    },
                ),
                atom(ts[pos + 3].token_type)->0,
            ),
        ),
{
    let a = atom(ts[pos + 1].token_type)->0;
    let b = atom(ts[pos + 3].token_type)->0;
    let u = unary_of(ts[pos].spec_kind())->0;
    let op = binary_of(ts[pos + 2].spec_kind())->0;
    let negated = Expression::Unary(Unary { operator: u, expr: Box::new(a) });
    lemma_atom(ts, pos + 1);
    lemma_atom(ts, pos + 3);
    lemma_binding_powers_rise();
    assert(kind_at(ts, pos) == ts[pos].spec_kind());
    assert(kind_at(ts, pos + 2) == ts[pos + 2].spec_kind());
    assert(kind_at(ts, pos + 4) == ts[pos + 4].spec_kind());
    assert(binding_power(op) < PREFIX_BINDING_POWER);
    lemma_climb_stops(ts, a, pos + 2, PREFIX_BINDING_POWER);
    assert(expr_bp(ts, pos + 1, PREFIX_BINDING_POWER) == climb(
        ts,
        a,
        pos + 2,
        PREFIX_BINDING_POWER,
    ));
    assert(head(ts, pos) == (ExprOutcome { result: Ok(negated), next: pos + 2 }));
    assert(expr_bp(ts, pos, 0) == climb(ts, negated, pos + 2, 0));
    assert(climbs(ts, pos + 2, 0));
    assert(expr_bp(ts, pos + 3, binding_power(op)) == climb(ts, b, pos + 4, binding_power(op)));
    lemma_climb_stops(ts, b, pos + 4, binding_power(op));
    lemma_climb_stops(ts, combine(op, negated, b), pos + 4, 0);
    assert(climb(ts, negated, pos + 2, 0) == climb(ts, combine(op, negated, b), pos + 4, 0));
}

/// An opening parenthesis whose expression no closing one follows is an
/// error that names the closing parenthesis as expected, with the token
/// found in its place and that token's line.
pub proof fn lemma_unclosed_group(ts: Seq<Token>, pos: int)
    requires
        in_range(ts, pos),
        ts[pos].spec_kind() == TokenKind::LeftParen,
        expr(ts, pos + 1).result is Ok,
        kind_at(ts, expr(ts, pos + 1).next) != TokenKind::RightParen,
    ensures
        primary(ts, pos).result == Err::<Expression, ParseError>(
            ParseError {
                error_type: ParseErrorType::UnexpectedToken {
                    expected: TokenType::RightParen,
                    found: type_at(ts, expr(ts, pos + 1).next),
                },
                line_num: line_at(ts, expr(ts, pos + 1).next),
            },
        ),
{
}

/// Whether a rule that started at `pos` and ended at `next` moved
/// forward within the tokens: by at least one token where one stood at
/// `pos`.
pub open spec fn moved(ts: Seq<Token>, pos: int, next: int) -> bool {
    &&& pos <= next <= ts.len()
    &&& in_range(ts, pos) ==> pos < next
}

/// Recovery ends at a closing brace and leaves it in place, so that the
/// block which the brace ends goes on behind it.
pub proof fn lemma_recovery_stops_at_brace(ts: Seq<Token>, pos: int)
    requires
        in_range(ts, pos),
        kind_at(ts, pos) == TokenKind::RightBrace,
    ensures
        synchronize_from(ts, pos) == pos,
{
}

/// Recovery never goes back, and never past the end.
pub proof fn lemma_synchronize_moves(ts: Seq<Token>, pos: int)
    requires
        0 <= pos <= ts.len(),
    ensures
        pos <= synchronize_from(ts, pos) <= ts.len(),
    decreases ts.len() - pos,
{
    if in_range(ts, pos) && kind_at(ts, pos) != TokenKind::RightBrace {
        if kind_at(ts, pos) == TokenKind::Semicolon {
            if !(in_range(ts, pos + 1) && starts_statement(kind_at(ts, pos + 1))) {
                lemma_synchronize_moves(ts, pos + 1);
            }
        } else if kind_at(ts, pos) != TokenKind::EOF {
            lemma_synchronize_moves(ts, pos + 1);
        }
    }
}

/// A primary expression consumes at least the token at its position.
pub proof fn lemma_primary_moves(ts: Seq<Token>, pos: int)
    requires
        0 <= pos <= ts.len(),
    ensures
        moved(ts, pos, primary(ts, pos).next),
    decreases ts.len() - pos, 0int,
{
    if in_range(ts, pos) && ts[pos].token_type is LeftParen {
        lemma_expr_moves(ts, pos + 1, 0);
    }
}

/// The head of an expression consumes at least the token at its position.
pub proof fn lemma_head_moves(ts: Seq<Token>, pos: int)
    requires
        0 <= pos <= ts.len(),
    ensures
        moved(ts, pos, head(ts, pos).next),
    decreases ts.len() - pos, 1int,
{
    if in_range(ts, pos) && unary_of(kind_at(ts, pos)) is Some {
        lemma_expr_moves(ts, pos + 1, PREFIX_BINDING_POWER);
    } else {
        lemma_primary_moves(ts, pos);
    }
}

/// The climb never goes back.
pub proof fn lemma_climb_moves(ts: Seq<Token>, left: Expression, pos: int, right_bp: u8)
    requires
        0 <= pos <= ts.len(),
    ensures
        pos <= climb(ts, left, pos, right_bp).next <= ts.len(),
    decreases ts.len() - pos, 0int,
{
    if climbs(ts, pos, right_bp) {
        let op = binary_of(kind_at(ts, pos))->0;
        let right = expr_bp(ts, pos + 1, binding_power(op));
        lemma_expr_moves(ts, pos + 1, binding_power(op));
        match right.result {
            Err(e) => {},
            Ok(r) => {
                lemma_climb_moves(ts, combine(op, left, r), right.next, right_bp);
            },
        }
    }
}

/// An expression consumes at least the token at its position.
pub proof fn lemma_expr_moves(ts: Seq<Token>, pos: int, right_bp: u8)
    requires
        0 <= pos <= ts.len(),
    ensures
        moved(ts, pos, expr_bp(ts, pos, right_bp).next),
    decreases ts.len() - pos, 2int,
{
    lemma_head_moves(ts, pos);
    let first = head(ts, pos);
    match first.result {
        Err(e) => {},
        Ok(e) => {
            if pos < first.next <= ts.len() {
                lemma_climb_moves(ts, e, first.next, right_bp);
            }
        },
    }
}

/// An expression with its semicolon consumes at least one token.
pub proof fn lemma_terminated_moves(
    ts: Seq<Token>,
    pos: int,
    make: spec_fn(Expression) -> StmtView,
)
    requires
        0 <= pos <= ts.len(),
    ensures
        moved(ts, pos, terminated(ts, pos, make).next),
{
    lemma_expr_moves(ts, pos, 0);
}

/// A condition never goes back.
pub proof fn lemma_condition_moves(ts: Seq<Token>, pos: int)
    requires
        0 <= pos <= ts.len(),
    ensures
        pos <= condition(ts, pos).next <= ts.len(),
        condition(ts, pos).result is Ok ==> pos < condition(ts, pos).next,
{
    lemma_expr_moves(ts, pos, 0);
}

/// A statement consumes at least the token at its position.
pub proof fn lemma_statement_moves(ts: Seq<Token>, pos: int)
    requires
        0 <= pos <= ts.len(),
    ensures
        moved(ts, pos, statement(ts, pos).next),
    decreases ts.len() - pos, 3int,
{
    if !in_range(ts, pos) {
        lemma_terminated_moves(ts, pos, |e: Expression| StmtView::ExprStmt(e));
    } else if kind_at(ts, pos) == TokenKind::Print {
        lemma_terminated_moves(ts, pos + 1, |e: Expression| StmtView::PrintStmt(e));
    } else if kind_at(ts, pos) == TokenKind::LeftBrace {
        lemma_statements_move(ts, pos + 1, TokenKind::RightBrace);
    } else if kind_at(ts, pos) == TokenKind::If {
        lemma_condition_moves(ts, pos + 1);
        let cond = condition(ts, pos + 1);
        if cond.result is Ok {
            lemma_statement_moves(ts, cond.next);
            let then_branch = statement(ts, cond.next);
            if then_branch.result is Ok && in_range(ts, then_branch.next) && kind_at(
                ts,
                then_branch.next,
            ) == TokenKind::Else {
                lemma_statement_moves(ts, then_branch.next + 1);
            }
        }
    } else if kind_at(ts, pos) == TokenKind::While {
        lemma_condition_moves(ts, pos + 1);
        let cond = condition(ts, pos + 1);
        if cond.result is Ok {
            lemma_statement_moves(ts, cond.next);
        }
    } else {
        lemma_terminated_moves(ts, pos, |e: Expression| StmtView::ExprStmt(e));
    }
}

/// A declaration consumes at least the token at its position.
pub proof fn lemma_declaration_moves(ts: Seq<Token>, pos: int)
    requires
        0 <= pos <= ts.len(),
    ensures
        moved(ts, pos, declaration(ts, pos).next),
    decreases ts.len() - pos, 4int,
{
    if in_range(ts, pos) && kind_at(ts, pos) == TokenKind::Var {
        lemma_primary_moves(ts, pos + 1);
        let target = primary(ts, pos + 1);
        if target.result is Ok && in_range(ts, target.next) && kind_at(ts, target.next)
            == TokenKind::Equal {
            lemma_statement_moves(ts, target.next + 1);
        }
    } else {
        lemma_statement_moves(ts, pos);
    }
}

/// A list of declarations never goes back, and consumes its terminator.
pub proof fn lemma_statements_move(ts: Seq<Token>, pos: int, until: TokenKind)
    requires
        0 <= pos <= ts.len(),
    ensures
        moved(ts, pos, statements_until(ts, pos, until).next),
    decreases ts.len() - pos, 5int,
{
    if in_range(ts, pos) && kind_at(ts, pos) != until {
        lemma_declaration_moves(ts, pos);
        let first = declaration(ts, pos);
        lemma_synchronize_moves(ts, first.next);
        let resume = match first.result {
            Ok(_) => first.next,
            Err(_) => synchronize_from(ts, first.next),
        };
        lemma_statements_move(ts, resume, until);
    }
}

/// A declaration that fails does not end the parse: its error is recorded,
/// behind the errors from inside it, and the errors of what follows the
/// point of recovery come behind that.
pub proof fn lemma_errors_accumulate(ts: Seq<Token>, pos: int, until: TokenKind)
    requires
        in_range(ts, pos),
        kind_at(ts, pos) != until,
        declaration(ts, pos).result is Err,
    ensures
        statements_until(ts, pos, until).errors == declaration(ts, pos).errors
            + seq![declaration(ts, pos).result->Err_0]
            + statements_until(
            ts,
            synchronize_from(ts, declaration(ts, pos).next),
            until,
        ).errors,
        statements_until(ts, pos, until).stmts == statements_until(
            ts,
            synchronize_from(ts, declaration(ts, pos).next),
            until,
        ).stmts,
{
    lemma_declaration_moves(ts, pos);
    lemma_synchronize_moves(ts, declaration(ts, pos).next);
}

/// A declaration that parses is kept, and the parse goes on behind it.
pub proof fn lemma_statements_accumulate(ts: Seq<Token>, pos: int, until: TokenKind)
    requires
        in_range(ts, pos),
        kind_at(ts, pos) != until,
        declaration(ts, pos).result is Ok,
    ensures
        statements_until(ts, pos, until).stmts == seq![declaration(ts, pos).result->Ok_0]
            + statements_until(ts, declaration(ts, pos).next, until).stmts,
        statements_until(ts, pos, until).errors == declaration(ts, pos).errors
            + statements_until(ts, declaration(ts, pos).next, until).errors,
{
    lemma_declaration_moves(ts, pos);
}

/// Whether an expression has the shape of a parsed one: no infix node
/// holds the assignment operator, which makes an assignment node.
pub open spec fn well_shaped(e: Expression) -> bool
    decreases e,
{
    match e {
        Expression::Literal(_) => true,
        Expression::Var(_) => true,
        Expression::Unary(u) => well_shaped(*u.expr),
        Expression::Binary(b) => b.operator != BinaryOperator::Equal && well_shaped(*b.left)
            && well_shaped(*b.right),
        Expression::Grouping(g) => well_shaped(*g.expr),
        Expression::Assign(a) => well_shaped(*a.name) && well_shaped(*a.value),
    }
}

/// Whether every expression of a statement has the shape of a parsed one.
pub open spec fn stmt_well_shaped(s: StmtView) -> bool
    decreases s,
{
    match s {
        StmtView::ExprStmt(e) => well_shaped(e),
        StmtView::PrintStmt(e) => well_shaped(e),
        StmtView::VarDecl { name, initializer } => match initializer {
            Some(e) => well_shaped(e),
            None => true,
        },
        StmtView::BlockStmt(stmts) => forall|i: int|
            0 <= i < stmts.len() ==> stmt_well_shaped(#[trigger] stmts[i]),
        StmtView::IfStmt { condition, then_branch, else_branch } => well_shaped(condition)
            && stmt_well_shaped(*then_branch) && match else_branch {
            Some(other) => stmt_well_shaped(*other),
            None => true,
        },
        StmtView::WhileStmt { condition, body } => well_shaped(condition) && stmt_well_shaped(
            *body,
        ),
    }
}

/// A primary expression that parses is well shaped.
pub proof fn lemma_primary_shape(ts: Seq<Token>, pos: int)
    requires
        0 <= pos <= ts.len(),
    ensures
        primary(ts, pos).result matches Ok(e) ==> well_shaped(e),
    decreases ts.len() - pos, 0int,
{
    if in_range(ts, pos) && ts[pos].token_type is LeftParen {
        lemma_expr_shape(ts, pos + 1, 0);
    }
}

/// The head of an expression that parses is well shaped.
pub proof fn lemma_head_shape(ts: Seq<Token>, pos: int)
    requires
        0 <= pos <= ts.len(),
    ensures
        head(ts, pos).result matches Ok(e) ==> well_shaped(e),
    decreases ts.len() - pos, 1int,
{
    if in_range(ts, pos) && unary_of(kind_at(ts, pos)) is Some {
        lemma_expr_shape(ts, pos + 1, PREFIX_BINDING_POWER);
    } else {
        lemma_primary_shape(ts, pos);
    }
}

/// The climb from a well-shaped expression gives a well-shaped one.
pub proof fn lemma_climb_shape(ts: Seq<Token>, left: Expression, pos: int, right_bp: u8)
    requires
        0 <= pos <= ts.len(),
        well_shaped(left),
    ensures
        climb(ts, left, pos, right_bp).result matches Ok(e) ==> well_shaped(e),
    decreases ts.len() - pos, 0int,
{
    if climbs(ts, pos, right_bp) {
        let op = binary_of(kind_at(ts, pos))->0;
        let right = expr_bp(ts, pos + 1, binding_power(op));
        lemma_expr_shape(ts, pos + 1, binding_power(op));
        lemma_expr_moves(ts, pos + 1, binding_power(op));
        match right.result {
            Err(e) => {},
            Ok(r) => {
                lemma_climb_shape(ts, combine(op, left, r), right.next, right_bp);
            },
        }
    }
}

/// Every expression that parses is well shaped: the assignment operator
/// stands in assignment nodes only.
pub proof fn lemma_expr_shape(ts: Seq<Token>, pos: int, right_bp: u8)
    requires
        0 <= pos <= ts.len(),
    ensures
        expr_bp(ts, pos, right_bp).result matches Ok(e) ==> well_shaped(e),
    decreases ts.len() - pos, 2int,
{
    lemma_head_shape(ts, pos);
    let first = head(ts, pos);
    match first.result {
        Err(e) => {},
        Ok(e) => {
            if pos < first.next <= ts.len() {
                lemma_climb_shape(ts, e, first.next, right_bp);
            }
        },
    }
}

/// A condition that parses is well shaped.
pub proof fn lemma_condition_shape(ts: Seq<Token>, pos: int)
    requires
        0 <= pos <= ts.len(),
    ensures
        condition(ts, pos).result matches Ok(e) ==> well_shaped(e),
{
    lemma_expr_shape(ts, pos, 0);
}

/// Every statement that parses is well shaped.
pub proof fn lemma_statement_shape(ts: Seq<Token>, pos: int)
    requires
        0 <= pos <= ts.len(),
    ensures
        statement(ts, pos).result matches Ok(s) ==> stmt_well_shaped(s),
    decreases ts.len() - pos, 3int,
{
    if !in_range(ts, pos) {
        lemma_expr_shape(ts, pos, 0);
    } else if kind_at(ts, pos) == TokenKind::Print {
        lemma_expr_shape(ts, pos + 1, 0);
    } else if kind_at(ts, pos) == TokenKind::LeftBrace {
        lemma_statements_shape(ts, pos + 1, TokenKind::RightBrace);
        let body = statements_until(ts, pos + 1, TokenKind::RightBrace);
        assert(stmt_well_shaped(StmtView::BlockStmt(body.stmts)));
    } else if kind_at(ts, pos) == TokenKind::If {
        lemma_condition_shape(ts, pos + 1);
        lemma_condition_moves(ts, pos + 1);
        let cond = condition(ts, pos + 1);
        if cond.result is Ok {
            lemma_statement_shape(ts, cond.next);
            lemma_statement_moves(ts, cond.next);
            let then_branch = statement(ts, cond.next);
            if then_branch.result is Ok && in_range(ts, then_branch.next) && kind_at(
                ts,
                then_branch.next,
            ) == TokenKind::Else {
                lemma_statement_shape(ts, then_branch.next + 1);
            }
        }
    } else if kind_at(ts, pos) == TokenKind::While {
        lemma_condition_shape(ts, pos + 1);
        lemma_condition_moves(ts, pos + 1);
        let cond = condition(ts, pos + 1);
        if cond.result is Ok {
            lemma_statement_shape(ts, cond.next);
        }
    } else {
        lemma_expr_shape(ts, pos, 0);
    }
}

/// Every declaration that parses is well shaped.
pub proof fn lemma_declaration_shape(ts: Seq<Token>, pos: int)
    requires
        0 <= pos <= ts.len(),
    ensures
        declaration(ts, pos).result matches Ok(s) ==> stmt_well_shaped(s),
    decreases ts.len() - pos, 4int,
{
    if in_range(ts, pos) && kind_at(ts, pos) == TokenKind::Var {
        lemma_primary_moves(ts, pos + 1);
        let target = primary(ts, pos + 1);
        if target.result is Ok && in_range(ts, target.next) && kind_at(ts, target.next)
            == TokenKind::Equal {
            lemma_statement_shape(ts, target.next + 1);
        }
    } else {
        lemma_statement_shape(ts, pos);
    }
}

/// Every statement of a parsed list is well shaped, and so is every
/// statement of a parsed program.
pub proof fn lemma_statements_shape(ts: Seq<Token>, pos: int, until: TokenKind)
    requires
        0 <= pos <= ts.len(),
    ensures
        forall|i: int|
            0 <= i < statements_until(ts, pos, until).stmts.len() ==> stmt_well_shaped(
                #[trigger] statements_until(ts, pos, until).stmts[i],
            ),
    decreases ts.len() - pos, 5int,
{
    if in_range(ts, pos) && kind_at(ts, pos) != until {
        lemma_declaration_shape(ts, pos);
        lemma_declaration_moves(ts, pos);
        let first = declaration(ts, pos);
        lemma_synchronize_moves(ts, first.next);
        let resume = match first.result {
            Ok(_) => first.next,
            Err(_) => synchronize_from(ts, first.next),
        };
        lemma_statements_shape(ts, resume, until);
        let rest = statements_until(ts, resume, until);
        let all = statements_until(ts, pos, until).stmts;
        assert forall|i: int| 0 <= i < all.len() implies stmt_well_shaped(#[trigger] all[i]) by {
            match first.result {
                Ok(s) => {
                    if i > 0 {
                        assert(all[i] == rest.stmts[i - 1]);
                    }
                },
                Err(_) => {},
            }
        }
    }
}

} // verus!
