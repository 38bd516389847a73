//! The parser: reads a token sequence into statements, as the grammar says,
//! and records every error that it recovers from.
use vstd::prelude::*;
use crate::error::{ParseError, ParseErrorType};
use crate::expression::{Assign, Binary, Expression, Grouping, Literal, Unary, Var};
use crate::grammar::{
    advance, binding_power, climb, climbs, combine, condition, declaration, expr, expr_bp, head,
    in_range, kind_at, line_at, primary, semicolon, starts_statement, statement,
    statements_until, synchronize_from, type_at, unexpected, PREFIX_BINDING_POWER,
};
use crate::operator::{binary_of, BinaryOperator, UnaryOperator};
use crate::statement::{
    stmt_view, stmts_view, BlockStmt, IfStmt, Stmt, StmtView, VarDecl, WhileStmt,
};
use crate::token::{Token, TokenKind, TokenType};

verus! {

pub struct Parser {
    tokens: Vec<Token>,
    pos: usize,
    errors: Vec<ParseError>,
}

/// How tightly an infix operator binds; a higher power binds tighter.
pub fn infix_binding_power(op: &BinaryOperator) -> (bp: u8)
    ensures
        bp == binding_power(*op),
        1 <= bp < PREFIX_BINDING_POWER,
{
    match *op {
        BinaryOperator::Equal => 1,
        BinaryOperator::Or => 2,
        BinaryOperator::And => 3,
        BinaryOperator::EqualEqual | BinaryOperator::NotEqual => 4,
        BinaryOperator::Greater | BinaryOperator::Less | BinaryOperator::GreaterEqual
        | BinaryOperator::LessEqual => 5,
        BinaryOperator::Minus | BinaryOperator::Plus => 6,
        BinaryOperator::Mult | BinaryOperator::Div => 7,
    }
}

/// A statement result with the statement as a mathematical tree.
pub open spec fn viewed(r: Result<Stmt, ParseError>) -> Result<StmtView, ParseError> {
    match r {
        Ok(s) => Ok(s@),
        Err(e) => Err(e),
    }
}

/// The view of a block is the block of its statements' views.
pub proof fn lemma_block_view(stmts: Vec<Stmt>)
    ensures
        Stmt::BlockStmt(BlockStmt { stmts })@ == StmtView::BlockStmt(stmts_view(stmts@)),
{
    let whole = stmt_view(Stmt::BlockStmt(BlockStmt { stmts }));
    assert(whole is BlockStmt);
    assert(whole->BlockStmt_0 =~= stmts_view(stmts@));
}

impl Parser {
    /// The tokens that the parser reads.
    pub closed spec fn tokens(&self) -> Seq<Token> {
        self.tokens@
    }

    /// The position of the next token to read.
    pub closed spec fn position(&self) -> int {
        self.pos as int
    }

    /// The errors recorded so far.
    pub closed spec fn recorded(&self) -> Seq<ParseError> {
        self.errors@
    }

    /// The position lies within the tokens or right behind them.
    pub closed spec fn wf(&self) -> bool {
        self.pos <= self.tokens.len()
    }

    /// A parser at the start of the tokens.
    pub fn new(tokens: Vec<Token>) -> (parser: Parser)
        ensures
            parser.wf(),
            parser.tokens() == tokens@,
            parser.position() == 0,
            parser.recorded() == Seq::<ParseError>::empty(),
    {
        Parser { tokens, pos: 0, errors: Vec::new() }
    }

    fn kind_here(&self) -> (k: TokenKind)
        requires
            self.wf(),
        ensures
            k == kind_at(self.tokens@, self.pos as int),
    {
        if self.pos < self.tokens.len() {
            self.tokens[self.pos].kind()
        } else {
            TokenKind::EOF
        }
    }

    fn type_here(&self) -> (t: TokenType)
        requires
            self.wf(),
        ensures
            t == type_at(self.tokens@, self.pos as int),
    {
        if self.pos < self.tokens.len() {
            self.tokens[self.pos].token_type.duplicate()
        } else {
            TokenType::EOF
        }
    }

    fn line_here(&self) -> (n: u32)
        requires
            self.wf(),
        ensures
            n == line_at(self.tokens@, self.pos as int),
    {
        if self.pos < self.tokens.len() {
            self.tokens[self.pos].line_num
        } else {
            0
        }
    }

    fn bump(&mut self)
        requires
            old(self).wf(),
        ensures
            final(self).wf(),
            final(self).tokens == old(self).tokens,
            final(self).errors == old(self).errors,
            final(self).pos as int == advance(old(self).tokens@, old(self).pos as int),
    {
        if self.pos < self.tokens.len() {
            self.pos = self.pos + 1;
        }
    }

    fn unexpected_here(&self, expected: TokenType) -> (e: ParseError)
        requires
            self.wf(),
        ensures
            e == unexpected(self.tokens@, self.pos as int, expected),
    {
        ParseError {
            error_type: ParseErrorType::UnexpectedToken { expected, found: self.type_here() },
            line_num: self.line_here(),
        }
    }

    /// Consumes the token at the position and accepts it if it is a
    /// semicolon.
    fn expect_semicolon(&mut self) -> (r: Result<(), ParseError>)
        requires
            old(self).wf(),
        ensures
            final(self).wf(),
            final(self).tokens == old(self).tokens,
            final(self).errors == old(self).errors,
            final(self).pos as int == advance(old(self).tokens@, old(self).pos as int),
            r == semicolon(old(self).tokens@, old(self).pos as int),
    {
        if self.kind_here() == TokenKind::Semicolon {
            self.bump();
            Ok(())
        } else {
            let e = self.unexpected_here(TokenType::Semicolon);
            self.bump();
            Err(e)
        }
    }

    fn parse_primary(&mut self) -> (r: Result<Expression, ParseError>)
        requires
            old(self).wf(),
        ensures
            final(self).wf(),
            final(self).tokens == old(self).tokens,
            final(self).errors == old(self).errors,
            r == primary(old(self).tokens@, old(self).pos as int).result,
            final(self).pos as int == primary(old(self).tokens@, old(self).pos as int).next,
            old(self).pos <= final(self).pos,
            old(self).pos < old(self).tokens.len() ==> old(self).pos < final(self).pos,
            r is Ok ==> old(self).pos < final(self).pos,
        decreases old(self).tokens.len() - old(self).pos, 0int,
    {
        let found = self.type_here();
        let line_num = self.line_here();
        let here = self.pos < self.tokens.len();
        self.bump();
        match found {
            TokenType::True => Ok(Expression::Literal(Literal::True)),
            TokenType::False => Ok(Expression::Literal(Literal::False)),
            TokenType::Nil => Ok(Expression::Literal(Literal::Nil)),
            TokenType::Number(n) => Ok(Expression::Literal(Literal::Number(n))),
            TokenType::String(s) => Ok(Expression::Literal(Literal::String(s))),
            TokenType::Identifier(name) => Ok(Expression::Var(Var { name })),
            TokenType::LeftParen => {
                if here {
                    match self.parse_expr_bp(0) {
                        Err(e) => Err(e),
                        Ok(e) => {
                            if self.kind_here() == TokenKind::RightParen {
                                self.bump();
                                Ok(Expression::Grouping(Grouping { expr: Box::new(e) }))
                            } else {
                                let err = self.unexpected_here(TokenType::RightParen);
                                self.bump();
                                Err(err)
                            }
                        },
                    }
                } else {
                    Err(
                        ParseError {
                            error_type: ParseErrorType::UnexpectedStart { found },
                            line_num,
                        },
                    )
                }
            },
            _ => Err(
                ParseError { error_type: ParseErrorType::UnexpectedStart { found }, line_num },
            ),
        }
    }

    fn parse_head(&mut self) -> (r: Result<Expression, ParseError>)
        requires
            old(self).wf(),
        ensures
            final(self).wf(),
            final(self).tokens == old(self).tokens,
            final(self).errors == old(self).errors,
            r == head(old(self).tokens@, old(self).pos as int).result,
            final(self).pos as int == head(old(self).tokens@, old(self).pos as int).next,
            old(self).pos <= final(self).pos,
            old(self).pos < old(self).tokens.len() ==> old(self).pos < final(self).pos,
            r is Ok ==> old(self).pos < final(self).pos,
        decreases old(self).tokens.len() - old(self).pos, 1int,
    {
        if self.pos < self.tokens.len() {
            match UnaryOperator::try_from(&self.tokens[self.pos]) {
                Ok(operator) => {
                    self.pos = self.pos + 1;
                    match self.parse_expr_bp(PREFIX_BINDING_POWER) {
                        Err(e) => Err(e),
                        Ok(e) => Ok(Expression::Unary(Unary { operator, expr: Box::new(e) })),
                    }
                },
                Err(_) => self.parse_primary(),
            }
        } else {
            self.parse_primary()
        }
    }

    /// Whether the token at the position is an infix operator that binds
    /// tighter than `right_bp`; the operator, if so.
    fn next_operator(&self, right_bp: u8) -> (r: Option<BinaryOperator>)
        requires
            self.wf(),
        ensures
            r is Some == climbs(self.tokens@, self.pos as int, right_bp),
            r is Some ==> r == binary_of(kind_at(self.tokens@, self.pos as int)),
    {
        if self.pos < self.tokens.len() {
            match BinaryOperator::try_from(&self.tokens[self.pos]) {
                Ok(op) => {
                    if infix_binding_power(&op) > right_bp {
                        Some(op)
                    } else {
                        None
                    }
                },
                Err(_) => None,
            }
        } else {
            None
        }
    }

    /// With the operator consumed, parses its right operand and makes the
    /// node of the two.
    fn parse_tail(&mut self, left: Expression, op: BinaryOperator) -> (r: Result<
        Expression,
        ParseError,
    >)
        requires
            old(self).wf(),
            0 < old(self).pos,
        ensures
            final(self).wf(),
            final(self).tokens == old(self).tokens,
            final(self).errors == old(self).errors,
            final(self).pos as int == expr_bp(
                old(self).tokens@,
                old(self).pos as int,
                binding_power(op),
            ).next,
            r == match expr_bp(old(self).tokens@, old(self).pos as int, binding_power(op)).result {
                Ok(right) => Ok::<Expression, ParseError>(combine(op, left, right)),
                Err(e) => Err(e),
            },
            old(self).pos <= final(self).pos,
            r is Ok ==> old(self).pos < final(self).pos,
        decreases old(self).tokens.len() - old(self).pos, 3int,
    {
        let operator_bp = infix_binding_power(&op);
        match self.parse_expr_bp(operator_bp) {
            Err(e) => Err(e),
            Ok(right) => {
                let node = match op {
                    BinaryOperator::Equal => Expression::Assign(
                        Assign { name: Box::new(left), value: Box::new(right) },
                    ),
                    _ => Expression::Binary(
                        Binary { operator: op, left: Box::new(left), right: Box::new(right) },
                    ),
                };
                Ok(node)
            },
        }
    }

    fn parse_expr_bp(&mut self, right_bp: u8) -> (r: Result<Expression, ParseError>)
        requires
            old(self).wf(),
        ensures
            final(self).wf(),
            final(self).tokens == old(self).tokens,
            final(self).errors == old(self).errors,
            r == expr_bp(old(self).tokens@, old(self).pos as int, right_bp).result,
            final(self).pos as int == expr_bp(old(self).tokens@, old(self).pos as int, right_bp).next,
            old(self).pos <= final(self).pos,
            old(self).pos < old(self).tokens.len() ==> old(self).pos < final(self).pos,
            r is Ok ==> old(self).pos < final(self).pos,
        decreases old(self).tokens.len() - old(self).pos, 2int,
    {
        let ghost ts = self.tokens@;
        let ghost start = self.pos as int;
        let mut left = match self.parse_head() {
            Err(e) => {
                return Err(e);
            },
            Ok(e) => e,
        };
        loop
            invariant
                self.wf(),
                self.tokens@ == ts,
                self.tokens == old(self).tokens,
                self.errors == old(self).errors,
                start == old(self).pos,
                start < self.pos,
                expr_bp(ts, start, right_bp) == climb(ts, left, self.pos as int, right_bp),
            decreases self.tokens.len() - self.pos,
        {
            let op = match self.next_operator(right_bp) {
                None => {
                    return Ok(left);
                },
                Some(op) => op,
            };
            self.pos = self.pos + 1;
            left = match self.parse_tail(left, op) {
                Err(e) => {
                    return Err(e);
                },
                Ok(e) => e,
            };
        }
    }

    /// Whether a statement keyword stands at the position.
    fn is_stmt_start(&self) -> (b: bool)
        requires
            self.wf(),
        ensures
            b == (in_range(self.tokens@, self.pos as int) && starts_statement(
                kind_at(self.tokens@, self.pos as int),
            )),
    {
        if self.pos < self.tokens.len() {
            match self.tokens[self.pos].kind() {
                TokenKind::Var | TokenKind::For | TokenKind::If | TokenKind::While
                | TokenKind::Print | TokenKind::Return => true,
                _ => false,
            }
        } else {
            false
        }
    }

    /// Skips to where parsing resumes after an error: to a closing brace,
    /// or behind a semicolon that a statement keyword follows, or behind
    /// the end marker.
    fn synchronize(&mut self)
        requires
            old(self).wf(),
        ensures
            final(self).wf(),
            final(self).tokens == old(self).tokens,
            final(self).errors == old(self).errors,
            final(self).pos as int == synchronize_from(old(self).tokens@, old(self).pos as int),
            old(self).pos <= final(self).pos,
    {
        let ghost ts = self.tokens@;
        let ghost start = self.pos as int;
        loop
            invariant
                self.wf(),
                self.tokens@ == ts,
                self.tokens == old(self).tokens,
                self.errors == old(self).errors,
                start == old(self).pos,
                start <= self.pos,
                synchronize_from(ts, start) == synchronize_from(ts, self.pos as int),
            decreases self.tokens.len() - self.pos,
        {
            if self.pos >= self.tokens.len() {
                return ;
            }
            let kind = self.tokens[self.pos].kind();
            if kind == TokenKind::RightBrace {
                return ;
            }
            self.pos = self.pos + 1;
            match kind {
                TokenKind::Semicolon => {
                    if self.is_stmt_start() {
                        return ;
                    }
                },
                TokenKind::EOF => {
                    return ;
                },
                _ => {},
            }
        }
    }

    /// With the position behind `if` or `while`: the condition.
    fn parse_condition(&mut self) -> (r: Result<Expression, ParseError>)
        requires
            old(self).wf(),
        ensures
            final(self).wf(),
            final(self).tokens == old(self).tokens,
            final(self).errors == old(self).errors,
            r == condition(old(self).tokens@, old(self).pos as int).result,
            final(self).pos as int == condition(old(self).tokens@, old(self).pos as int).next,
            old(self).pos <= final(self).pos,
            r is Ok ==> old(self).pos < final(self).pos,
        decreases old(self).tokens.len() - old(self).pos, 3int,
    {
        if self.kind_here() != TokenKind::LeftParen {
            return Err(self.unexpected_here(TokenType::LeftParen));
        }
        let line_num = self.line_here();
        match self.parse_expr_bp(0) {
            Err(e) => Err(e),
            Ok(Expression::Grouping(g)) => Ok(*g.expr),
            Ok(_) => Err(ParseError { error_type: ParseErrorType::ExpectedCondition, line_num }),
        }
    }

    fn parse_print_stmt(&mut self) -> (r: Result<Stmt, ParseError>)
        requires
            old(self).wf(),
            in_range(old(self).tokens@, old(self).pos as int),
            kind_at(old(self).tokens@, old(self).pos as int) == TokenKind::Print,
        ensures
            final(self).wf(),
            final(self).tokens == old(self).tokens,
            final(self).errors@ == old(self).errors@ + statement(
                old(self).tokens@,
                old(self).pos as int,
            ).errors,
            viewed(r) == statement(old(self).tokens@, old(self).pos as int).result,
            final(self).pos as int == statement(old(self).tokens@, old(self).pos as int).next,
            old(self).pos < final(self).pos,
        decreases old(self).tokens.len() - old(self).pos, 2int,
    {
        self.pos = self.pos + 1;
        match self.parse_expr_bp(0) {
            Err(e) => Err(e),
            Ok(e) => match self.expect_semicolon() {
                Err(err) => Err(err),
                Ok(_) => Ok(Stmt::PrintStmt(e)),
            },
        }
    }

    fn parse_block_stmt(&mut self) -> (r: Result<Stmt, ParseError>)
        requires
            old(self).wf(),
            in_range(old(self).tokens@, old(self).pos as int),
            kind_at(old(self).tokens@, old(self).pos as int) == TokenKind::LeftBrace,
        ensures
            final(self).wf(),
            final(self).tokens == old(self).tokens,
            final(self).errors@ == old(self).errors@ + statement(
                old(self).tokens@,
                old(self).pos as int,
            ).errors,
            viewed(r) == statement(old(self).tokens@, old(self).pos as int).result,
            final(self).pos as int == statement(old(self).tokens@, old(self).pos as int).next,
            old(self).pos < final(self).pos,
        decreases old(self).tokens.len() - old(self).pos, 2int,
    {
        self.pos = self.pos + 1;
        let stmts = self.parse_until(TokenKind::RightBrace);
        proof {
            lemma_block_view(stmts);
        }
        Ok(Stmt::BlockStmt(BlockStmt { stmts }))
    }

    fn parse_if_stmt(&mut self) -> (r: Result<Stmt, ParseError>)
        requires
            old(self).wf(),
            in_range(old(self).tokens@, old(self).pos as int),
            kind_at(old(self).tokens@, old(self).pos as int) == TokenKind::If,
        ensures
            final(self).wf(),
            final(self).tokens == old(self).tokens,
            final(self).errors@ == old(self).errors@ + statement(
                old(self).tokens@,
                old(self).pos as int,
            ).errors,
            viewed(r) == statement(old(self).tokens@, old(self).pos as int).result,
            final(self).pos as int == statement(old(self).tokens@, old(self).pos as int).next,
            old(self).pos < final(self).pos,
        decreases old(self).tokens.len() - old(self).pos, 2int,
    {
        self.pos = self.pos + 1;
        let condition = match self.parse_condition() {
            Err(e) => {
                return Err(e);
            },
            Ok(c) => c,
        };
        let then_branch = match self.parse_stmt() {
            Err(e) => {
                return Err(e);
            },
            Ok(s) => s,
        };
        if self.pos < self.tokens.len() && self.kind_here() == TokenKind::Else {
            self.pos = self.pos + 1;
            match self.parse_stmt() {
                Err(e) => {
                    assert(self.errors@ =~= old(self).errors@ + statement(
                        old(self).tokens@,
                        old(self).pos as int,
                    ).errors);
                    Err(e)
                },
                Ok(else_branch) => {
                    assert(self.errors@ =~= old(self).errors@ + statement(
                        old(self).tokens@,
                        old(self).pos as int,
                    ).errors);
                    Ok(
                        Stmt::IfStmt(
                            IfStmt {
                                condition: Box::new(condition),
                                then_branch: Box::new(then_branch),
                                else_branch: Some(Box::new(else_branch)),
                            },
                        ),
                    )
                },
            }
        } else {
            Ok(
                Stmt::IfStmt(
                    IfStmt {
                        condition: Box::new(condition),
                        then_branch: Box::new(then_branch),
                        else_branch: None,
                    },
                ),
            )
        }
    }

    fn parse_while_stmt(&mut self) -> (r: Result<Stmt, ParseError>)
        requires
            old(self).wf(),
            in_range(old(self).tokens@, old(self).pos as int),
            kind_at(old(self).tokens@, old(self).pos as int) == TokenKind::While,
        ensures
            final(self).wf(),
            final(self).tokens == old(self).tokens,
            final(self).errors@ == old(self).errors@ + statement(
                old(self).tokens@,
                old(self).pos as int,
            ).errors,
            viewed(r) == statement(old(self).tokens@, old(self).pos as int).result,
            final(self).pos as int == statement(old(self).tokens@, old(self).pos as int).next,
            old(self).pos < final(self).pos,
        decreases old(self).tokens.len() - old(self).pos, 2int,
    {
        self.pos = self.pos + 1;
        let condition = match self.parse_condition() {
            Err(e) => {
                return Err(e);
            },
            Ok(c) => c,
        };
        match self.parse_stmt() {
            Err(e) => Err(e),
            Ok(body) => Ok(
                Stmt::WhileStmt(
                    WhileStmt { condition: Box::new(condition), body: Box::new(body) },
                ),
            ),
        }
    }

    fn parse_stmt(&mut self) -> (r: Result<Stmt, ParseError>)
        requires
            old(self).wf(),
        ensures
            final(self).wf(),
            final(self).tokens == old(self).tokens,
            final(self).errors@ == old(self).errors@ + statement(
                old(self).tokens@,
                old(self).pos as int,
            ).errors,
            viewed(r) == statement(old(self).tokens@, old(self).pos as int).result,
            final(self).pos as int == statement(old(self).tokens@, old(self).pos as int).next,
            old(self).pos <= final(self).pos,
            old(self).pos < old(self).tokens.len() ==> old(self).pos < final(self).pos,
        decreases old(self).tokens.len() - old(self).pos, 3int,
    {
        if self.pos < self.tokens.len() {
            match self.tokens[self.pos].kind() {
                TokenKind::Print => {
                    return self.parse_print_stmt();
                },
                TokenKind::LeftBrace => {
                    return self.parse_block_stmt();
                },
                TokenKind::If => {
                    return self.parse_if_stmt();
                },
                TokenKind::While => {
                    return self.parse_while_stmt();
                },
                _ => {},
            }
        }
        match self.parse_expr_bp(0) {
            Err(e) => Err(e),
            Ok(e) => match self.expect_semicolon() {
                Err(err) => Err(err),
                Ok(_) => Ok(Stmt::ExprStmt(e)),
            },
        }
    }

    fn parse_decl(&mut self) -> (r: Result<Stmt, ParseError>)
        requires
            old(self).wf(),
        ensures
            final(self).wf(),
            final(self).tokens == old(self).tokens,
            final(self).errors@ == old(self).errors@ + declaration(
                old(self).tokens@,
                old(self).pos as int,
            ).errors,
            viewed(r) == declaration(old(self).tokens@, old(self).pos as int).result,
            final(self).pos as int == declaration(old(self).tokens@, old(self).pos as int).next,
            old(self).pos <= final(self).pos,
            old(self).pos < old(self).tokens.len() ==> old(self).pos < final(self).pos,
        decreases old(self).tokens.len() - old(self).pos, 4int,
    {
        if !(self.pos < self.tokens.len() && self.kind_here() == TokenKind::Var) {
            return self.parse_stmt();
        }
        self.pos = self.pos + 1;
        let line_num = self.line_here();
        let name = match self.parse_primary() {
            Err(e) => {
                return Err(e);
            },
            Ok(Expression::Var(v)) => v.name,
            Ok(_) => {
                return Err(
                    ParseError { error_type: ParseErrorType::ExpectedVariableName, line_num },
                );
            },
        };
        if self.pos < self.tokens.len() && self.kind_here() == TokenKind::Equal {
            self.pos = self.pos + 1;
            let line_num = self.line_here();
            match self.parse_stmt() {
                Err(e) => Err(e),
                Ok(Stmt::ExprStmt(e)) => Ok(
                    Stmt::VarDecl(VarDecl { name, initializer: Some(Box::new(e)) }),
                ),
                Ok(_) => Err(
                    ParseError { error_type: ParseErrorType::ExpectedExpression, line_num },
                ),
            }
        } else {
            match self.expect_semicolon() {
                Err(e) => Err(e),
                Ok(_) => Ok(Stmt::VarDecl(VarDecl { name, initializer: None })),
            }
        }
    }

    /// Parses declarations up to a token of shape `until`, which it
    /// consumes, or to the end of the tokens.
    fn parse_until(&mut self, until: TokenKind) -> (stmts: Vec<Stmt>)
        requires
            old(self).wf(),
        ensures
            final(self).wf(),
            final(self).tokens == old(self).tokens,
            final(self).errors@ == old(self).errors@ + statements_until(
                old(self).tokens@,
                old(self).pos as int,
                until,
            ).errors,
            stmts_view(stmts@) == statements_until(
                old(self).tokens@,
                old(self).pos as int,
                until,
            ).stmts,
            final(self).pos as int == statements_until(
                old(self).tokens@,
                old(self).pos as int,
                until,
            ).next,
            old(self).pos <= final(self).pos,
            old(self).pos < old(self).tokens.len() ==> old(self).pos < final(self).pos,
        decreases old(self).tokens.len() - old(self).pos, 5int,
    {
        let ghost ts = self.tokens@;
        let ghost start = self.pos as int;
        let ghost target = statements_until(ts, start, until);
        let mut stmts: Vec<Stmt> = Vec::new();
        assert(stmts_view(stmts@) + target.stmts =~= target.stmts);
        assert(self.errors@ + target.errors =~= old(self).errors@ + target.errors);
        while self.pos < self.tokens.len() && self.kind_here() != until
            invariant
                self.wf(),
                self.tokens@ == ts,
                self.tokens == old(self).tokens,
                start == old(self).pos,
                start <= self.pos,
                target == statements_until(ts, start, until),
                target.stmts == stmts_view(stmts@) + statements_until(
                    ts,
                    self.pos as int,
                    until,
                ).stmts,
                old(self).errors@ + target.errors == self.errors@ + statements_until(
                    ts,
                    self.pos as int,
                    until,
                ).errors,
                target.next == statements_until(ts, self.pos as int, until).next,
            decreases self.tokens.len() - self.pos,
        {
            let ghost at = self.pos as int;
            let ghost before = self.errors@;
            let ghost parsed = stmts_view(stmts@);
            let ghost first = declaration(ts, at);
            let ghost here = statements_until(ts, at, until);
            match self.parse_decl() {
                Ok(stmt) => {
                    stmts.push(stmt);
                    proof {
                        let rest = statements_until(ts, self.pos as int, until);
                        assert(stmts_view(stmts@) =~= parsed + seq![stmt@]);
                        assert(here.stmts == seq![stmt@] + rest.stmts);
                        assert(parsed + (seq![stmt@] + rest.stmts) =~= (parsed + seq![stmt@])
                            + rest.stmts);
                        assert(before + (first.errors + rest.errors) =~= (before + first.errors)
                            + rest.errors);
                    }
                },
                Err(err) => {
                    self.errors.push(err);
                    self.synchronize();
                    proof {
                        let rest = statements_until(ts, self.pos as int, until);
                        assert(here.stmts == rest.stmts);
                        assert(before + (first.errors + seq![err] + rest.errors) =~= ((before
                            + first.errors).push(err)) + rest.errors);
                    }
                },
            }
        }
        if self.pos < self.tokens.len() {
            self.pos = self.pos + 1;
        }
        proof {
            assert(stmts_view(stmts@) + Seq::<StmtView>::empty() =~= stmts_view(stmts@));
            assert(self.errors@ + Seq::<ParseError>::empty() =~= self.errors@);
        }
        stmts
    }

    /// Parses the tokens from the position on, to the end marker. It gives
    /// the statements if no error is on record at the end, and every
    /// recorded error otherwise. For a parser that was just made, that is
    /// the whole program.
    pub fn parse(self) -> (r: Result<Vec<Stmt>, Vec<ParseError>>)
        requires
            self.wf(),
        ensures
            match r {
                Ok(stmts) => self.recorded().len() == 0 && statements_until(
                    self.tokens(),
                    self.position(),
                    TokenKind::EOF,
                ).errors.len() == 0 && stmts_view(stmts@) == statements_until(
                    self.tokens(),
                    self.position(),
                    TokenKind::EOF,
                ).stmts,
                Err(errors) => errors@.len() > 0 && errors@ == self.recorded() + statements_until(
                    self.tokens(),
                    self.position(),
                    TokenKind::EOF,
                ).errors,
            },
    {
        let mut parser = self;
        let parsed = parser.parse_until(TokenKind::EOF);
        if parser.errors.len() == 0 {
            Ok(parsed)
        } else {
            Err(parser.errors)
        }
    }

    /// Parses one expression at the position.
    pub fn parse_expr(&mut self) -> (r: Result<Expression, ParseError>)
        requires
            old(self).wf(),
        ensures
            final(self).wf(),
            final(self).tokens() == old(self).tokens(),
            final(self).recorded() == old(self).recorded(),
            r == expr(old(self).tokens(), old(self).position()).result,
            final(self).position() == expr(old(self).tokens(), old(self).position()).next,
    {
        self.parse_expr_bp(0)
    }
}

} // verus!
