//! Statements: the nodes of the syntax tree that are run for their effect.
use vstd::prelude::*;
use crate::expression::Expression;

verus! {

#[derive(Debug)]
pub enum Stmt {
    ExprStmt(Expression),
    PrintStmt(Expression),
    VarDecl(VarDecl),
    BlockStmt(BlockStmt),
    IfStmt(IfStmt),
    WhileStmt(WhileStmt),
}

#[derive(Debug)]
pub struct VarDecl {
    pub name: String,
    pub initializer: Option<Box<Expression>>,
}

#[derive(Debug)]
pub struct BlockStmt {
    pub stmts: Vec<Stmt>,
}

#[derive(Debug)]
pub struct IfStmt {
    pub condition: Box<Expression>,
    pub then_branch: Box<Stmt>,
    pub else_branch: Option<Box<Stmt>>,
}

#[derive(Debug)]
pub struct WhileStmt {
    pub condition: Box<Expression>,
    pub body: Box<Stmt>,
}

/// A statement as a mathematical tree: a block holds a sequence.
pub enum StmtView {
    ExprStmt(Expression),
    PrintStmt(Expression),
    VarDecl { name: String, initializer: Option<Expression> },
    BlockStmt(Seq<StmtView>),
    IfStmt { condition: Expression, then_branch: Box<StmtView>, else_branch: Option<Box<StmtView>> },
    WhileStmt { condition: Expression, body: Box<StmtView> },
}

/// The statement as a mathematical tree.
pub open spec fn stmt_view(stmt: Stmt) -> StmtView
    decreases stmt,
{
    match stmt {
        Stmt::ExprStmt(e) => StmtView::ExprStmt(e),
        Stmt::PrintStmt(e) => StmtView::PrintStmt(e),
        Stmt::VarDecl(d) => StmtView::VarDecl {
            name: d.name,
            initializer: match d.initializer {
                Some(e) => Some(*e),
                None => None,
            },
        },
        Stmt::BlockStmt(b) => StmtView::BlockStmt(
            Seq::new(
                b.stmts.len() as nat,
                |i: int|
                    if 0 <= i < b.stmts.len() {
                        stmt_view(b.stmts[i])
                    } else {
                        StmtView::BlockStmt(Seq::empty())
                    },
            ),
        ),
        Stmt::IfStmt(s) => StmtView::IfStmt {
            condition: *s.condition,
            then_branch: Box::new(stmt_view(*s.then_branch)),
            else_branch: match s.else_branch {
                Some(e) => Some(Box::new(stmt_view(*e))),
                None => None,
            },
        },
        Stmt::WhileStmt(s) => StmtView::WhileStmt {
            condition: *s.condition,
            body: Box::new(stmt_view(*s.body)),
        },
    }
}

impl View for Stmt {
    type V = StmtView;

    open spec fn view(&self) -> StmtView {
        stmt_view(*self)
    }
}

/// The statements of a list, each as a mathematical tree.
pub open spec fn stmts_view(stmts: Seq<Stmt>) -> Seq<StmtView> {
    Seq::new(stmts.len(), |i: int| stmts[i]@)
}

impl From<VarDecl> for Stmt {
    fn from(value: VarDecl) -> (s: Stmt) {
        Stmt::VarDecl(value)
    }
}

impl vstd::std_specs::convert::FromSpecImpl<VarDecl> for Stmt {
    open spec fn obeys_from_spec() -> bool {
        true
    }

    open spec fn from_spec(value: VarDecl) -> Stmt {
        Stmt::VarDecl(value)
    }
}

impl From<BlockStmt> for Stmt {
    fn from(value: BlockStmt) -> (s: Stmt) {
        Stmt::BlockStmt(value)
    }
}

impl vstd::std_specs::convert::FromSpecImpl<BlockStmt> for Stmt {
    open spec fn obeys_from_spec() -> bool {
        true
    }

    open spec fn from_spec(value: BlockStmt) -> Stmt {
        Stmt::BlockStmt(value)
    }
}

impl From<IfStmt> for Stmt {
    fn from(value: IfStmt) -> (s: Stmt) {
        Stmt::IfStmt(value)
    }
}

impl vstd::std_specs::convert::FromSpecImpl<IfStmt> for Stmt {
    open spec fn obeys_from_spec() -> bool {
        true
    }

    open spec fn from_spec(value: IfStmt) -> Stmt {
        Stmt::IfStmt(value)
    }
}

impl From<WhileStmt> for Stmt {
    fn from(value: WhileStmt) -> (s: Stmt) {
        Stmt::WhileStmt(value)
    }
}

impl vstd::std_specs::convert::FromSpecImpl<WhileStmt> for Stmt {
    open spec fn obeys_from_spec() -> bool {
        true
    }

    open spec fn from_spec(value: WhileStmt) -> Stmt {
        Stmt::WhileStmt(value)
    }
}

} // verus!
