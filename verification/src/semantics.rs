//! What programs mean: the value of an expression and the effect of a
//! statement, as mathematical functions of the scopes they run in.
//!
//! Numbers come from a mathematical kernel `num`. A loop may run for ever,
//! so the meaning of a statement takes a bound on the rounds of each loop:
//! with `fuel` rounds allowed, a body runs with one round less.
use vstd::prelude::*;
use crate::environment::{
    assigned, defined, defining_scope, lemma_assignment_reaches_outer_scope, lemma_defining_scope,
    lemma_inner_definition_does_not_leak, lookup, no_bindings, Frames,
};
use crate::error::{RuntimeError, RuntimeErrorKind};
use crate::expression::{Assign, Binary, Expression, Literal, Var};
use crate::grammar::well_shaped;
use crate::number::{negated, Arithmetic, QueryView};
use crate::operator::{BinaryOperator, UnaryOperator};
use crate::statement::{BlockStmt, Stmt, VarDecl, WhileStmt};
use crate::value::{applied, computed, truthy, ValueView};

verus! {

/// An expression's outcome: its value or the error, and the scopes after it.
pub struct Evaluated {
    pub result: Result<ValueView, RuntimeError>,
    pub frames: Frames,
}

/// A statement's outcome: whether it failed, the scopes after it, and
/// everything printed so far.
pub struct Executed {
    pub result: Result<(), RuntimeError>,
    pub frames: Frames,
    pub output: Seq<ValueView>,
}

pub open spec fn failure(kind: RuntimeErrorKind) -> RuntimeError {
    RuntimeError { kind }
}

/// The value of a literal. The kernel reads a number's text.
pub open spec fn literal_value(num: Arithmetic, literal: Literal) -> Result<
    ValueView,
    RuntimeError,
> {
    match literal {
        Literal::Number(text) => computed(num(QueryView::Parse(text@))),
        Literal::String(s) => Ok(ValueView::String(s@)),
        Literal::True => Ok(ValueView::Bool(true)),
        Literal::False => Ok(ValueView::Bool(false)),
        Literal::Nil => Ok(ValueView::Nil),
    }
}

/// What a prefix operator makes of a value: `-` changes the sign of a
/// number and takes nothing else; `!` gives the opposite of the value's
/// truthiness.
pub open spec fn prefixed(op: UnaryOperator, v: ValueView) -> Result<ValueView, RuntimeError> {
    match op {
        UnaryOperator::Minus => match v {
            ValueView::Number(n) => Ok(ValueView::Number(negated(n))),
            _ => Err(failure(RuntimeErrorKind::ExpectedNumber)),
        },
        UnaryOperator::Not => Ok(ValueView::Bool(!truthy(v))),
    }
}

/// Whether the left operand decides an infix expression, so that the right
/// one is not evaluated: a truthy one for `or`, a falsy one for `and`.
pub open spec fn short_circuits(op: BinaryOperator, left: ValueView) -> bool {
    (op == BinaryOperator::Or && truthy(left)) || (op == BinaryOperator::And && !truthy(left))
}

/// The value of an expression in the given scopes, and the scopes after
/// the assignments in it.
///
/// Operands are evaluated from left to right. `and` and `or` give the
/// left operand where it decides, and else the right one. An assignment
/// evaluates its right side, then requires a variable as its target,
/// binds it anew in the innermost scope that binds it, and gives the
/// value that the variable held before.
pub open spec fn evaluated(num: Arithmetic, e: Expression, frames: Frames) -> Evaluated
    decreases e,
{
    match e {
        Expression::Literal(l) => Evaluated { result: literal_value(num, l), frames },
        Expression::Unary(u) => {
            let operand = evaluated(num, *u.expr, frames);
            match operand.result {
                Err(_) => operand,
                Ok(v) => Evaluated { result: prefixed(u.operator, v), frames: operand.frames },
            }
        },
        Expression::Binary(b) => {
            let left = evaluated(num, *b.left, frames);
            match left.result {
                Err(_) => left,
                Ok(l) => if short_circuits(b.operator, l) {
                    left
                } else {
                    let right = evaluated(num, *b.right, left.frames);
                    if b.operator == BinaryOperator::Or || b.operator == BinaryOperator::And {
                        right
                    } else {
                        match right.result {
                            Err(_) => right,
                            Ok(r) => Evaluated {
                                result: applied(num, b.operator, l, r),
                                frames: right.frames,
                            },
                        }
                    }
                },
            }
        },
        Expression::Grouping(g) => evaluated(num, *g.expr, frames),
        Expression::Var(v) => Evaluated {
            result: match lookup(frames, v.name@) {
                Some(x) => Ok(x),
                None => Err(failure(RuntimeErrorKind::UndefinedVariable { name: v.name })),
            },
            frames,
        },
        Expression::Assign(a) => {
            let value = evaluated(num, *a.value, frames);
            match value.result {
                Err(_) => value,
                Ok(v) => match *a.name {
                    Expression::Var(target) => match assigned(value.frames, target.name@, v) {
                        Some(after) => Evaluated {
                            result: Ok(lookup(value.frames, target.name@)->0),
                            frames: after,
                        },
                        None => Evaluated {
                            result: Err(
                                failure(
                                    RuntimeErrorKind::UndefinedAssignment { name: target.name },
                                ),
                            ),
                            frames: value.frames,
                        },
                    },
                    _ => Evaluated {
                        result: Err(failure(RuntimeErrorKind::InvalidAssignmentTarget)),
                        frames: value.frames,
                    },
                },
            }
        },
    }
}

/// The effect of a statement.
///
/// A declaration binds its name in the innermost scope, to `nil` where it
/// has no initializer. A block runs in a scope of its own, which is left
/// again whether the block fails or not. A statement that fails ends
/// there: what it did before stays done.
pub open spec fn executed(
    num: Arithmetic,
    s: Stmt,
    frames: Frames,
    output: Seq<ValueView>,
    fuel: nat,
) -> Executed
    decreases fuel, s, 0nat,
{
    match s {
        Stmt::ExprStmt(e) => {
            let v = evaluated(num, e, frames);
            match v.result {
                Err(err) => Executed { result: Err(err), frames: v.frames, output },
                Ok(_) => Executed { result: Ok(()), frames: v.frames, output },
            }
        },
        Stmt::PrintStmt(e) => {
            let v = evaluated(num, e, frames);
            match v.result {
                Err(err) => Executed { result: Err(err), frames: v.frames, output },
                Ok(x) => Executed { result: Ok(()), frames: v.frames, output: output.push(x) },
            }
        },
        Stmt::VarDecl(d) => match d.initializer {
            None => Executed {
                result: Ok(()),
                frames: defined(frames, d.name@, ValueView::Nil),
                output,
            },
            Some(e) => {
                let v = evaluated(num, *e, frames);
                match v.result {
                    Err(err) => Executed { result: Err(err), frames: v.frames, output },
                    Ok(x) => Executed {
                        result: Ok(()),
                        frames: defined(v.frames, d.name@, x),
                        output,
                    },
                }
            },
        },
        Stmt::BlockStmt(b) => {
            let inner = executed_list(num, b, 0, frames.push(no_bindings()), output, fuel);
            Executed { result: inner.result, frames: inner.frames.drop_last(), output: inner.output }
        },
        Stmt::IfStmt(i) => {
            let c = evaluated(num, *i.condition, frames);
            match c.result {
                Err(err) => Executed { result: Err(err), frames: c.frames, output },
                Ok(x) => if truthy(x) {
                    executed(num, *i.then_branch, c.frames, output, fuel)
                } else {
                    match i.else_branch {
                        Some(other) => executed(num, *other, c.frames, output, fuel),
                        None => Executed { result: Ok(()), frames: c.frames, output },
                    }
                },
            }
        },
        Stmt::WhileStmt(w) => looped(num, w, frames, output, fuel),
    }
}

/// The effect of a block's statements from the one at `from` on, in
/// order, up to the first that fails.
pub open spec fn executed_list(
    num: Arithmetic,
    b: BlockStmt,
    from: nat,
    frames: Frames,
    output: Seq<ValueView>,
    fuel: nat,
) -> Executed
    decreases fuel, b, b.stmts.len() - from,
{
    if from >= b.stmts.len() {
        Executed { result: Ok(()), frames, output }
    } else {
        let first = executed(num, b.stmts[from as int], frames, output, fuel);
        match first.result {
            Err(_) => first,
            Ok(_) => executed_list(num, b, from + 1, first.frames, first.output, fuel),
        }
    }
}

/// The effect of a loop: the condition is evaluated anew before each
/// round, and the loop ends when it is falsy. A round that the bound does
/// not allow is an error.
pub open spec fn looped(
    num: Arithmetic,
    w: WhileStmt,
    frames: Frames,
    output: Seq<ValueView>,
    fuel: nat,
) -> Executed
    decreases fuel, w, 0nat,
{
    let c = evaluated(num, *w.condition, frames);
    match c.result {
        Err(err) => Executed { result: Err(err), frames: c.frames, output },
        Ok(x) => if !truthy(x) {
            Executed { result: Ok(()), frames: c.frames, output }
        } else if fuel == 0 {
            Executed {
                result: Err(failure(RuntimeErrorKind::StepLimit)),
                frames: c.frames,
                output,
            }
        } else {
            let body = executed(num, *w.body, c.frames, output, (fuel - 1) as nat);
            match body.result {
                Err(_) => body,
                Ok(_) => looped(num, w, body.frames, body.output, (fuel - 1) as nat),
            }
        },
    }
}

/// `and` with a falsy left operand gives that operand and does not
/// evaluate the right one: whatever stands there, it raises no error and
/// changes no scope.
pub proof fn lemma_and_short_circuits(
    num: Arithmetic,
    left: Expression,
    right: Expression,
    frames: Frames,
)
    requires
        evaluated(num, left, frames).result is Ok,
        !truthy(evaluated(num, left, frames).result->Ok_0),
    ensures
        evaluated(
            num,
            Expression::Binary(
                Binary { operator: BinaryOperator::And, left: Box::new(left), right: Box::new(right) },
            ),
            frames,
        ) == evaluated(num, left, frames),
{
}

/// `or` with a truthy left operand gives that operand and does not
/// evaluate the right one.
pub proof fn lemma_or_short_circuits(
    num: Arithmetic,
    left: Expression,
    right: Expression,
    frames: Frames,
)
    requires
        evaluated(num, left, frames).result is Ok,
        truthy(evaluated(num, left, frames).result->Ok_0),
    ensures
        evaluated(
            num,
            Expression::Binary(
                Binary { operator: BinaryOperator::Or, left: Box::new(left), right: Box::new(right) },
            ),
            frames,
        ) == evaluated(num, left, frames),
{
}

/// `==` between values of different types is `false`, whatever the
/// values.
pub proof fn lemma_cross_type_equality_is_false(num: Arithmetic, l: ValueView, r: ValueView)
    requires
        (l is String && !(r is String)) || (l is Number && !(r is Number)) || (l is Bool && !(
        r is Bool)) || (l is Nil && !(r is Nil)),
    ensures
        applied(num, BinaryOperator::EqualEqual, l, r) == Ok::<ValueView, RuntimeError>(
            ValueView::Bool(false),
        ),
{
}

/// An expression leaves the number of scopes as it was.
pub proof fn lemma_evaluation_keeps_depth(num: Arithmetic, e: Expression, frames: Frames)
    ensures
        evaluated(num, e, frames).frames.len() == frames.len(),
    decreases e,
{
    match e {
        Expression::Literal(l) => {},
        Expression::Unary(u) => {
            lemma_evaluation_keeps_depth(num, *u.expr, frames);
        },
        Expression::Binary(b) => {
            lemma_evaluation_keeps_depth(num, *b.left, frames);
            lemma_evaluation_keeps_depth(num, *b.right, evaluated(num, *b.left, frames).frames);
        },
        Expression::Grouping(g) => {
            lemma_evaluation_keeps_depth(num, *g.expr, frames);
        },
        Expression::Var(v) => {},
        Expression::Assign(a) => {
            lemma_evaluation_keeps_depth(num, *a.value, frames);
            match *a.name {
                Expression::Var(target) => {
                    lemma_defining_scope(evaluated(num, *a.value, frames).frames, target.name@);
                },
                _ => {},
            }
        },
    }
}

/// A statement leaves the number of scopes as it was, whether it fails or
/// not: every scope that a block enters is left again.
pub proof fn lemma_execution_keeps_depth(
    num: Arithmetic,
    s: Stmt,
    frames: Frames,
    output: Seq<ValueView>,
    fuel: nat,
)
    requires
        frames.len() >= 1,
    ensures
        executed(num, s, frames, output, fuel).frames.len() == frames.len(),
    decreases fuel, s, 0nat,
{
    match s {
        Stmt::ExprStmt(e) => {
            lemma_evaluation_keeps_depth(num, e, frames);
        },
        Stmt::PrintStmt(e) => {
            lemma_evaluation_keeps_depth(num, e, frames);
        },
        Stmt::VarDecl(d) => {
            match d.initializer {
                None => {},
                Some(e) => {
                    lemma_evaluation_keeps_depth(num, *e, frames);
                },
            }
        },
        Stmt::BlockStmt(b) => {
            lemma_list_keeps_depth(num, b, 0, frames.push(no_bindings()), output, fuel);
        },
        Stmt::IfStmt(i) => {
            lemma_evaluation_keeps_depth(num, *i.condition, frames);
            let c = evaluated(num, *i.condition, frames);
            match c.result {
                Err(_) => {},
                Ok(x) => {
                    if truthy(x) {
                        lemma_execution_keeps_depth(num, *i.then_branch, c.frames, output, fuel);
                    } else {
                        match i.else_branch {
                            Some(other) => {
                                lemma_execution_keeps_depth(num, *other, c.frames, output, fuel);
                            },
                            None => {},
                        }
                    }
                },
            }
        },
        Stmt::WhileStmt(w) => {
            lemma_loop_keeps_depth(num, w, frames, output, fuel);
        },
    }
}

/// The statements of a block leave the number of scopes as it was.
pub proof fn lemma_list_keeps_depth(
    num: Arithmetic,
    b: BlockStmt,
    from: nat,
    frames: Frames,
    output: Seq<ValueView>,
    fuel: nat,
)
    requires
        frames.len() >= 1,
    ensures
        executed_list(num, b, from, frames, output, fuel).frames.len() == frames.len(),
    decreases fuel, b, b.stmts.len() - from,
{
    if from < b.stmts.len() {
        lemma_execution_keeps_depth(num, b.stmts[from as int], frames, output, fuel);
        let first = executed(num, b.stmts[from as int], frames, output, fuel);
        match first.result {
            Err(_) => {},
            Ok(_) => {
                lemma_list_keeps_depth(num, b, from + 1, first.frames, first.output, fuel);
            },
        }
    }
}

/// A loop leaves the number of scopes as it was.
pub proof fn lemma_loop_keeps_depth(
    num: Arithmetic,
    w: WhileStmt,
    frames: Frames,
    output: Seq<ValueView>,
    fuel: nat,
)
    requires
        frames.len() >= 1,
    ensures
        looped(num, w, frames, output, fuel).frames.len() == frames.len(),
    decreases fuel, w, 0nat,
{
    lemma_evaluation_keeps_depth(num, *w.condition, frames);
    let c = evaluated(num, *w.condition, frames);
    match c.result {
        Err(_) => {},
        Ok(x) => {
            if truthy(x) && fuel > 0 {
                lemma_execution_keeps_depth(num, *w.body, c.frames, output, (fuel - 1) as nat);
                let body = executed(num, *w.body, c.frames, output, (fuel - 1) as nat);
                match body.result {
                    Err(_) => {},
                    Ok(_) => {
                        lemma_loop_keeps_depth(
                            num,
                            w,
                            body.frames,
                            body.output,
                            (fuel - 1) as nat,
                        );
                    },
                }
            }
        },
    }
}

/// A declaration inside a block does not leak: after a block that holds
/// one declaration, whose initializer succeeds and assigns nothing, the
/// scopes are as they were before the block, whatever they bound the name
/// to.
pub proof fn lemma_block_declaration_is_local(
    num: Arithmetic,
    b: BlockStmt,
    d: VarDecl,
    init: Expression,
    frames: Frames,
    output: Seq<ValueView>,
    fuel: nat,
)
    requires
        frames.len() >= 1,
        b.stmts@.len() == 1,
        b.stmts@[0] == Stmt::VarDecl(d),
        d.initializer == Some(Box::new(init)),
        evaluated(num, init, frames.push(no_bindings())).result is Ok,
        evaluated(num, init, frames.push(no_bindings())).frames == frames.push(no_bindings()),
    ensures
        executed(num, Stmt::BlockStmt(b), frames, output, fuel) == (Executed {
            result: Ok(()),
            frames,
            output,
        }),
{
    let entered = frames.push(no_bindings());
    let v = evaluated(num, init, entered).result->Ok_0;
    lemma_inner_definition_does_not_leak(frames, d.name@, v);
    let first = executed(num, b.stmts[0], entered, output, fuel);
    assert(first.frames == defined(entered, d.name@, v));
    assert(executed_list(num, b, 1, first.frames, first.output, fuel) == (Executed {
        result: Ok(()),
        frames: first.frames,
        output: first.output,
    }));
    assert(executed_list(num, b, 0, entered, output, fuel) == executed_list(
        num,
        b,
        1,
        first.frames,
        first.output,
        fuel,
    ));
}

/// An assignment inside a block reaches the scope outside that binds the
/// name: after a block that holds one assignment to a name bound outside,
/// whose right side succeeds and assigns nothing, the name holds the new
/// value, in the scope that bound it before.
pub proof fn lemma_block_assignment_reaches_outside(
    num: Arithmetic,
    b: BlockStmt,
    target: Var,
    value: Expression,
    frames: Frames,
    output: Seq<ValueView>,
    fuel: nat,
)
    requires
        frames.len() >= 1,
        b.stmts@.len() == 1,
        b.stmts@[0] == Stmt::ExprStmt(
            Expression::Assign(
                Assign { name: Box::new(Expression::Var(target)), value: Box::new(value) },
            ),
        ),
        lookup(frames, target.name@) is Some,
        evaluated(num, value, frames.push(no_bindings())).result is Ok,
        evaluated(num, value, frames.push(no_bindings())).frames == frames.push(no_bindings()),
    ensures
        executed(num, Stmt::BlockStmt(b), frames, output, fuel).result is Ok,
        assigned(
            frames,
            target.name@,
            evaluated(num, value, frames.push(no_bindings())).result->Ok_0,
        ) == Some(executed(num, Stmt::BlockStmt(b), frames, output, fuel).frames),
        lookup(executed(num, Stmt::BlockStmt(b), frames, output, fuel).frames, target.name@)
            == Some(evaluated(num, value, frames.push(no_bindings())).result->Ok_0),
        executed(num, Stmt::BlockStmt(b), frames, output, fuel).output == output,
{
    let entered = frames.push(no_bindings());
    let v = evaluated(num, value, entered).result->Ok_0;
    lemma_assignment_reaches_outer_scope(frames, target.name@, v);
    let assignment = Expression::Assign(
        Assign { name: Box::new(Expression::Var(target)), value: Box::new(value) },
    );
    let after = evaluated(num, assignment, entered);
    assert(after.frames == assigned(entered, target.name@, v)->0);
    assert(after.result is Ok);
    let first = executed(num, b.stmts[0], entered, output, fuel);
    assert(first == (Executed { result: Ok(()), frames: after.frames, output }));
    assert(executed_list(num, b, 1, first.frames, first.output, fuel) == first);
    assert(executed_list(num, b, 0, entered, output, fuel) == executed_list(
        num,
        b,
        1,
        first.frames,
        first.output,
        fuel,
    ));
}

/// Whether an assignment to the name stands anywhere in the expression.
pub open spec fn assigns(e: Expression, name: Seq<char>) -> bool
    decreases e,
{
    match e {
        Expression::Literal(_) => false,
        Expression::Var(_) => false,
        Expression::Unary(u) => assigns(*u.expr, name),
        Expression::Binary(b) => assigns(*b.left, name) || assigns(*b.right, name),
        Expression::Grouping(g) => assigns(*g.expr, name),
        Expression::Assign(a) => assigns(*a.value, name) || match *a.name {
            Expression::Var(target) => target.name@ == name,
            _ => false,
        },
    }
}

/// Whether an assignment to the name stands anywhere in the statement.
pub open spec fn stmt_assigns(s: Stmt, name: Seq<char>) -> bool
    decreases s, 0nat,
{
    match s {
        Stmt::ExprStmt(e) => assigns(e, name),
        Stmt::PrintStmt(e) => assigns(e, name),
        Stmt::VarDecl(d) => match d.initializer {
            Some(e) => assigns(*e, name),
            None => false,
        },
        Stmt::BlockStmt(b) => list_assigns(b, 0, name),
        Stmt::IfStmt(i) => assigns(*i.condition, name) || stmt_assigns(*i.then_branch, name)
            || match i.else_branch {
            Some(other) => stmt_assigns(*other, name),
            None => false,
        },
        Stmt::WhileStmt(w) => assigns(*w.condition, name) || stmt_assigns(*w.body, name),
    }
}

/// Whether an assignment to the name stands anywhere in the statements of
/// the block from the one at `from` on.
pub open spec fn list_assigns(b: BlockStmt, from: nat, name: Seq<char>) -> bool
    decreases b, b.stmts.len() - from,
{
    if from >= b.stmts.len() {
        false
    } else {
        stmt_assigns(b.stmts[from as int], name) || list_assigns(b, from + 1, name)
    }
}

/// Whether the scopes below `below` are, for the name, after what they
/// were before: each binds the name after if and only if it did before,
/// and, where `value_too` holds, to the same value. The number of scopes
/// is the same.
pub open spec fn keeps(
    before: Frames,
    after: Frames,
    below: int,
    name: Seq<char>,
    value_too: bool,
) -> bool {
    &&& after.len() == before.len()
    &&& forall|i: int|
        0 <= i < below ==> (#[trigger] after[i]).contains_key(name) == before[i].contains_key(name)
    &&& value_too ==> forall|i: int|
        0 <= i < below && before[i].contains_key(name) ==> (#[trigger] after[i])[name]
            == before[i][name]
}

/// What is kept over two steps is kept over both.
pub proof fn lemma_keeps_chain(
    a: Frames,
    b: Frames,
    c: Frames,
    below: int,
    name: Seq<char>,
    first: bool,
    second: bool,
)
    requires
        keeps(a, b, below, name, first),
        keeps(b, c, below, name, second),
    ensures
        keeps(a, c, below, name, first && second),
{
    assert forall|i: int| 0 <= i < below implies (#[trigger] c[i]).contains_key(name)
        == a[i].contains_key(name) by {
        assert(c[i].contains_key(name) == b[i].contains_key(name));
        assert(b[i].contains_key(name) == a[i].contains_key(name));
    }
    if first && second {
        assert forall|i: int| 0 <= i < below && a[i].contains_key(name) implies (
        #[trigger] c[i])[name] == a[i][name] by {
            assert(b[i].contains_key(name) == a[i].contains_key(name));
            assert(c[i][name] == b[i][name]);
            assert(b[i][name] == a[i][name]);
        }
    }
}

/// An expression binds no name anew and unbinds none, in any scope, and
/// changes the value of no name that it does not assign to.
pub proof fn lemma_evaluation_keeps_names(
    num: Arithmetic,
    e: Expression,
    frames: Frames,
    name: Seq<char>,
)
    ensures
        keeps(frames, evaluated(num, e, frames).frames, frames.len() as int, name, !assigns(e, name)),
    decreases e,
{
    let n = frames.len() as int;
    match e {
        Expression::Literal(l) => {},
        Expression::Var(v) => {},
        Expression::Unary(u) => {
            lemma_evaluation_keeps_names(num, *u.expr, frames, name);
        },
        Expression::Grouping(g) => {
            lemma_evaluation_keeps_names(num, *g.expr, frames, name);
        },
        Expression::Binary(b) => {
            lemma_evaluation_keeps_names(num, *b.left, frames, name);
            let left = evaluated(num, *b.left, frames);
            lemma_evaluation_keeps_names(num, *b.right, left.frames, name);
            let right = evaluated(num, *b.right, left.frames);
            lemma_keeps_chain(
                frames,
                left.frames,
                right.frames,
                n,
                name,
                !assigns(*b.left, name),
                !assigns(*b.right, name),
            );
        },
        Expression::Assign(a) => {
            lemma_evaluation_keeps_names(num, *a.value, frames, name);
            let value = evaluated(num, *a.value, frames);
            match value.result {
                Err(_) => {},
                Ok(v) => {
                    match *a.name {
                        Expression::Var(target) => {
                            lemma_defining_scope(value.frames, target.name@);
                            match assigned(value.frames, target.name@, v) {
                                Some(after) => {
                                    let at = defining_scope(value.frames, target.name@)->0;
                                    assert(keeps(value.frames, after, n, name, target.name@ != name))
                                        by {
                                        assert forall|i: int| 0 <= i < n implies (
                                        #[trigger] after[i]).contains_key(name)
                                            == value.frames[i].contains_key(name) by {
                                            if i != at {
                                                assert(after[i] == value.frames[i]);
                                            }
                                        }
                                        if target.name@ != name {
                                            assert forall|i: int|
                                                0 <= i < n && value.frames[i].contains_key(
                                                    name,
                                                ) implies (#[trigger] after[i])[name]
                                                == value.frames[i][name] by {
                                                if i != at {
                                                    assert(after[i] == value.frames[i]);
                                                }
                                            }
                                        }
                                    }
                                    lemma_keeps_chain(
                                        frames,
                                        value.frames,
                                        after,
                                        n,
                                        name,
                                        !assigns(*a.value, name),
                                        target.name@ != name,
                                    );
                                },
                                None => {},
                            }
                        },
                        _ => {},
                    }
                },
            }
        },
    }
}

/// A statement binds no name anew and unbinds none in the scopes below the
/// innermost, and changes there the value of no name that it does not
/// assign to. A block does so in the innermost scope too: what it declares
/// is gone when it ends.
pub proof fn lemma_execution_keeps_names(
    num: Arithmetic,
    s: Stmt,
    frames: Frames,
    output: Seq<ValueView>,
    fuel: nat,
    name: Seq<char>,
)
    requires
        frames.len() >= 1,
    ensures
        keeps(
            frames,
            executed(num, s, frames, output, fuel).frames,
            frames.len() - 1,
            name,
            !stmt_assigns(s, name),
        ),
        s is BlockStmt ==> keeps(
            frames,
            executed(num, s, frames, output, fuel).frames,
            frames.len() as int,
            name,
            !stmt_assigns(s, name),
        ),
    decreases fuel, s, 0nat,
{
    let n = frames.len() as int;
    match s {
        Stmt::ExprStmt(e) => {
            lemma_evaluation_keeps_names(num, e, frames, name);
        },
        Stmt::PrintStmt(e) => {
            lemma_evaluation_keeps_names(num, e, frames, name);
        },
        Stmt::VarDecl(d) => {
            match d.initializer {
                None => {},
                Some(e) => {
                    lemma_evaluation_keeps_names(num, *e, frames, name);
                },
            }
        },
        Stmt::BlockStmt(b) => {
            let entered = frames.push(no_bindings());
            lemma_list_keeps_names(num, b, 0, entered, output, fuel, name);
            let inner = executed_list(num, b, 0, entered, output, fuel);
            let after = inner.frames.drop_last();
            assert forall|i: int| 0 <= i < n implies (#[trigger] after[i]).contains_key(name)
                == frames[i].contains_key(name) by {
                assert(after[i] == inner.frames[i]);
                assert(entered[i] == frames[i]);
            }
            if !stmt_assigns(s, name) {
                assert forall|i: int| 0 <= i < n && frames[i].contains_key(name) implies (
                #[trigger] after[i])[name] == frames[i][name] by {
                    assert(after[i] == inner.frames[i]);
                    assert(entered[i] == frames[i]);
                }
            }
        },
        Stmt::IfStmt(i) => {
            lemma_evaluation_keeps_names(num, *i.condition, frames, name);
            let c = evaluated(num, *i.condition, frames);
            match c.result {
                Err(_) => {},
                Ok(x) => {
                    if truthy(x) {
                        lemma_execution_keeps_names(
                            num,
                            *i.then_branch,
                            c.frames,
                            output,
                            fuel,
                            name,
                        );
                        lemma_keeps_chain(
                            frames,
                            c.frames,
                            executed(num, *i.then_branch, c.frames, output, fuel).frames,
                            n - 1,
                            name,
                            !assigns(*i.condition, name),
                            !stmt_assigns(*i.then_branch, name),
                        );
                    } else {
                        match i.else_branch {
                            Some(other) => {
                                lemma_execution_keeps_names(
                                    num,
                                    *other,
                                    c.frames,
                                    output,
                                    fuel,
                                    name,
                                );
                                lemma_keeps_chain(
                                    frames,
                                    c.frames,
                                    executed(num, *other, c.frames, output, fuel).frames,
                                    n - 1,
                                    name,
                                    !assigns(*i.condition, name),
                                    !stmt_assigns(*other, name),
                                );
                            },
                            None => {},
                        }
                    }
                },
            }
        },
        Stmt::WhileStmt(w) => {
            lemma_loop_keeps_names(num, w, frames, output, fuel, name);
        },
    }
}

/// The statements of a block, run in the block's scope, keep the names of
/// the scopes below it.
pub proof fn lemma_list_keeps_names(
    num: Arithmetic,
    b: BlockStmt,
    from: nat,
    frames: Frames,
    output: Seq<ValueView>,
    fuel: nat,
    name: Seq<char>,
)
    requires
        frames.len() >= 1,
    ensures
        keeps(
            frames,
            executed_list(num, b, from, frames, output, fuel).frames,
            frames.len() - 1,
            name,
            !list_assigns(b, from, name),
        ),
    decreases fuel, b, b.stmts.len() - from,
{
    if from < b.stmts.len() {
        let s = b.stmts[from as int];
        lemma_execution_keeps_names(num, s, frames, output, fuel, name);
        let first = executed(num, s, frames, output, fuel);
        match first.result {
            Err(_) => {},
            Ok(_) => {
                lemma_list_keeps_names(num, b, from + 1, first.frames, first.output, fuel, name);
                lemma_keeps_chain(
                    frames,
                    first.frames,
                    executed_list(num, b, from + 1, first.frames, first.output, fuel).frames,
                    frames.len() - 1,
                    name,
                    !stmt_assigns(s, name),
                    !list_assigns(b, from + 1, name),
                );
            },
        }
    }
}

/// A loop keeps the names of the scopes below the innermost.
pub proof fn lemma_loop_keeps_names(
    num: Arithmetic,
    w: WhileStmt,
    frames: Frames,
    output: Seq<ValueView>,
    fuel: nat,
    name: Seq<char>,
)
    requires
        frames.len() >= 1,
    ensures
        keeps(
            frames,
            looped(num, w, frames, output, fuel).frames,
            frames.len() - 1,
            name,
            !stmt_assigns(Stmt::WhileStmt(w), name),
        ),
    decreases fuel, w, 0nat,
{
    let n = frames.len() as int;
    let quiet = !stmt_assigns(Stmt::WhileStmt(w), name);
    lemma_evaluation_keeps_names(num, *w.condition, frames, name);
    let c = evaluated(num, *w.condition, frames);
    match c.result {
        Err(_) => {},
        Ok(x) => {
            if truthy(x) && fuel > 0 {
                lemma_execution_keeps_names(
                    num,
                    *w.body,
                    c.frames,
                    output,
                    (fuel - 1) as nat,
                    name,
                );
                let body = executed(num, *w.body, c.frames, output, (fuel - 1) as nat);
                lemma_keeps_chain(
                    frames,
                    c.frames,
                    body.frames,
                    n - 1,
                    name,
                    !assigns(*w.condition, name),
                    !stmt_assigns(*w.body, name),
                );
                match body.result {
                    Err(_) => {},
                    Ok(_) => {
                        lemma_loop_keeps_names(
                            num,
                            w,
                            body.frames,
                            body.output,
                            (fuel - 1) as nat,
                            name,
                        );
                        lemma_keeps_chain(
                            frames,
                            body.frames,
                            looped(num, w, body.frames, body.output, (fuel - 1) as nat).frames,
                            n - 1,
                            name,
                            quiet,
                            quiet,
                        );
                    },
                }
            }
        },
    }
}

/// Scopes that agree on a name, scope by scope, find it in the same scope.
pub proof fn lemma_same_defining_scope(before: Frames, after: Frames, name: Seq<char>)
    requires
        keeps(before, after, before.len() as int, name, false),
    ensures
        defining_scope(after, name) == defining_scope(before, name),
    decreases before.len(),
{
    if before.len() > 0 {
        let last = before.len() - 1;
        assert(after[last].contains_key(name) == before[last].contains_key(name));
        if !before.last().contains_key(name) {
            let b = before.drop_last();
            let a = after.drop_last();
            assert forall|i: int| 0 <= i < b.len() implies (#[trigger] a[i]).contains_key(name)
                == b[i].contains_key(name) by {
                assert(a[i] == after[i]);
                assert(b[i] == before[i]);
            }
            lemma_same_defining_scope(b, a, name);
        }
    }
}

/// A block leaves the names outside it alone. Whatever the block holds,
/// and whether it fails or not: the number of scopes is as before; a name
/// is bound after the block if and only if it was bound before, and in the
/// same scope; and a name that the block does not assign to has the value
/// that it had, also where the block declares the same name.
pub proof fn lemma_block_keeps_outside_names(
    num: Arithmetic,
    b: BlockStmt,
    frames: Frames,
    output: Seq<ValueView>,
    fuel: nat,
    name: Seq<char>,
)
    requires
        frames.len() >= 1,
    ensures
        executed(num, Stmt::BlockStmt(b), frames, output, fuel).frames.len() == frames.len(),
        defining_scope(executed(num, Stmt::BlockStmt(b), frames, output, fuel).frames, name)
            == defining_scope(frames, name),
        lookup(executed(num, Stmt::BlockStmt(b), frames, output, fuel).frames, name) is Some
            == lookup(frames, name) is Some,
        !stmt_assigns(Stmt::BlockStmt(b), name) ==> lookup(
            executed(num, Stmt::BlockStmt(b), frames, output, fuel).frames,
            name,
        ) == lookup(frames, name),
{
    let s = Stmt::BlockStmt(b);
    let after = executed(num, s, frames, output, fuel).frames;
    lemma_execution_keeps_names(num, s, frames, output, fuel, name);
    lemma_same_defining_scope(frames, after, name);
    lemma_defining_scope(frames, name);
}

/// An expression of the shape that the parser gives never fails for an
/// operator that computes nothing.
pub proof fn lemma_parsed_operators_compute(num: Arithmetic, e: Expression, frames: Frames)
    requires
        well_shaped(e),
    ensures
        evaluated(num, e, frames).result matches Err(err) ==> !(err.kind is UnexpectedOperator),
    decreases e,
{
    match e {
        Expression::Literal(l) => {},
        Expression::Var(v) => {},
        Expression::Unary(u) => {
            lemma_parsed_operators_compute(num, *u.expr, frames);
        },
        Expression::Grouping(g) => {
            lemma_parsed_operators_compute(num, *g.expr, frames);
        },
        Expression::Binary(b) => {
            lemma_parsed_operators_compute(num, *b.left, frames);
            lemma_parsed_operators_compute(num, *b.right, evaluated(num, *b.left, frames).frames);
        },
        Expression::Assign(a) => {
            lemma_parsed_operators_compute(num, *a.value, frames);
        },
    }
}

} // verus!
