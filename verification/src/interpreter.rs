//! The interpreter: walks the syntax tree, evaluates expressions and runs
//! statements in an environment of its own, and collects what is printed.
use vstd::prelude::*;
use crate::environment::{no_bindings, Environment, Frames};
use crate::error::{RuntimeError, RuntimeErrorKind};
use crate::expression::{Expression, Literal};
use crate::number::{ask, kernel_model, kernel_ok, negate, NumberQuery};
use crate::operator::{BinaryOperator, UnaryOperator};
use crate::semantics::{
    evaluated, executed, executed_list, failure, literal_value, looped, prefixed, Executed,
};
use crate::statement::{BlockStmt, Stmt, WhileStmt};
use crate::value::{number_result, value_viewed, Value, ValueView};

verus! {

pub struct Interpreter {
    env: Environment,
    output: Vec<Value>,
}

/// The values of a list, each with its text as a sequence of characters.
pub open spec fn values_view(values: Seq<Value>) -> Seq<ValueView> {
    Seq::new(values.len(), |i: int| values[i]@)
}

impl Default for Interpreter {
    /// An interpreter with the global scope alone, that has printed
    /// nothing.
    fn default() -> (interpreter: Interpreter)
        ensures
            interpreter.wf(),
            interpreter.frames() == seq![no_bindings()],
            interpreter.printed() == Seq::<ValueView>::empty(),
    {
        let interpreter = Interpreter { env: Environment::default(), output: Vec::new() };
        assert(interpreter.printed() =~= Seq::<ValueView>::empty());
        interpreter
    }
}

fn fail(kind: RuntimeErrorKind) -> (e: RuntimeError)
    ensures
        e == failure(kind),
{
    RuntimeError { kind }
}

impl Interpreter {
    /// The scopes, the global scope first.
    pub closed spec fn frames(&self) -> Frames {
        self.env@
    }

    /// What has been printed and not yet taken, in order.
    pub closed spec fn printed(&self) -> Seq<ValueView> {
        values_view(self.output@)
    }

    /// The interpreter holds the global scope.
    pub open spec fn wf(&self) -> bool {
        self.frames().len() >= 1
    }

    /// The value of a variable, if a scope binds it.
    pub fn get_var(&self, name: &str) -> (v: Option<&Value>)
        ensures
            crate::environment::option_view(v) == crate::environment::lookup(self.frames(), name@),
    {
        self.env.get(name)
    }

    /// Hands out what has been printed since the last call.
    pub fn take_output(&mut self) -> (printed: Vec<Value>)
        ensures
            values_view(printed@) == old(self).printed(),
            final(self).printed() == Seq::<ValueView>::empty(),
            final(self).frames() == old(self).frames(),
    {
        let mut printed = Vec::new();
        std::mem::swap(&mut printed, &mut self.output);
        assert(self.printed() =~= Seq::<ValueView>::empty());
        printed
    }

    fn literal<K: Fn(NumberQuery) -> Option<u64>>(literal: &Literal, kernel: &K) -> (r: Result<
        Value,
        RuntimeError,
    >)
        requires
            kernel_ok(kernel),
        ensures
            value_viewed(r) == literal_value(kernel_model(kernel), *literal),
    {
        match literal {
            Literal::Number(text) => number_result(ask(kernel, NumberQuery::Parse(text.clone()))),
            Literal::String(s) => Ok(Value::String(s.clone())),
            Literal::True => Ok(Value::Bool(true)),
            Literal::False => Ok(Value::Bool(false)),
            Literal::Nil => Ok(Value::Nil),
        }
    }

    fn prefix(op: UnaryOperator, v: Value) -> (r: Result<Value, RuntimeError>)
        ensures
            value_viewed(r) == prefixed(op, v@),
    {
        match op {
            UnaryOperator::Minus => match v {
                Value::Number(n) => Ok(Value::Number(negate(n))),
                _ => Err(fail(RuntimeErrorKind::ExpectedNumber)),
            },
            UnaryOperator::Not => Ok(Value::Bool(!v.is_truthy())),
        }
    }

    /// Evaluates an expression in the interpreter's scopes.
    pub fn evaluate<K: Fn(NumberQuery) -> Option<u64>>(
        &mut self,
        expr: &Expression,
        kernel: &K,
    ) -> (r: Result<Value, RuntimeError>)
        requires
            old(self).wf(),
            kernel_ok(kernel),
        ensures
            final(self).wf(),
            final(self).frames().len() == old(self).frames().len(),
            value_viewed(r) == evaluated(kernel_model(kernel), *expr, old(self).frames()).result,
            final(self).frames() == evaluated(
                kernel_model(kernel),
                *expr,
                old(self).frames(),
            ).frames,
            final(self).printed() == old(self).printed(),
        decreases expr,
    {
        match expr {
            Expression::Literal(l) => Self::literal(l, kernel),
            Expression::Unary(u) => {
                match self.evaluate(&u.expr, kernel) {
                    Err(e) => Err(e),
                    Ok(v) => Self::prefix(u.operator, v),
                }
            },
            Expression::Binary(b) => {
                let left = match self.evaluate(&b.left, kernel) {
                    Err(e) => {
                        return Err(e);
                    },
                    Ok(v) => v,
                };
                match b.operator {
                    BinaryOperator::Or => {
                        if left.is_truthy() {
                            Ok(left)
                        } else {
                            self.evaluate(&b.right, kernel)
                        }
                    },
                    BinaryOperator::And => {
                        if !left.is_truthy() {
                            Ok(left)
                        } else {
                            self.evaluate(&b.right, kernel)
                        }
                    },
                    op => {
                        match self.evaluate(&b.right, kernel) {
                            Err(e) => Err(e),
                            Ok(right) => Value::apply(op, left, right, kernel),
                        }
                    },
                }
            },
            Expression::Grouping(g) => self.evaluate(&g.expr, kernel),
            Expression::Var(v) => {
                match self.env.get(v.name.as_str()) {
                    Some(x) => Ok(x.duplicate()),
                    None => Err(
                        fail(RuntimeErrorKind::UndefinedVariable { name: v.name.clone() }),
                    ),
                }
            },
            Expression::Assign(a) => {
                let value = match self.evaluate(&a.value, kernel) {
                    Err(e) => {
                        return Err(e);
                    },
                    Ok(v) => v,
                };
                match &*a.name {
                    Expression::Var(target) => {
                        match self.env.assign(target.name.as_str(), value) {
                            Ok(previous) => Ok(previous),
                            Err(_) => Err(
                                fail(
                                    RuntimeErrorKind::UndefinedAssignment {
                                        name: target.name.clone(),
                                    },
                                ),
                            ),
                        }
                    },
                    _ => Err(fail(RuntimeErrorKind::InvalidAssignmentTarget)),
                }
            },
        }
    }

    /// Runs a statement. Each loop in it may run `fuel` rounds, a loop
    /// inside a loop's body one round less than the loop around it.
    pub fn interpret<K: Fn(NumberQuery) -> Option<u64>>(
        &mut self,
        stmt: &Stmt,
        kernel: &K,
        fuel: u64,
    ) -> (r: Result<(), RuntimeError>)
        requires
            old(self).wf(),
            kernel_ok(kernel),
        ensures
            final(self).wf(),
            final(self).frames().len() == old(self).frames().len(),
            (Executed { result: r, frames: final(self).frames(), output: final(self).printed() })
                == executed(
                kernel_model(kernel),
                *stmt,
                old(self).frames(),
                old(self).printed(),
                fuel as nat,
            ),
        decreases fuel, stmt, 0nat,
    {
        match stmt {
            Stmt::ExprStmt(e) => {
                match self.evaluate(e, kernel) {
                    Err(err) => Err(err),
                    Ok(_) => Ok(()),
                }
            },
            Stmt::PrintStmt(e) => {
                match self.evaluate(e, kernel) {
                    Err(err) => Err(err),
                    Ok(v) => {
                        let ghost before = self.printed();
                        self.output.push(v);
                        assert(self.printed() =~= before.push(v@));
                        Ok(())
                    },
                }
            },
            Stmt::VarDecl(d) => {
                let value = match &d.initializer {
                    None => Value::Nil,
                    Some(e) => match self.evaluate(e, kernel) {
                        Err(err) => {
                            return Err(err);
                        },
                        Ok(v) => v,
                    },
                };
                self.env.define(d.name.as_str(), value);
                Ok(())
            },
            Stmt::BlockStmt(b) => self.run_block(b, kernel, fuel),
            Stmt::IfStmt(i) => {
                let condition = match self.evaluate(&i.condition, kernel) {
                    Err(err) => {
                        return Err(err);
                    },
                    Ok(v) => v,
                };
                if condition.is_truthy() {
                    self.interpret(&i.then_branch, kernel, fuel)
                } else {
                    match &i.else_branch {
                        Some(other) => self.interpret(other, kernel, fuel),
                        None => Ok(()),
                    }
                }
            },
            Stmt::WhileStmt(w) => self.run_loop(w, kernel, fuel),
        }
    }

    fn run_block<K: Fn(NumberQuery) -> Option<u64>>(
        &mut self,
        b: &BlockStmt,
        kernel: &K,
        fuel: u64,
    ) -> (r: Result<(), RuntimeError>)
        requires
            old(self).wf(),
            kernel_ok(kernel),
        ensures
            final(self).wf(),
            final(self).frames().len() == old(self).frames().len(),
            (Executed { result: r, frames: final(self).frames(), output: final(self).printed() })
                == executed(
                kernel_model(kernel),
                Stmt::BlockStmt(*b),
                old(self).frames(),
                old(self).printed(),
                fuel as nat,
            ),
        decreases fuel, b, b.stmts.len() + 1,
    {
        let ghost num = kernel_model(kernel);
        let ghost entered = old(self).frames().push(no_bindings());
        let ghost target = executed_list(num, *b, 0, entered, old(self).printed(), fuel as nat);
        self.env.push_scope();
        let mut i: usize = 0;
        while i < b.stmts.len()
            invariant
                i <= b.stmts.len(),
                kernel_ok(kernel),
                num == kernel_model(kernel),
                old(self).frames().len() >= 1,
                self.frames().len() == old(self).frames().len() + 1,
                target == executed_list(
                    num,
                    *b,
                    0,
                    old(self).frames().push(no_bindings()),
                    old(self).printed(),
                    fuel as nat,
                ),
                target == executed_list(
                    num,
                    *b,
                    i as nat,
                    self.frames(),
                    self.printed(),
                    fuel as nat,
                ),
            decreases b.stmts.len() - i,
        {
            match self.interpret(&b.stmts[i], kernel, fuel) {
                Err(e) => {
                    self.env.pop_scope();
                    return Err(e);
                },
                Ok(_) => {
                    i = i + 1;
                },
            }
        }
        self.env.pop_scope();
        Ok(())
    }

    fn run_loop<K: Fn(NumberQuery) -> Option<u64>>(
        &mut self,
        w: &WhileStmt,
        kernel: &K,
        fuel: u64,
    ) -> (r: Result<(), RuntimeError>)
        requires
            old(self).wf(),
            kernel_ok(kernel),
        ensures
            final(self).wf(),
            final(self).frames().len() == old(self).frames().len(),
            (Executed { result: r, frames: final(self).frames(), output: final(self).printed() })
                == looped(
                kernel_model(kernel),
                *w,
                old(self).frames(),
                old(self).printed(),
                fuel as nat,
            ),
        decreases fuel, w, 1nat,
    {
        let ghost num = kernel_model(kernel);
        let ghost target = looped(num, *w, old(self).frames(), old(self).printed(), fuel as nat);
        let mut left = fuel;
        loop
            invariant
                left <= fuel,
                kernel_ok(kernel),
                num == kernel_model(kernel),
                self.wf(),
                self.frames().len() == old(self).frames().len(),
                target == looped(num, *w, old(self).frames(), old(self).printed(), fuel as nat),
                target == looped(num, *w, self.frames(), self.printed(), left as nat),
            decreases left,
        {
            let condition = match self.evaluate(&w.condition, kernel) {
                Err(err) => {
                    return Err(err);
                },
                Ok(v) => v,
            };
            if !condition.is_truthy() {
                return Ok(());
            }
            if left == 0 {
                return Err(fail(RuntimeErrorKind::StepLimit));
            }
            left = left - 1;
            match self.interpret(&w.body, kernel, left) {
                Err(err) => {
                    return Err(err);
                },
                Ok(_) => {},
            }
        }
    }
}

} // verus!
