//! Prints an expression as a parenthesized prefix form, which shows how
//! the parser grouped it.
//!
//! A number is printed as it was written, or as a writer of numbers that
//! the caller supplies writes it.
use vstd::prelude::*;
use vstd::string::StringExecFns;
use crate::expression::{Expression, Literal};

verus! {

/// A mathematical writer of numbers: the printed form of a number's text.
pub type NumberWriter = spec_fn(Seq<char>) -> Seq<char>;

/// The writer that leaves every number as it was written.
pub open spec fn as_written() -> NumberWriter {
    |text: Seq<char>| text
}

/// The printed form of a literal: a number as the writer writes it, a
/// string in double quotes, and the three words.
pub open spec fn literal_form(write: NumberWriter, literal: Literal) -> Seq<char> {
    match literal {
        Literal::Number(text) => write(text@),
        Literal::String(s) => "\""@ + s@ + "\""@,
        Literal::True => "true"@,
        Literal::False => "false"@,
        Literal::Nil => "nil"@,
    }
}

/// The printed form of an expression: a literal by itself, and every other
/// node in parentheses, its operator or its kind first and its parts
/// behind, with one space between them.
pub open spec fn printed_with(write: NumberWriter, e: Expression) -> Seq<char>
    decreases e,
{
    match e {
        Expression::Literal(l) => literal_form(write, l),
        Expression::Unary(u) => "("@ + u.operator.symbol() + " "@ + printed_with(write, *u.expr)
            + ")"@,
        Expression::Binary(b) => "("@ + b.operator.symbol() + " "@ + printed_with(
            write,
            *b.left,
        ) + " "@ + printed_with(write, *b.right) + ")"@,
        Expression::Grouping(g) => "(group "@ + printed_with(write, *g.expr) + ")"@,
        Expression::Var(v) => "(var "@ + v.name@ + ")"@,
        Expression::Assign(a) => "(= "@ + printed_with(write, *a.name) + " "@ + printed_with(
            write,
            *a.value,
        ) + ")"@,
    }
}

/// The printed form of an expression with its numbers as they were
/// written.
pub open spec fn printed_form(e: Expression) -> Seq<char> {
    printed_with(as_written(), e)
}

/// The writer may write this for this text.
pub open spec fn writes<F: Fn(String) -> String>(writer: &F, text: String, out: String) -> bool {
    call_ensures(writer, (text,), out)
}

/// The writer takes every text, and what it writes depends on nothing but
/// the characters of the text.
pub open spec fn writer_ok<F: Fn(String) -> String>(writer: &F) -> bool {
    &&& forall|text: String| call_requires(writer, (text,))
    &&& forall|t1: String, t2: String, r1: String, r2: String|
        t1@ == t2@ && #[trigger] writes(writer, t1, r1) && #[trigger] writes(writer, t2, r2)
            ==> r1@ == r2@
}

/// The mathematical writer that an executable writer computes.
pub open spec fn writer_model<F: Fn(String) -> String>(writer: &F) -> NumberWriter {
    |text: Seq<char>|
        (choose|p: (String, String)| p.0@ == text && #[trigger] writes(writer, p.0, p.1)).1@
}

/// Has the writer write a number.
fn write_number<F: Fn(String) -> String>(writer: &F, text: &String) -> (out: String)
    requires
        writer_ok(writer),
    ensures
        out@ == writer_model(writer)(text@),
{
    let copy = text.clone();
    let out = writer(copy);
    proof {
        assert(copy@ == text@ && writes(writer, copy, out));
        let p = choose|p: (String, String)| p.0@ == text@ && #[trigger] writes(writer, p.0, p.1);
        assert(p.0@ == text@ && writes(writer, p.0, p.1)) by {
            let witness = (copy, out);
            assert(witness.0@ == text@ && writes(writer, witness.0, witness.1));
        }
    }
    out
}

pub struct AstPrinter;

impl AstPrinter {
    /// Prints an expression, its numbers as they were written.
    pub fn print(&mut self, expr: &Expression) -> (text: String)
        ensures
            text@ == printed_form(*expr),
        decreases expr,
    {
        match expr {
            Expression::Literal(Literal::Number(n)) => n.clone(),
            Expression::Literal(l) => Self::word(l),
            Expression::Unary(u) => {
                let mut text = String::from_str("(");
                text.append(u.operator.to_text().as_str());
                text.append(" ");
                text.append(self.print(&u.expr).as_str());
                text.append(")");
                text
            },
            Expression::Binary(b) => {
                let mut text = String::from_str("(");
                text.append(b.operator.to_text().as_str());
                text.append(" ");
                text.append(self.print(&b.left).as_str());
                text.append(" ");
                text.append(self.print(&b.right).as_str());
                text.append(")");
                text
            },
            Expression::Grouping(g) => {
                let mut text = String::from_str("(group ");
                text.append(self.print(&g.expr).as_str());
                text.append(")");
                text
            },
            Expression::Var(v) => {
                let mut text = String::from_str("(var ");
                text.append(v.name.as_str());
                text.append(")");
                text
            },
            Expression::Assign(a) => {
                let mut text = String::from_str("(= ");
                text.append(self.print(&a.name).as_str());
                text.append(" ");
                text.append(self.print(&a.value).as_str());
                text.append(")");
                text
            },
        }
    }

    /// Prints an expression, its numbers as the writer writes them.
    pub fn print_with<F: Fn(String) -> String>(&mut self, expr: &Expression, writer: &F) -> (text:
        String)
        requires
            writer_ok(writer),
        ensures
            text@ == printed_with(writer_model(writer), *expr),
        decreases expr,
    {
        match expr {
            Expression::Literal(Literal::Number(n)) => write_number(writer, n),
            Expression::Literal(l) => Self::word(l),
            Expression::Unary(u) => {
                let mut text = String::from_str("(");
                text.append(u.operator.to_text().as_str());
                text.append(" ");
                text.append(self.print_with(&u.expr, writer).as_str());
                text.append(")");
                text
            },
            Expression::Binary(b) => {
                let mut text = String::from_str("(");
                text.append(b.operator.to_text().as_str());
                text.append(" ");
                text.append(self.print_with(&b.left, writer).as_str());
                text.append(" ");
                text.append(self.print_with(&b.right, writer).as_str());
                text.append(")");
                text
            },
            Expression::Grouping(g) => {
                let mut text = String::from_str("(group ");
                text.append(self.print_with(&g.expr, writer).as_str());
                text.append(")");
                text
            },
            Expression::Var(v) => {
                let mut text = String::from_str("(var ");
                text.append(v.name.as_str());
                text.append(")");
                text
            },
            Expression::Assign(a) => {
                let mut text = String::from_str("(= ");
                text.append(self.print_with(&a.name, writer).as_str());
                text.append(" ");
                text.append(self.print_with(&a.value, writer).as_str());
                text.append(")");
                text
            },
        }
    }

    /// The printed form of a literal that is no number.
    fn word(literal: &Literal) -> (text: String)
        requires
            !(literal is Number),
        ensures
            forall|write: NumberWriter| text@ == literal_form(write, *literal),
    {
        match literal {
            Literal::String(s) => {
                let mut text = String::from_str("\"");
                text.append(s.as_str());
                text.append("\"");
                text
            },
            Literal::True => String::from_str("true"),
            Literal::False => String::from_str("false"),
            _ => String::from_str("nil"),
        }
    }
}

} // verus!
