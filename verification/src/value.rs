//! Runtime values and the operators on them.
use vstd::prelude::*;
use vstd::string::StringExecFns;
use crate::error::{RuntimeError, RuntimeErrorKind};
use crate::number::{
    ask, canonical, canonical_bits, equal, kernel_model, kernel_ok, length, length_of, less,
    less_or_equal, number_eq, number_le, number_lt, Arithmetic, NumberQuery, QueryView,
};
use crate::operator::BinaryOperator;

verus! {

/// A runtime value. A number is held by the bits of its double-precision
/// representation.
#[derive(Debug, Clone)]
pub enum Value {
    String(String),
    Number(u64),
    Bool(bool),
    Nil,
}

/// A value with its text as a sequence of characters.
pub enum ValueView {
    String(Seq<char>),
    Number(u64),
    Bool(bool),
    Nil,
}

impl View for Value {
    type V = ValueView;

    open spec fn view(&self) -> ValueView {
        match self {
            Value::String(s) => ValueView::String(s@),
            Value::Number(n) => ValueView::Number(*n),
            Value::Bool(b) => ValueView::Bool(*b),
            Value::Nil => ValueView::Nil,
        }
    }
}

/// Truthiness: only `false` and `nil` are falsy.
pub open spec fn truthy(v: ValueView) -> bool {
    !(v == ValueView::Bool(false) || v == ValueView::Nil)
}

/// Equality of values: values of different types are never equal; strings
/// are equal by their characters, numbers as numbers are.
pub open spec fn values_equal(a: ValueView, b: ValueView) -> bool {
    match (a, b) {
        (ValueView::String(x), ValueView::String(y)) => x == y,
        (ValueView::Number(x), ValueView::Number(y)) => number_eq(x, y),
        (ValueView::Bool(x), ValueView::Bool(y)) => x == y,
        (ValueView::Nil, ValueView::Nil) => true,
        _ => false,
    }
}

/// `n` copies of `s`, one behind the other.
pub open spec fn repeated(s: Seq<char>, n: nat) -> Seq<char>
    decreases n,
{
    if n == 0 {
        Seq::empty()
    } else {
        repeated(s, (n - 1) as nat) + s
    }
}

/// The error for operands of types that the operator does not take.
pub open spec fn mismatch(operator: BinaryOperator) -> RuntimeError {
    RuntimeError { kind: RuntimeErrorKind::TypeMismatch { operator } }
}

/// A number that the kernel computed, a NaN as the canonical one; an
/// error where the kernel gave none.
pub open spec fn computed(answer: Option<u64>) -> Result<ValueView, RuntimeError> {
    match answer {
        Some(bits) => Ok(ValueView::Number(canonical(bits))),
        None => Err(RuntimeError { kind: RuntimeErrorKind::InvalidNumber }),
    }
}

/// What an infix operator other than `and` and `or` makes of two values.
///
/// `+` adds numbers and joins strings. `-`, `*` and `/` take numbers, and
/// `*` also repeats a string as many times as a number's whole count. `==`
/// and `!=` take any two values. `<`, `<=`, `>` and `>=` take numbers. All
/// other pairings are type errors, and `=`, `and` and `or` compute nothing
/// here.
pub open spec fn applied(num: Arithmetic, op: BinaryOperator, l: ValueView, r: ValueView) -> Result<
    ValueView,
    RuntimeError,
> {
    match op {
        BinaryOperator::Plus => match (l, r) {
            (ValueView::Number(a), ValueView::Number(b)) => computed(num(QueryView::Add(a, b))),
            (ValueView::String(a), ValueView::String(b)) => Ok(ValueView::String(a + b)),
            _ => Err(mismatch(op)),
        },
        BinaryOperator::Minus => match (l, r) {
            (ValueView::Number(a), ValueView::Number(b)) => computed(
                num(QueryView::Subtract(a, b)),
            ),
            _ => Err(mismatch(op)),
        },
        BinaryOperator::Mult => match (l, r) {
            (ValueView::Number(a), ValueView::Number(b)) => computed(
                num(QueryView::Multiply(a, b)),
            ),
            (ValueView::String(s), ValueView::Number(n)) => Ok(
                ValueView::String(repeated(s, length_of(n) as nat)),
            ),
            _ => Err(mismatch(op)),
        },
        BinaryOperator::Div => match (l, r) {
            (ValueView::Number(a), ValueView::Number(b)) => computed(num(QueryView::Divide(a, b))),
            _ => Err(mismatch(op)),
        },
        BinaryOperator::EqualEqual => Ok(ValueView::Bool(values_equal(l, r))),
        BinaryOperator::NotEqual => Ok(ValueView::Bool(!values_equal(l, r))),
        BinaryOperator::Less => match (l, r) {
            (ValueView::Number(a), ValueView::Number(b)) => Ok(ValueView::Bool(number_lt(a, b))),
            _ => Err(mismatch(op)),
        },
        BinaryOperator::LessEqual => match (l, r) {
            (ValueView::Number(a), ValueView::Number(b)) => Ok(ValueView::Bool(number_le(a, b))),
            _ => Err(mismatch(op)),
        },
        BinaryOperator::Greater => match (l, r) {
            (ValueView::Number(a), ValueView::Number(b)) => Ok(ValueView::Bool(number_lt(b, a))),
            _ => Err(mismatch(op)),
        },
        BinaryOperator::GreaterEqual => match (l, r) {
            (ValueView::Number(a), ValueView::Number(b)) => Ok(ValueView::Bool(number_le(b, a))),
            _ => Err(mismatch(op)),
        },
        BinaryOperator::Equal | BinaryOperator::And | BinaryOperator::Or => Err(
            RuntimeError { kind: RuntimeErrorKind::UnexpectedOperator { operator: op } },
        ),
    }
}

/// A value result with the value's text as a sequence of characters.
pub open spec fn value_viewed(r: Result<Value, RuntimeError>) -> Result<ValueView, RuntimeError> {
    match r {
        Ok(v) => Ok(v@),
        Err(e) => Err(e),
    }
}

/// Copies of the empty text are the empty text, however many.
pub proof fn lemma_repeated_empty(n: nat)
    ensures
        repeated(Seq::empty(), n) == Seq::<char>::empty(),
    decreases n,
{
    if n > 0 {
        lemma_repeated_empty((n - 1) as nat);
        assert(repeated(Seq::empty(), n) =~= Seq::<char>::empty());
    }
}

/// `n` copies of `s`, one behind the other. An empty text is done at once,
/// whatever the count.
pub fn repeat(s: &String, n: usize) -> (out: String)
    ensures
        out@ == repeated(s@, n as nat),
{
    let mut out = String::new();
    if s.as_str().is_empty() {
        proof {
            assert(s@ =~= Seq::<char>::empty());
            lemma_repeated_empty(n as nat);
        }
        return out;
    }
    let mut i: usize = 0;
    while i < n
        invariant
            i <= n,
            out@ == repeated(s@, i as nat),
        decreases n - i,
    {
        out.append(s.as_str());
        i = i + 1;
    }
    out
}

/// The number that the kernel computed, as a value, a NaN as the canonical
/// one; an error where the kernel gave none.
pub fn number_result(answer: Option<u64>) -> (r: Result<Value, RuntimeError>)
    ensures
        value_viewed(r) == computed(answer),
{
    match answer {
        Some(bits) => Ok(Value::Number(canonical_bits(bits))),
        None => Err(RuntimeError { kind: RuntimeErrorKind::InvalidNumber }),
    }
}

fn mismatch_of(operator: BinaryOperator) -> (e: RuntimeError)
    ensures
        e == mismatch(operator),
{
    RuntimeError { kind: RuntimeErrorKind::TypeMismatch { operator } }
}

impl Value {
    pub fn is_truthy(&self) -> (b: bool)
        ensures
            b == truthy(self@),
    {
        match self {
            Value::Bool(false) => false,
            Value::Nil => false,
            _ => true,
        }
    }

    /// A copy of the value.
    pub fn duplicate(&self) -> (copy: Value)
        ensures
            copy@ == self@,
    {
        match self {
            Value::String(s) => Value::String(s.clone()),
            Value::Number(n) => Value::Number(*n),
            Value::Bool(b) => Value::Bool(*b),
            Value::Nil => Value::Nil,
        }
    }

    /// The text that `print` shows for the value: a string as it is,
    /// `true`, `false` or `nil`, and a number as `number_text` writes it.
    pub fn to_text<F: Fn(u64) -> String>(&self, number_text: &F) -> (text: String)
        requires
            forall|bits: u64| call_requires(number_text, (bits,)),
        ensures
            match self@ {
                ValueView::String(s) => text@ == s,
                ValueView::Number(bits) => call_ensures(number_text, (bits,), text),
                ValueView::Bool(b) => text@ == (if b {
                    "true"@
                } else {
                    "false"@
                }),
                ValueView::Nil => text@ == "nil"@,
            },
    {
        match self {
            Value::String(s) => s.clone(),
            Value::Number(bits) => number_text(*bits),
            Value::Bool(true) => String::from_str("true"),
            Value::Bool(false) => String::from_str("false"),
            Value::Nil => String::from_str("nil"),
        }
    }

    /// Whether two values are equal in the language's sense.
    pub fn equals(&self, other: &Value) -> (b: bool)
        ensures
            b == values_equal(self@, other@),
    {
        match (self, other) {
            (Value::String(x), Value::String(y)) => *x == *y,
            (Value::Number(x), Value::Number(y)) => equal(*x, *y),
            (Value::Bool(x), Value::Bool(y)) => *x == *y,
            (Value::Nil, Value::Nil) => true,
            _ => false,
        }
    }

    /// Applies an infix operator other than `and` and `or` to two values.
    pub fn apply<K: Fn(NumberQuery) -> Option<u64>>(
        op: BinaryOperator,
        left: Value,
        right: Value,
        kernel: &K,
    ) -> (r: Result<Value, RuntimeError>)
        requires
            kernel_ok(kernel),
        ensures
            value_viewed(r) == applied(kernel_model(kernel), op, left@, right@),
    {
        match op {
            BinaryOperator::Plus => match (left, right) {
                (Value::Number(a), Value::Number(b)) => number_result(
                    ask(kernel, NumberQuery::Add(a, b)),
                ),
                (Value::String(a), Value::String(b)) => Ok(Value::String(a.concat(b.as_str()))),
                _ => Err(mismatch_of(op)),
            },
            BinaryOperator::Minus => match (left, right) {
                (Value::Number(a), Value::Number(b)) => number_result(
                    ask(kernel, NumberQuery::Subtract(a, b)),
                ),
                _ => Err(mismatch_of(op)),
            },
            BinaryOperator::Mult => match (left, right) {
                (Value::Number(a), Value::Number(b)) => number_result(
                    ask(kernel, NumberQuery::Multiply(a, b)),
                ),
                (Value::String(s), Value::Number(n)) => Ok(Value::String(repeat(&s, length(n)))),
                _ => Err(mismatch_of(op)),
            },
            BinaryOperator::Div => match (left, right) {
                (Value::Number(a), Value::Number(b)) => number_result(
                    ask(kernel, NumberQuery::Divide(a, b)),
                ),
                _ => Err(mismatch_of(op)),
            },
            BinaryOperator::EqualEqual => Ok(Value::Bool(left.equals(&right))),
            BinaryOperator::NotEqual => Ok(Value::Bool(!left.equals(&right))),
            BinaryOperator::Less => match (left, right) {
                (Value::Number(a), Value::Number(b)) => Ok(Value::Bool(less(a, b))),
                _ => Err(mismatch_of(op)),
            },
            BinaryOperator::LessEqual => match (left, right) {
                (Value::Number(a), Value::Number(b)) => Ok(Value::Bool(less_or_equal(a, b))),
                _ => Err(mismatch_of(op)),
            },
            BinaryOperator::Greater => match (left, right) {
                (Value::Number(a), Value::Number(b)) => Ok(Value::Bool(less(b, a))),
                _ => Err(mismatch_of(op)),
            },
            BinaryOperator::GreaterEqual => match (left, right) {
                (Value::Number(a), Value::Number(b)) => Ok(Value::Bool(less_or_equal(b, a))),
                _ => Err(mismatch_of(op)),
            },
            BinaryOperator::Equal | BinaryOperator::And | BinaryOperator::Or => Err(
                RuntimeError { kind: RuntimeErrorKind::UnexpectedOperator { operator: op } },
            ),
        }
    }
}

impl PartialEq for Value {
    fn eq(&self, other: &Value) -> (b: bool) {
        self.equals(other)
    }
}

impl vstd::std_specs::cmp::PartialEqSpecImpl for Value {
    open spec fn obeys_eq_spec() -> bool {
        true
    }

    open spec fn eq_spec(&self, other: &Value) -> bool {
        values_equal(self@, other@)
    }
}

} // verus!
