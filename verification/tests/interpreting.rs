use rlox::error::{RuntimeError, RuntimeErrorKind};
use rlox::expression::{Binary, Expression, Literal, Var};
use rlox::interpreter::Interpreter;
use rlox::number::NumberQuery;
use rlox::operator::BinaryOperator;
use rlox::parser::Parser;
use rlox::scanner::Scanner;
use rlox::statement::Stmt;
use rlox::value::Value;

const FUEL: u64 = u64::MAX;

fn kernel(query: NumberQuery) -> Option<u64> {
    let number = |bits: u64| f64::from_bits(bits);
    match query {
        NumberQuery::Parse(text) => text.parse::<f64>().ok().map(f64::to_bits),
        NumberQuery::Add(a, b) => Some((number(a) + number(b)).to_bits()),
        NumberQuery::Subtract(a, b) => Some((number(a) - number(b)).to_bits()),
        NumberQuery::Multiply(a, b) => Some((number(a) * number(b)).to_bits()),
        NumberQuery::Divide(a, b) => Some((number(a) / number(b)).to_bits()),
    }
}

fn num(n: f64) -> Value {
    Value::Number(n.to_bits())
}

fn text(s: &str) -> Value {
    Value::String(s.to_string())
}

fn parse(source: &str) -> Vec<Stmt> {
    let tokens = Scanner::new(source.into()).scan_source().unwrap();
    Parser::new(tokens).parse().unwrap()
}

fn try_evaluate(source: &str) -> Result<Value, RuntimeError> {
    let mut int = Interpreter::default();
    let stmts = parse(source);
    let Stmt::ExprStmt(ref expr) = stmts[0] else {
        panic!()
    };
    int.evaluate(expr, &kernel)
}

fn evaluate_expr(source: &'static str) -> Value {
    try_evaluate(source).unwrap()
}

fn error_of(source: &str) -> RuntimeErrorKind {
    try_evaluate(source).err().unwrap().kind
}

fn interpret_stmts(source: &'static str, interpreter: &mut Interpreter) {
    for stmt in &parse(source) {
        interpreter.interpret(stmt, &kernel, FUEL).unwrap();
    }
}

fn run(source: &'static str) -> Vec<Value> {
    let mut int = Interpreter::default();
    interpret_stmts(source, &mut int);
    int.take_output()
}

fn get_var<'a>(int: &'a Interpreter, name: &str) -> &'a Value {
    int.get_var(name).unwrap()
}

#[test]
fn test_evaluate() {
    assert_eq!(evaluate_expr("2 + 3 * 5;"), num(17.0));
    assert_eq!(
        evaluate_expr(r#" "hello" * 3 ;"#),
        Value::String("hellohellohello".into())
    );
    assert_eq!(evaluate_expr("12 + 3 == 3 * 5;"), Value::Bool(true));
    assert_eq!(
        evaluate_expr(r#" "hello" * 3 == "hellohellohello" ;"#),
        Value::Bool(true)
    );
    assert_eq!(
        evaluate_expr("2 + 2 == 4 and true and 3 <= 4;"),
        Value::Bool(true)
    );
    assert_eq!(evaluate_expr(r#" "three" == 3 ;"#), Value::Bool(false));
}

#[test]
#[should_panic]
fn test_error() {
    evaluate_expr("true + false");
}

#[test]
fn test_int_expr_stmt() {
    let mut int = Interpreter::default();
    interpret_stmts("var x = 5 + 5; x = x + 1;", &mut int);
    assert_eq!(get_var(&int, "x"), &num(11.0));
}

#[test]
fn test_int_if_stmt() {
    let mut int = Interpreter::default();
    interpret_stmts(
        r#"
        var x = 5;
        if (x > 10)
            x = x * 2;
        else
            x = x * 3;
    "#,
        &mut int,
    );
    assert_eq!(get_var(&int, "x"), &num(15.0));
}

#[test]
fn test_int_while_stmt() {
    let mut int = Interpreter::default();
    interpret_stmts(
        r#"
        var x = 0;
        while (x < 10) {
            x = x + 1;
        }
    "#,
        &mut int,
    );
    assert_eq!(get_var(&int, "x"), &num(10.0));
}

#[test]
fn and_with_a_falsy_left_side_skips_the_right_side() {
    assert_eq!(evaluate_expr("false and x;"), Value::Bool(false));
    assert_eq!(evaluate_expr("nil and x;"), Value::Nil);
    assert_eq!(
        error_of("true and x;"),
        RuntimeErrorKind::UndefinedVariable { name: "x".to_string() }
    );
    assert_eq!(evaluate_expr("1 and 2;"), num(2.0));
}

#[test]
fn or_with_a_truthy_left_side_skips_the_right_side() {
    assert_eq!(evaluate_expr("true or x;"), Value::Bool(true));
    assert_eq!(evaluate_expr(r#""" or x;"#), text(""));
    assert_eq!(evaluate_expr("0 or x;"), num(0.0));
    assert_eq!(
        error_of("false or x;"),
        RuntimeErrorKind::UndefinedVariable { name: "x".to_string() }
    );
    assert_eq!(evaluate_expr("nil or 2;"), num(2.0));
}

#[test]
fn a_declaration_in_a_block_does_not_leak() {
    assert_eq!(run("var x = 1; { var x = 2; } print x;"), vec![num(1.0)]);
    assert_eq!(
        run("var x = 1; { var x = 2; print x; } print x;"),
        vec![num(2.0), num(1.0)]
    );
    let mut int = Interpreter::default();
    interpret_stmts("{ var y = 2; }", &mut int);
    assert!(int.get_var("y").is_none());
}

#[test]
fn an_assignment_reaches_the_outer_scope() {
    assert_eq!(run("var x = 1; { x = 2; } print x;"), vec![num(2.0)]);
    assert_eq!(
        run("var x = 1; { var y = 5; { x = y; } } print x;"),
        vec![num(5.0)]
    );
    // The innermost scope that binds the name is the one that changes.
    assert_eq!(
        run("var x = 1; { var x = 2; { x = 3; } print x; } print x;"),
        vec![num(3.0), num(1.0)]
    );
}

#[test]
fn a_string_times_a_number_repeats_the_string() {
    assert_eq!(evaluate_expr(r#" "ab" * 3;"#), text("ababab"));
    assert_eq!(evaluate_expr(r#" "ab" * 0;"#), text(""));
    assert_eq!(evaluate_expr(r#" "ab" * 2.9;"#), text("abab"));
    assert_eq!(evaluate_expr(r#" "ab" * -1;"#), text(""));
    assert_eq!(evaluate_expr(r#" "ab" * (0 / 0);"#), text(""));
    assert_eq!(
        error_of(r#" 3 * "ab";"#),
        RuntimeErrorKind::TypeMismatch { operator: BinaryOperator::Mult }
    );
}

#[test]
fn values_of_different_types_are_never_equal() {
    assert_eq!(evaluate_expr(r#" "3" == 3;"#), Value::Bool(false));
    assert_eq!(evaluate_expr(r#" "3" != 3;"#), Value::Bool(true));
    assert_eq!(evaluate_expr("nil == false;"), Value::Bool(false));
    assert_eq!(evaluate_expr("0 == false;"), Value::Bool(false));
    assert_eq!(evaluate_expr(r#" "" == nil;"#), Value::Bool(false));
    assert_eq!(evaluate_expr("nil == nil;"), Value::Bool(true));
    assert_eq!(evaluate_expr("true == true;"), Value::Bool(true));
    assert_eq!(evaluate_expr(r#" "a" == "a";"#), Value::Bool(true));
    assert_eq!(evaluate_expr(r#" "a" == "b";"#), Value::Bool(false));
    assert_eq!(evaluate_expr("1 == 1;"), Value::Bool(true));
}

#[test]
fn numbers_compare_as_doubles_do() {
    assert_eq!(evaluate_expr("0 / 0 == 0 / 0;"), Value::Bool(false));
    assert_eq!(evaluate_expr("0 / 0 != 0 / 0;"), Value::Bool(true));
    assert_eq!(evaluate_expr("0 == -0;"), Value::Bool(true));
    assert_eq!(evaluate_expr("-1 < 1;"), Value::Bool(true));
    assert_eq!(evaluate_expr("-1 < -2;"), Value::Bool(false));
    assert_eq!(evaluate_expr("-2 < -1;"), Value::Bool(true));
    assert_eq!(evaluate_expr("2 <= 2;"), Value::Bool(true));
    assert_eq!(evaluate_expr("2 >= 3;"), Value::Bool(false));
    assert_eq!(evaluate_expr("3 > 2;"), Value::Bool(true));
    assert_eq!(evaluate_expr("0.1 + 0.2 == 0.3;"), Value::Bool(false));
    assert_eq!(evaluate_expr("1 / 0 > 1000000;"), Value::Bool(true));
    assert_eq!(evaluate_expr("0 / 0 <= 0 / 0;"), Value::Bool(false));
}

#[test]
fn arithmetic() {
    assert_eq!(evaluate_expr("7 - 10;"), num(-3.0));
    assert_eq!(evaluate_expr("7 / 2;"), num(3.5));
    assert_eq!(evaluate_expr("1.5 * 4;"), num(6.0));
    assert_eq!(evaluate_expr("0.1 + 0.2;"), num(0.1 + 0.2));
    assert_eq!(evaluate_expr("-(1 + 2);"), num(-3.0));
    assert_eq!(evaluate_expr("--3;"), num(3.0));
    assert_eq!(evaluate_expr("(1 + 2) * 3;"), num(9.0));
    assert_eq!(evaluate_expr(r#" "a" + "b" + "c";"#), text("abc"));
}

#[test]
fn not_gives_the_opposite_of_truthiness() {
    assert_eq!(evaluate_expr("!true;"), Value::Bool(false));
    assert_eq!(evaluate_expr("!false;"), Value::Bool(true));
    assert_eq!(evaluate_expr("!nil;"), Value::Bool(true));
    assert_eq!(evaluate_expr("!0;"), Value::Bool(false));
    assert_eq!(evaluate_expr(r#"!"";"#), Value::Bool(false));
}

#[test]
fn operators_reject_values_of_other_types() {
    let mismatch = |operator| RuntimeErrorKind::TypeMismatch { operator };
    assert_eq!(error_of("true + false;"), mismatch(BinaryOperator::Plus));
    assert_eq!(error_of(r#"1 + "a";"#), mismatch(BinaryOperator::Plus));
    assert_eq!(error_of(r#""a" - "b";"#), mismatch(BinaryOperator::Minus));
    assert_eq!(error_of("nil * 2;"), mismatch(BinaryOperator::Mult));
    assert_eq!(error_of(r#""a" / 2;"#), mismatch(BinaryOperator::Div));
    assert_eq!(error_of(r#""a" < "b";"#), mismatch(BinaryOperator::Less));
    assert_eq!(error_of("1 <= nil;"), mismatch(BinaryOperator::LessEqual));
    assert_eq!(error_of("true > false;"), mismatch(BinaryOperator::Greater));
    assert_eq!(error_of(r#"1 >= "1";"#), mismatch(BinaryOperator::GreaterEqual));
    assert_eq!(error_of(r#"-"a";"#), RuntimeErrorKind::ExpectedNumber);
    assert_eq!(error_of("-nil;"), RuntimeErrorKind::ExpectedNumber);
}

#[test]
fn the_left_operand_is_evaluated_first() {
    // Both sides fail; the error is that of the left side.
    assert_eq!(
        error_of("a + b;"),
        RuntimeErrorKind::UndefinedVariable { name: "a".to_string() }
    );
    assert_eq!(error_of("-nil + b;"), RuntimeErrorKind::ExpectedNumber);
}

#[test]
fn variables_must_be_defined() {
    assert_eq!(
        error_of("x;"),
        RuntimeErrorKind::UndefinedVariable { name: "x".to_string() }
    );
    assert_eq!(
        error_of("x = 1;"),
        RuntimeErrorKind::UndefinedAssignment { name: "x".to_string() }
    );
    let mut int = Interpreter::default();
    let stmts = parse("x = 1;");
    assert!(int.interpret(&stmts[0], &kernel, FUEL).is_err());
    assert!(int.get_var("x").is_none());
}

#[test]
fn only_a_variable_can_be_assigned_to() {
    assert_eq!(error_of("1 = 2;"), RuntimeErrorKind::InvalidAssignmentTarget);
    assert_eq!(error_of("(x) = 2;"), RuntimeErrorKind::InvalidAssignmentTarget);
    // The right side is evaluated before the target is looked at.
    assert_eq!(
        error_of("1 = y;"),
        RuntimeErrorKind::UndefinedVariable { name: "y".to_string() }
    );
}

#[test]
fn an_assignment_gives_the_value_held_before() {
    let mut int = Interpreter::default();
    interpret_stmts("var x = 1;", &mut int);
    let stmts = parse("x = 2;");
    let Stmt::ExprStmt(ref expr) = stmts[0] else {
        panic!()
    };
    assert_eq!(int.evaluate(expr, &kernel).unwrap(), num(1.0));
    assert_eq!(get_var(&int, "x"), &num(2.0));
}

#[test]
fn a_declaration_without_a_value_binds_nil() {
    let mut int = Interpreter::default();
    interpret_stmts("var x; var y = x == nil;", &mut int);
    assert_eq!(get_var(&int, "x"), &Value::Nil);
    assert_eq!(get_var(&int, "y"), &Value::Bool(true));
    // A second declaration of the name replaces the first.
    interpret_stmts(r#"var x = "again";"#, &mut int);
    assert_eq!(get_var(&int, "x"), &text("again"));
}

#[test]
fn print_collects_values_in_order() {
    let mut int = Interpreter::default();
    interpret_stmts(r#"print 1; print "two"; print nil; print 1 < 2;"#, &mut int);
    assert_eq!(
        int.take_output(),
        vec![num(1.0), text("two"), Value::Nil, Value::Bool(true)]
    );
    assert!(int.take_output().is_empty());
    interpret_stmts("print 3;", &mut int);
    assert_eq!(int.take_output(), vec![num(3.0)]);
}

#[test]
fn if_without_else_does_nothing_on_a_falsy_condition() {
    assert_eq!(run("if (nil) print 1; print 2;"), vec![num(2.0)]);
    assert_eq!(run("if (0) print 1; else print 2;"), vec![num(1.0)]);
    assert_eq!(run("if (false) print 1; else print 2;"), vec![num(2.0)]);
}

#[test]
fn a_while_loop_evaluates_its_condition_before_every_round() {
    assert_eq!(
        run("var i = 0; while (i < 3) { print i; i = i + 1; } print i;"),
        vec![num(0.0), num(1.0), num(2.0), num(3.0)]
    );
    assert_eq!(run("while (false) print 1;"), vec![]);
    assert_eq!(
        run(
            "var i = 0; var n = 0;
             while (i < 3) { var j = 0; while (j < 2) { n = n + 1; j = j + 1; } i = i + 1; }
             print n;"
        ),
        vec![num(6.0)]
    );
}

#[test]
fn a_loop_stops_with_an_error_when_its_rounds_are_used_up() {
    let mut int = Interpreter::default();
    interpret_stmts("var i = 0;", &mut int);
    let stmts = parse("while (i < 10) i = i + 1;");
    let result = int.interpret(&stmts[0], &kernel, 4);
    assert_eq!(result.err().unwrap().kind, RuntimeErrorKind::StepLimit);
    assert_eq!(get_var(&int, "i"), &num(4.0));

    let mut int = Interpreter::default();
    interpret_stmts("var i = 0;", &mut int);
    assert!(int.interpret(&stmts[0], &kernel, 10).is_ok());
    assert_eq!(get_var(&int, "i"), &num(10.0));

    let mut int = Interpreter::default();
    let stmts = parse("while (true) {}");
    assert_eq!(
        int.interpret(&stmts[0], &kernel, 1000).err().unwrap().kind,
        RuntimeErrorKind::StepLimit
    );
    let stmts = parse("while (false) {}");
    assert!(int.interpret(&stmts[0], &kernel, 0).is_ok());
}

#[test]
fn a_block_that_fails_still_leaves_its_scope() {
    let mut int = Interpreter::default();
    interpret_stmts("var x = 1;", &mut int);
    let stmts = parse("{ var x = 2; { var x = 3; print x; y; print 4; } print 5; }");
    let result = int.interpret(&stmts[0], &kernel, FUEL);
    assert_eq!(
        result.err().unwrap().kind,
        RuntimeErrorKind::UndefinedVariable { name: "y".to_string() }
    );
    assert_eq!(int.take_output(), vec![num(3.0)]);
    assert_eq!(get_var(&int, "x"), &num(1.0));
    // The scopes are back to the global one: a new declaration is global.
    interpret_stmts("var z = 9; { z = 10; }", &mut int);
    assert_eq!(get_var(&int, "z"), &num(10.0));
}

#[test]
fn a_failing_statement_keeps_what_it_did_before() {
    let mut int = Interpreter::default();
    interpret_stmts("var x = 1;", &mut int);
    let stmts = parse("{ x = 2; print x; nil + 1; x = 3; }");
    assert!(int.interpret(&stmts[0], &kernel, FUEL).is_err());
    assert_eq!(get_var(&int, "x"), &num(2.0));
    assert_eq!(int.take_output(), vec![num(2.0)]);
}

#[test]
fn a_literal_that_is_no_number_is_an_error() {
    let mut int = Interpreter::default();
    let bad: Expression = Literal::Number("abc".to_string()).into();
    assert_eq!(
        int.evaluate(&bad, &kernel).err().unwrap().kind,
        RuntimeErrorKind::InvalidNumber
    );
    let good: Expression = Literal::Number("1.5".to_string()).into();
    assert_eq!(int.evaluate(&good, &kernel).unwrap(), num(1.5));
}

#[test]
fn an_infix_node_with_the_assignment_operator_computes_nothing() {
    let mut int = Interpreter::default();
    let node: Expression = Binary {
        operator: BinaryOperator::Equal,
        left: Box::new(Literal::Nil.into()),
        right: Box::new(Literal::Nil.into()),
    }
    .into();
    assert_eq!(
        int.evaluate(&node, &kernel).err().unwrap().kind,
        RuntimeErrorKind::UnexpectedOperator { operator: BinaryOperator::Equal }
    );
    let name: Expression = Var { name: "v".to_string() }.into();
    assert_eq!(
        int.evaluate(&name, &kernel).err().unwrap().kind,
        RuntimeErrorKind::UndefinedVariable { name: "v".to_string() }
    );
}

#[test]
fn the_kernel_decides_the_arithmetic() {
    // A kernel that answers every question with 1.
    let one = |_: NumberQuery| Some(1.0f64.to_bits());
    let mut int = Interpreter::default();
    let stmts = parse("2 + 3 * 5;");
    let Stmt::ExprStmt(ref expr) = stmts[0] else {
        panic!()
    };
    assert_eq!(int.evaluate(expr, &one).unwrap(), num(1.0));
    // A kernel that gives no answer to a division.
    let partial = |q: NumberQuery| match q {
        NumberQuery::Divide(_, _) => None,
        other => kernel(other),
    };
    let stmts = parse("1 + 4 / 2;");
    let Stmt::ExprStmt(ref expr) = stmts[0] else {
        panic!()
    };
    assert_eq!(
        int.evaluate(expr, &partial).err().unwrap().kind,
        RuntimeErrorKind::InvalidNumber
    );
}

#[test]
fn a_whole_program() {
    let output = run(
        r#"
        // The first numbers of Fibonacci, and a greeting.
        var a = 0;
        var b = 1;
        var n = 0;
        while (n < 10) {
            print a;
            var next = a + b;
            a = b;
            b = next;
            n = n + 1;
        }
        var greeting = "hi" * 2 + "!";
        if (a == 55 and greeting == "hihi!") {
            print greeting;
        } else {
            print "wrong";
        }
    "#,
    );
    let mut expected: Vec<Value> = [0.0, 1.0, 1.0, 2.0, 3.0, 5.0, 8.0, 13.0, 21.0, 34.0]
        .iter()
        .map(|n| num(*n))
        .collect();
    expected.push(text("hihi!"));
    assert_eq!(output, expected);
}

#[test]
fn a_nan_from_the_kernel_is_kept_in_one_bit_pattern() {
    let bits_of = |v: Value| match v {
        Value::Number(bits) => bits,
        other => panic!("{other:?}"),
    };
    assert_eq!(bits_of(evaluate_expr("0 / 0;")), 0x7ff8_0000_0000_0000);
    assert_eq!(bits_of(evaluate_expr("0 / 0 + 1;")), 0x7ff8_0000_0000_0000);
    // A kernel that answers with a NaN of another pattern.
    let odd = |_: NumberQuery| Some(0xfff0_0000_0000_0001u64);
    let mut int = Interpreter::default();
    let stmts = parse("1 + 2;");
    let Stmt::ExprStmt(ref expr) = stmts[0] else {
        panic!()
    };
    assert_eq!(bits_of(int.evaluate(expr, &odd).unwrap()), 0x7ff8_0000_0000_0000);
    // Numbers that are no NaN come through as they are.
    assert_eq!(bits_of(evaluate_expr("1 / 0;")), f64::INFINITY.to_bits());
    assert_eq!(bits_of(evaluate_expr("0 * -1;")), (-0.0f64).to_bits());
}

#[test]
fn an_empty_string_is_repeated_at_once() {
    assert_eq!(evaluate_expr(r#" "" * 1000000000000000000000;"#), text(""));
    assert_eq!(evaluate_expr(r#" "" * (1 / 0);"#), text(""));
}

#[test]
fn a_block_leaves_outside_names_alone() {
    let mut int = Interpreter::default();
    interpret_stmts(
        r#"
        var kept = 1;
        var changed = 1;
        {
            var kept = 2;
            var inner = 3;
            inner = 4;
            changed = 5;
            { var kept = 6; var deeper = 7; }
            while (inner < 6) { var kept = inner; inner = inner + 1; }
            if (true) { var kept = 8; }
        }
    "#,
        &mut int,
    );
    assert_eq!(get_var(&int, "kept"), &num(1.0));
    assert_eq!(get_var(&int, "changed"), &num(5.0));
    assert!(int.get_var("inner").is_none());
    assert!(int.get_var("deeper").is_none());
    // A name that the block declares and then assigns to is the block's
    // own: the one outside keeps its value.
    interpret_stmts("{ var kept = 2; kept = 3; print kept; }", &mut int);
    assert_eq!(int.take_output(), vec![num(3.0)]);
    assert_eq!(get_var(&int, "kept"), &num(1.0));
    // The same holds of a block that fails.
    let stmts = parse("{ var kept = 9; var other = 1; missing; }");
    assert!(int.interpret(&stmts[0], &kernel, FUEL).is_err());
    assert_eq!(get_var(&int, "kept"), &num(1.0));
    assert!(int.get_var("other").is_none());
}
