use rlox::environment::Environment;
use rlox::error::RuntimeErrorKind;
use rlox::naming::{camel_to_snake, is_upper, push_snake};
use rlox::number::{
    canonical_bits, count, equal, length, less, less_or_equal, nan, negate, negative, zero,
};
use rlox::number::NumberQuery;
use rlox::operator::BinaryOperator;
use rlox::text::{text_between, to_chars};
use rlox::value::{number_result, repeat, Value};

fn samples() -> Vec<f64> {
    vec![
        0.0,
        -0.0,
        1.0,
        -1.0,
        0.5,
        -0.5,
        2.0,
        2.9,
        -2.9,
        1e-320,
        -1e-320,
        f64::MIN_POSITIVE,
        123.456,
        4503599627370496.0,
        9007199254740992.0,
        9007199254740993.0,
        1e15,
        1e19,
        9223372036854775808.0,
        18446744073709549568.0,
        18446744073709551616.0,
        1e300,
        f64::MAX,
        f64::MIN,
        f64::INFINITY,
        f64::NEG_INFINITY,
        f64::NAN,
        -f64::NAN,
        f64::from_bits(0x7ff0_0000_0000_0001),
        f64::from_bits(0xfff8_0000_0000_0001),
    ]
}

fn kernel(query: NumberQuery) -> Option<u64> {
    match query {
        NumberQuery::Parse(text) => text.parse::<f64>().ok().map(f64::to_bits),
        NumberQuery::Add(a, b) => Some((f64::from_bits(a) + f64::from_bits(b)).to_bits()),
        NumberQuery::Subtract(a, b) => Some((f64::from_bits(a) - f64::from_bits(b)).to_bits()),
        NumberQuery::Multiply(a, b) => Some((f64::from_bits(a) * f64::from_bits(b)).to_bits()),
        NumberQuery::Divide(a, b) => Some((f64::from_bits(a) / f64::from_bits(b)).to_bits()),
    }
}

#[test]
fn number_tests_agree_with_doubles() {
    for x in samples() {
        let bits = x.to_bits();
        assert_eq!(nan(bits), x.is_nan(), "{x}");
        assert_eq!(zero(bits), x == 0.0, "{x}");
        assert_eq!(negative(bits), x.is_sign_negative(), "{x}");
        assert_eq!(negate(bits), (-x).to_bits(), "{x}");
    }
}

#[test]
fn number_order_agrees_with_doubles() {
    for x in samples() {
        for y in samples() {
            let (a, b) = (x.to_bits(), y.to_bits());
            assert_eq!(equal(a, b), x == y, "{x} == {y}");
            assert_eq!(less(a, b), x < y, "{x} < {y}");
            assert_eq!(less_or_equal(a, b), x <= y, "{x} <= {y}");
            assert_eq!(less(b, a), x > y, "{x} > {y}");
            assert_eq!(less_or_equal(b, a), x >= y, "{x} >= {y}");
        }
    }
}

#[test]
fn the_count_of_a_number_cuts_off_its_fraction() {
    for x in samples() {
        assert_eq!(count(x.to_bits()), x as u64, "{x}");
        assert_eq!(length(x.to_bits()), x as usize, "{x}");
    }
    assert_eq!(count(2.9f64.to_bits()), 2);
    assert_eq!(count(3.0f64.to_bits()), 3);
    assert_eq!(count(0.99f64.to_bits()), 0);
    assert_eq!(count((-5.0f64).to_bits()), 0);
    assert_eq!(count(f64::NAN.to_bits()), 0);
    assert_eq!(count(f64::INFINITY.to_bits()), u64::MAX);
    assert_eq!(count(1e19f64.to_bits()), 10_000_000_000_000_000_000);
}

#[test]
fn truthiness() {
    assert!(!Value::Bool(false).is_truthy());
    assert!(!Value::Nil.is_truthy());
    assert!(Value::Bool(true).is_truthy());
    assert!(Value::Number(0.0f64.to_bits()).is_truthy());
    assert!(Value::Number(f64::NAN.to_bits()).is_truthy());
    assert!(Value::String(String::new()).is_truthy());
    assert!(Value::String("false".to_string()).is_truthy());
}

#[test]
fn equality_of_values() {
    let one = Value::Number(1.0f64.to_bits());
    assert!(one.equals(&Value::Number(1.0f64.to_bits())));
    assert!(one == one.duplicate());
    assert!(!one.equals(&Value::String("1".to_string())));
    assert!(one != Value::Bool(true));
    assert!(Value::Nil != Value::Bool(false));
    assert!(Value::Nil == Value::Nil);
    assert!(Value::Number(0.0f64.to_bits()) == Value::Number((-0.0f64).to_bits()));
    assert!(Value::Number(f64::NAN.to_bits()) != Value::Number(f64::NAN.to_bits()));
    assert!(Value::String("a".to_string()) == Value::String("a".to_string()));
    assert!(Value::String("a".to_string()) != Value::String("b".to_string()));
    let s = Value::String("copy".to_string());
    assert_eq!(s.duplicate(), s);
}

#[test]
fn applying_operators() {
    let n = |x: f64| Value::Number(x.to_bits());
    let s = |x: &str| Value::String(x.to_string());
    assert_eq!(Value::apply(BinaryOperator::Plus, n(1.5), n(2.0), &kernel), Ok(n(3.5)));
    assert_eq!(Value::apply(BinaryOperator::Minus, n(1.5), n(2.0), &kernel), Ok(n(-0.5)));
    assert_eq!(Value::apply(BinaryOperator::Mult, n(1.5), n(2.0), &kernel), Ok(n(3.0)));
    assert_eq!(Value::apply(BinaryOperator::Div, n(1.5), n(2.0), &kernel), Ok(n(0.75)));
    assert_eq!(Value::apply(BinaryOperator::Plus, s("a"), s("b"), &kernel), Ok(s("ab")));
    assert_eq!(Value::apply(BinaryOperator::Mult, s("ab"), n(3.0), &kernel), Ok(s("ababab")));
    assert_eq!(
        Value::apply(BinaryOperator::EqualEqual, s("3"), n(3.0), &kernel),
        Ok(Value::Bool(false))
    );
    assert_eq!(
        Value::apply(BinaryOperator::NotEqual, s("3"), n(3.0), &kernel),
        Ok(Value::Bool(true))
    );
    assert_eq!(
        Value::apply(BinaryOperator::Less, n(1.0), n(2.0), &kernel),
        Ok(Value::Bool(true))
    );
    for op in [BinaryOperator::Equal, BinaryOperator::And, BinaryOperator::Or] {
        assert_eq!(
            Value::apply(op, n(1.0), n(2.0), &kernel).err().unwrap().kind,
            RuntimeErrorKind::UnexpectedOperator { operator: op }
        );
    }
    assert_eq!(
        Value::apply(BinaryOperator::Plus, s("a"), n(1.0), &kernel).err().unwrap().kind,
        RuntimeErrorKind::TypeMismatch { operator: BinaryOperator::Plus }
    );
    assert_eq!(number_result(Some(7)), Ok(Value::Number(7)));
    for nan in [f64::NAN.to_bits(), (-f64::NAN).to_bits(), 0x7ff0_0000_0000_0001] {
        assert!(f64::from_bits(nan).is_nan());
        assert_eq!(canonical_bits(nan), 0x7ff8_0000_0000_0000);
        match number_result(Some(nan)) {
            Ok(Value::Number(bits)) => assert_eq!(bits, 0x7ff8_0000_0000_0000),
            other => panic!("{other:?}"),
        }
    }
    for x in samples() {
        if !x.is_nan() {
            assert_eq!(canonical_bits(x.to_bits()), x.to_bits());
        }
    }
    assert_eq!(
        number_result(None).err().unwrap().kind,
        RuntimeErrorKind::InvalidNumber
    );
}

#[test]
fn repeating_a_string() {
    assert_eq!(repeat(&"ab".to_string(), 3), "ababab");
    assert_eq!(repeat(&"ab".to_string(), 0), "");
    assert_eq!(repeat(&String::new(), 5), "");
    assert_eq!(repeat(&String::new(), usize::MAX), "");
    assert_eq!(repeat(&"é".to_string(), 2), "éé");
}

#[test]
fn text_and_its_characters() {
    assert_eq!(to_chars("héllo"), vec!['h', 'é', 'l', 'l', 'o']);
    assert_eq!(to_chars(""), Vec::<char>::new());
    let chars = to_chars("hello, world");
    assert_eq!(text_between(&chars, 7, 12), "world");
    assert_eq!(text_between(&chars, 0, 5), "hello");
    assert_eq!(text_between(&chars, 3, 3), "");
}

#[test]
fn an_environment_starts_with_the_global_scope() {
    let mut env = Environment::default();
    assert_eq!(env.depth(), 1);
    assert!(env.get("x").is_none());
    env.define("x", Value::Bool(true));
    assert_eq!(env.get("x"), Some(&Value::Bool(true)));
    env.define("x", Value::Nil);
    assert_eq!(env.get("x"), Some(&Value::Nil));
    assert_eq!(env.depth(), 1);
}

#[test]
fn scopes_shadow_and_are_left_again() {
    let mut env = Environment::default();
    env.define("x", Value::Number(1));
    env.define("y", Value::Number(10));
    env.push_scope();
    assert_eq!(env.depth(), 2);
    assert_eq!(env.get("x"), Some(&Value::Number(1)));
    env.define("x", Value::Number(2));
    assert_eq!(env.get("x"), Some(&Value::Number(2)));
    assert_eq!(env.get("y"), Some(&Value::Number(10)));
    env.pop_scope();
    assert_eq!(env.depth(), 1);
    assert_eq!(env.get("x"), Some(&Value::Number(1)));
}

#[test]
fn assignment_changes_the_innermost_scope_that_binds_the_name() {
    let mut env = Environment::default();
    env.define("x", Value::Number(1));
    env.push_scope();
    env.push_scope();
    assert_eq!(env.assign("x", Value::Number(2)), Ok(Value::Number(1)));
    assert_eq!(env.get("x"), Some(&Value::Number(2)));
    env.define("x", Value::Number(3));
    assert_eq!(env.assign("x", Value::Number(4)), Ok(Value::Number(3)));
    env.pop_scope();
    assert_eq!(env.get("x"), Some(&Value::Number(2)));
    env.pop_scope();
    assert_eq!(env.get("x"), Some(&Value::Number(2)));
    assert_eq!(
        env.assign("nowhere", Value::Nil).err().unwrap().kind,
        RuntimeErrorKind::UndefinedAssignment { name: "nowhere".to_string() }
    );
    assert!(env.get("nowhere").is_none());
}

#[test]
fn camel_case_becomes_snake_case() {
    assert_eq!(camel_to_snake("ExprStmt".to_string()), "expr_stmt");
    assert_eq!(camel_to_snake("VarDecl".to_string()), "var_decl");
    assert_eq!(camel_to_snake("Literal".to_string()), "literal");
    assert_eq!(camel_to_snake("literal".to_string()), "literal");
    assert_eq!(camel_to_snake("ifStmt".to_string()), "if_stmt");
    assert_eq!(camel_to_snake("ABC".to_string()), "a_b_c");
    assert_eq!(camel_to_snake(String::new()), "");
    assert_eq!(camel_to_snake("already_snake".to_string()), "already_snake");
    assert_eq!(camel_to_snake("X1Y".to_string()), "x1_y");
    for c in 0u8..128 {
        let c = c as char;
        assert_eq!(is_upper(c), c.is_ascii_uppercase(), "{c:?}");
    }
    assert!(is_upper('Δ'));
    assert!(!is_upper('δ'));
    // An upper-case letter outside ASCII gets an underscore and stays as it is.
    assert_eq!(camel_to_snake("aÉb".to_string()), "a_Éb");
}

#[test]
fn one_character_of_a_snake_case_name() {
    let mut out = "a".to_string();
    push_snake(&mut out, 'B', true, false);
    assert_eq!(out, "a_b");
    push_snake(&mut out, 'c', false, false);
    assert_eq!(out, "a_bc");
    let mut out = String::new();
    push_snake(&mut out, 'Z', true, true);
    assert_eq!(out, "z");
    push_snake(&mut out, 'Q', false, false);
    assert_eq!(out, "zQ");
}
