use rlox::ast_print::AstPrinter;
use rlox::expression::{Binary, Expression, Grouping, Literal, Unary};
use rlox::operator::{BinaryOperator, UnaryOperator};

/// Writes a number as the shortest decimal text of its double.
fn shortest(text: String) -> String {
    format!("{}", text.parse::<f64>().unwrap())
}

fn number(text: &str) -> Box<Expression> {
    Box::new(Literal::Number(text.to_string()).into())
}

#[test]
fn test_literal() {
    let mut printer = AstPrinter;
    let literal = Literal::String("print test".to_string());
    assert_eq!(
        r#""print test""#.to_string(),
        printer.print(&literal.into())
    );

    let literal = Literal::True;
    assert_eq!("true", printer.print(&literal.into()));

    let literal = Literal::Number("64.0".to_string());
    assert_eq!("64", printer.print_with(&literal.into(), &shortest));
}

#[test]
fn a_number_is_printed_as_written_or_as_the_writer_writes_it() {
    let mut printer = AstPrinter;
    for (written, short) in [("64", "64"), ("64.0", "64"), ("2.50", "2.5"), ("5.", "5"), ("0.1", "0.1")] {
        let literal: Expression = Literal::Number(written.to_string()).into();
        assert_eq!(printer.print(&literal), written);
        assert_eq!(printer.print_with(&literal, &shortest), short);
    }
    let expr: Expression = Binary {
        operator: BinaryOperator::Plus,
        left: number("2.0"),
        right: Box::new(
            Unary {
                operator: UnaryOperator::Not,
                expr: Box::new(Grouping { expr: number("3.10") }.into()),
            }
            .into(),
        ),
    }
    .into();
    assert_eq!(printer.print(&expr), "(+ 2.0 (! (group 3.10)))");
    assert_eq!(printer.print_with(&expr, &shortest), "(+ 2 (! (group 3.1)))");
    let words: Expression = Binary {
        operator: BinaryOperator::Or,
        left: Box::new(Literal::Nil.into()),
        right: Box::new(Literal::False.into()),
    }
    .into();
    assert_eq!(printer.print_with(&words, &shortest), "(or nil false)");
}

#[test]
fn test_binary() {
    let mut printer = AstPrinter;
    let binary = Binary {
        operator: BinaryOperator::Plus,
        left: number("2"),
        right: number("3"),
    };
    assert_eq!("(+ 2 3)", printer.print(&binary.into()));
}

#[test]
fn test_expr() {
    let mut printer = AstPrinter;
    let expr = Binary {
        operator: BinaryOperator::Mult,
        left: Box::new(
            Unary {
                operator: UnaryOperator::Minus,
                expr: number("123"),
            }
            .into(),
        ),
        right: Box::new(
            Grouping {
                expr: number("45.67"),
            }
            .into(),
        ),
    };
    assert_eq!("(* (- 123) (group 45.67))", printer.print(&expr.into()));

    let expr = Binary {
        operator: BinaryOperator::Mult,
        left: Box::new(
            Grouping {
                expr: Box::new(
                    Binary {
                        operator: BinaryOperator::Plus,
                        left: number("2"),
                        right: number("2"),
                    }
                    .into(),
                ),
            }
            .into(),
        ),
        right: Box::new(
            Grouping {
                expr: Box::new(
                    Binary {
                        operator: BinaryOperator::Plus,
                        left: number("3"),
                        right: Box::new(
                            Unary {
                                operator: UnaryOperator::Minus,
                                expr: number("1"),
                            }
                            .into(),
                        ),
                    }
                    .into(),
                ),
            }
            .into(),
        ),
    };
    assert_eq!(
        "(* (group (+ 2 2)) (group (+ 3 (- 1))))",
        printer.print(&expr.into())
    );
}
