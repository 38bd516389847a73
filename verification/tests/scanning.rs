use rlox::error::SyntaxError;
use rlox::scanner::Scanner;
use rlox::token::{Token, TokenKind, TokenType};

fn scan(source: &str) -> Result<Vec<Token>, Vec<SyntaxError>> {
    Scanner::new(source.to_string()).scan_source()
}

fn number(text: &str) -> TokenType {
    TokenType::Number(text.to_string())
}

fn string(text: &str) -> TokenType {
    TokenType::String(text.to_string())
}

fn identifier(text: &str) -> TokenType {
    TokenType::Identifier(text.to_string())
}

#[test]
fn scan_string_test() {
    let source = r#"
        "hello, world";
        "hello again!";
    "#;
    let scanner = Scanner::new(source.to_string());
    let tokens = scanner.scan_source().unwrap();
    assert_eq!(
        tokens,
        vec![
            Token::new(TokenType::String("hello, world".to_string()), 2),
            Token::new(TokenType::Semicolon, 2),
            Token::new(TokenType::String("hello again!".to_string()), 3),
            Token::new(TokenType::Semicolon, 3),
            Token::new(TokenType::EOF, 4),
        ]
    );
}

#[test]
fn scan_number_test() {
    let source = r#"
        12345;
        123.456;
    "#;
    let scanner = Scanner::new(source.to_string());
    let tokens = scanner.scan_source().unwrap();
    assert_eq!(
        tokens,
        vec![
            Token::new(number("12345"), 2),
            Token::new(TokenType::Semicolon, 2),
            Token::new(number("123.456"), 3),
            Token::new(TokenType::Semicolon, 3),
            Token::new(TokenType::EOF, 4),
        ]
    );
    let values: Vec<f64> = tokens
        .iter()
        .filter(|t| t.token_type.kind() == TokenKind::Number)
        .map(|t| t.lexeme().parse::<f64>().unwrap())
        .collect();
    assert_eq!(values, vec![12345.0, 123.456]);
}

#[test]
fn scan_comment_test() {
    let source = r#"
        // This is a comment
        5 / 10;
    "#;
    let scanner = Scanner::new(source.to_string());
    let tokens = scanner.scan_source().unwrap();
    assert_eq!(
        tokens,
        vec![
            Token::new(number("5"), 3),
            Token::new(TokenType::Slash, 3),
            Token::new(number("10"), 3),
            Token::new(TokenType::Semicolon, 3),
            Token::new(TokenType::EOF, 4),
        ]
    );
}

#[test]
fn scan_identifier_test() {
    let source = r#"
        var test_var = "hello, world";
        print test_var;
    "#;
    let scanner = Scanner::new(source.to_string());
    let tokens = scanner.scan_source().unwrap();
    assert_eq!(
        tokens,
        vec![
            Token::new(TokenType::Var, 2),
            Token::new(TokenType::Identifier("test_var".to_string()), 2),
            Token::new(TokenType::Equal, 2),
            Token::new(TokenType::String("hello, world".to_string()), 2),
            Token::new(TokenType::Semicolon, 2),
            Token::new(TokenType::Print, 3),
            Token::new(TokenType::Identifier("test_var".to_string()), 3),
            Token::new(TokenType::Semicolon, 3),
            Token::new(TokenType::EOF, 4),
        ]
    );
}

#[test]
fn scanner_test() {
    let source = r#"// A tour of the language.
print "Hello, world!";
divide / me;
-negateMe;
lessThan <= orEqual;
greater > than;
greaterThan >= orEqual;

123 == "123";
!false;
true and false;
true or false;

if (condition) {
  print "yes";
} else {
  print "no";
}

fun printSum(a, b) {
  print a + b;
}

class Breakfast {
  cook() {
    print "Eggs a-fryin'!";
  }

  serve(who) {
    print "Enjoy your breakfast, " + who + ".";
  }
}
"#;
    let scanner = Scanner::new(source.to_string());
    let tokens = scanner.scan_source().unwrap();
    assert_eq!(
        tokens,
        vec![
            Token::new(TokenType::Print, 2),
            Token::new(TokenType::String("Hello, world!".to_string()), 2),
            Token::new(TokenType::Semicolon, 2),
            Token::new(TokenType::Identifier("divide".to_string()), 3),
            Token::new(TokenType::Slash, 3),
            Token::new(TokenType::Identifier("me".to_string()), 3),
            Token::new(TokenType::Semicolon, 3),
            Token::new(TokenType::Minus, 4),
            Token::new(TokenType::Identifier("negateMe".to_string()), 4),
            Token::new(TokenType::Semicolon, 4),
            Token::new(TokenType::Identifier("lessThan".to_string()), 5),
            Token::new(TokenType::LessEqual, 5),
            Token::new(TokenType::Identifier("orEqual".to_string()), 5),
            Token::new(TokenType::Semicolon, 5),
            Token::new(TokenType::Identifier("greater".to_string()), 6),
            Token::new(TokenType::Greater, 6),
            Token::new(TokenType::Identifier("than".to_string()), 6),
            Token::new(TokenType::Semicolon, 6),
            Token::new(TokenType::Identifier("greaterThan".to_string()), 7),
            Token::new(TokenType::GreaterEqual, 7),
            Token::new(TokenType::Identifier("orEqual".to_string()), 7),
            Token::new(TokenType::Semicolon, 7),
            Token::new(number("123"), 9),
            Token::new(TokenType::EqualEqual, 9),
            Token::new(TokenType::String("123".to_string()), 9),
            Token::new(TokenType::Semicolon, 9),
            Token::new(TokenType::Bang, 10),
            Token::new(TokenType::False, 10),
            Token::new(TokenType::Semicolon, 10),
            Token::new(TokenType::True, 11),
            Token::new(TokenType::And, 11),
            Token::new(TokenType::False, 11),
            Token::new(TokenType::Semicolon, 11),
            Token::new(TokenType::True, 12),
            Token::new(TokenType::Or, 12),
            Token::new(TokenType::False, 12),
            Token::new(TokenType::Semicolon, 12),
            Token::new(TokenType::If, 14),
            Token::new(TokenType::LeftParen, 14),
            Token::new(TokenType::Identifier("condition".to_string()), 14),
            Token::new(TokenType::RightParen, 14),
            Token::new(TokenType::LeftBrace, 14),
            Token::new(TokenType::Print, 15),
            Token::new(TokenType::String("yes".to_string()), 15),
            Token::new(TokenType::Semicolon, 15),
            Token::new(TokenType::RightBrace, 16),
            Token::new(TokenType::Else, 16),
            Token::new(TokenType::LeftBrace, 16),
            Token::new(TokenType::Print, 17),
            Token::new(TokenType::String("no".to_string()), 17),
            Token::new(TokenType::Semicolon, 17),
            Token::new(TokenType::RightBrace, 18),
            Token::new(TokenType::Fun, 20),
            Token::new(TokenType::Identifier("printSum".to_string()), 20),
            Token::new(TokenType::LeftParen, 20),
            Token::new(TokenType::Identifier("a".to_string()), 20),
            Token::new(TokenType::Comma, 20),
            Token::new(TokenType::Identifier("b".to_string()), 20),
            Token::new(TokenType::RightParen, 20),
            Token::new(TokenType::LeftBrace, 20),
            Token::new(TokenType::Print, 21),
            Token::new(TokenType::Identifier("a".to_string()), 21),
            Token::new(TokenType::Plus, 21),
            Token::new(TokenType::Identifier("b".to_string()), 21),
            Token::new(TokenType::Semicolon, 21),
            Token::new(TokenType::RightBrace, 22),
            Token::new(TokenType::Class, 24),
            Token::new(TokenType::Identifier("Breakfast".to_string()), 24),
            Token::new(TokenType::LeftBrace, 24),
            Token::new(TokenType::Identifier("cook".to_string()), 25),
            Token::new(TokenType::LeftParen, 25),
            Token::new(TokenType::RightParen, 25),
            Token::new(TokenType::LeftBrace, 25),
            Token::new(TokenType::Print, 26),
            Token::new(TokenType::String("Eggs a-fryin'!".to_string()), 26),
            Token::new(TokenType::Semicolon, 26),
            Token::new(TokenType::RightBrace, 27),
            Token::new(TokenType::Identifier("serve".to_string()), 29),
            Token::new(TokenType::LeftParen, 29),
            Token::new(TokenType::Identifier("who".to_string()), 29),
            Token::new(TokenType::RightParen, 29),
            Token::new(TokenType::LeftBrace, 29),
            Token::new(TokenType::Print, 30),
            Token::new(TokenType::String("Enjoy your breakfast, ".to_string()), 30),
            Token::new(TokenType::Plus, 30),
            Token::new(TokenType::Identifier("who".to_string()), 30),
            Token::new(TokenType::Plus, 30),
            Token::new(TokenType::String(".".to_string()), 30),
            Token::new(TokenType::Semicolon, 30),
            Token::new(TokenType::RightBrace, 31),
            Token::new(TokenType::RightBrace, 32),
            Token::new(TokenType::EOF, 32),
        ],
    );
}

#[test]
fn sytnax_error_test() {
    let source = r#"
        "
    "#;
    let scanner = Scanner::new(source.to_string());
    let errors = scanner.scan_source().err().unwrap();
    assert_eq!(errors, vec![SyntaxError { line_num: 2 }]);
}

#[test]
fn empty_source_is_an_end_marker_on_line_zero() {
    assert_eq!(scan("").unwrap(), vec![Token::new(TokenType::EOF, 0)]);
    assert_eq!(scan("\n").unwrap(), vec![Token::new(TokenType::EOF, 1)]);
    assert_eq!(scan("\n\n").unwrap(), vec![Token::new(TokenType::EOF, 2)]);
    assert_eq!(scan("a").unwrap().last().unwrap().line_num, 1);
    assert_eq!(scan("a\n").unwrap().last().unwrap().line_num, 1);
}

#[test]
fn every_single_character_token_is_read() {
    let tokens = scan("( ) { } , . - + ; *").unwrap();
    let kinds: Vec<TokenKind> = tokens.iter().map(|t| t.kind()).collect();
    assert_eq!(
        kinds,
        vec![
            TokenKind::LeftParen,
            TokenKind::RightParen,
            TokenKind::LeftBrace,
            TokenKind::RightBrace,
            TokenKind::Comma,
            TokenKind::Dot,
            TokenKind::Minus,
            TokenKind::Plus,
            TokenKind::Semicolon,
            TokenKind::Star,
            TokenKind::EOF,
        ]
    );
}

#[test]
fn operators_of_one_and_two_characters() {
    let tokens = scan("! != = == > >= < <= / x").unwrap();
    let kinds: Vec<TokenKind> = tokens.iter().map(|t| t.kind()).collect();
    assert_eq!(
        kinds,
        vec![
            TokenKind::Bang,
            TokenKind::BangEqual,
            TokenKind::Equal,
            TokenKind::EqualEqual,
            TokenKind::Greater,
            TokenKind::GreaterEqual,
            TokenKind::Less,
            TokenKind::LessEqual,
            TokenKind::Slash,
            TokenKind::Identifier,
            TokenKind::EOF,
        ]
    );
}

#[test]
fn operator_at_the_end_of_a_line_is_an_error() {
    for source in ["!", "=", ">", "<", "/", "x =\n1;"] {
        assert_eq!(
            scan(source).err().unwrap(),
            vec![SyntaxError { line_num: 1 }],
            "{source:?}"
        );
    }
    assert!(scan("x ==").is_ok());
}

#[test]
fn carriage_return_before_line_feed_ends_the_line() {
    let tokens = scan("print 1;\r\nprint 2;\r\n").unwrap();
    assert_eq!(
        tokens,
        vec![
            Token::new(TokenType::Print, 1),
            Token::new(number("1"), 1),
            Token::new(TokenType::Semicolon, 1),
            Token::new(TokenType::Print, 2),
            Token::new(number("2"), 2),
            Token::new(TokenType::Semicolon, 2),
            Token::new(TokenType::EOF, 2),
        ]
    );
    assert_eq!(scan("!\r\n").err().unwrap(), vec![SyntaxError { line_num: 1 }]);
    assert_eq!(
        scan("\"ab\r\n").unwrap(),
        vec![Token::new(string("ab"), 1), Token::new(TokenType::EOF, 1)]
    );
    // Without a line feed behind it, a carriage return is a blank of the line.
    assert_eq!(
        scan("!\r").unwrap(),
        vec![Token::new(TokenType::Bang, 1), Token::new(TokenType::EOF, 1)]
    );
}

#[test]
fn a_string_ends_with_its_line() {
    assert_eq!(
        scan("\"abc\ndef").unwrap(),
        vec![
            Token::new(string("abc"), 1),
            Token::new(identifier("def"), 2),
            Token::new(TokenType::EOF, 2),
        ]
    );
    assert_eq!(
        scan("\"\"").unwrap(),
        vec![Token::new(string(""), 1), Token::new(TokenType::EOF, 1)]
    );
}

#[test]
fn a_number_holds_at_most_one_dot() {
    assert_eq!(
        scan("5. 0.5 10").unwrap(),
        vec![
            Token::new(number("5."), 1),
            Token::new(number("0.5"), 1),
            Token::new(number("10"), 1),
            Token::new(TokenType::EOF, 1),
        ]
    );
    for text in ["1.2.3", "1..", "7..5"] {
        assert!(text.parse::<f64>().is_err());
        assert_eq!(scan(text).err().unwrap(), vec![SyntaxError { line_num: 1 }]);
    }
    for text in ["5.", "0.5", "10", "123.456", "000", "9999999999999999999999"] {
        assert!(text.parse::<f64>().is_ok());
        assert!(scan(text).is_ok());
    }
}

#[test]
fn keywords_and_names() {
    let words = [
        ("and", TokenType::And),
        ("class", TokenType::Class),
        ("else", TokenType::Else),
        ("false", TokenType::False),
        ("fun", TokenType::Fun),
        ("for", TokenType::For),
        ("if", TokenType::If),
        ("nil", TokenType::Nil),
        ("or", TokenType::Or),
        ("print", TokenType::Print),
        ("return", TokenType::Return),
        ("super", TokenType::Super),
        ("this", TokenType::This),
        ("true", TokenType::True),
        ("var", TokenType::Var),
        ("while", TokenType::While),
    ];
    for (text, token_type) in words {
        assert_eq!(scan(text).unwrap()[0], Token::new(token_type.clone(), 1));
        assert_eq!(token_type.lexeme(), text);
    }
    assert_eq!(scan("android").unwrap()[0], Token::new(identifier("android"), 1));
    assert_eq!(scan("x_1 y").unwrap()[0], Token::new(identifier("x_1"), 1));
    assert_eq!(scan("_x").err().unwrap(), vec![SyntaxError { line_num: 1 }]);
}

#[test]
fn every_error_of_a_text_is_collected() {
    assert_eq!(
        scan("@\nprint 1;\n# $\n").err().unwrap(),
        vec![
            SyntaxError { line_num: 1 },
            SyntaxError { line_num: 3 },
            SyntaxError { line_num: 3 },
        ]
    );
}

#[test]
fn lexemes_of_tokens() {
    assert_eq!(Token::new(TokenType::LessEqual, 1).lexeme(), "<=");
    assert_eq!(Token::new(identifier("abc"), 1).lexeme(), "abc");
    assert_eq!(Token::new(string("a b"), 1).lexeme(), "a b");
    assert_eq!(Token::new(number("1.5"), 1).lexeme(), "1.5");
    assert_eq!(TokenType::EOF.lexeme(), "");
    assert_eq!(TokenType::Semicolon.duplicate(), TokenType::Semicolon);
    assert_eq!(identifier("x").duplicate(), identifier("x"));
}
