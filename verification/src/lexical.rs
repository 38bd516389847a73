//! The lexical rules, as mathematical functions from the characters of a
//! source text to its tokens.
//!
//! A text is read line by line. A line ends at a line feed; a carriage
//! return right before the line feed belongs to the line's end. No token
//! goes over the end of a line, and a token's line is counted from 1.
use vstd::prelude::*;
use crate::error::SyntaxError;
use crate::token::TokenKind;

verus! {

/// A token as the rules give it: its shape, its text, and its line.
pub type TokenView = (TokenKind, Seq<char>, u32);

pub open spec fn is_digit(c: char) -> bool {
    '0' <= c <= '9'
}

pub open spec fn is_letter(c: char) -> bool {
    ('a' <= c <= 'z') || ('A' <= c <= 'Z')
}

/// The characters between tokens.
pub open spec fn is_blank(c: char) -> bool {
    c == ' ' || c == '\t' || c == '\r'
}

/// The runs of characters that the rules read as one.
#[derive(Clone, Copy, PartialEq, Eq, Structural)]
pub enum Run {
    /// Up to the end of the line.
    Line,
    /// The digits and dots of a number.
    Number,
    /// The letters, digits and underscores of a name.
    Name,
    /// The text of a string, up to the closing quote.
    Text,
}

/// Whether the character goes on a run of this kind.
pub open spec fn continues(run: Run, c: char) -> bool {
    match run {
        Run::Line => c != '\n',
        Run::Number => is_digit(c) || c == '.',
        Run::Name => is_digit(c) || is_letter(c) || c == '_',
        Run::Text => c != '"',
    }
}

/// Where the run that starts at `pos` ends: the first position from `pos`
/// on, before `stop`, whose character does not go on the run; `stop`
/// where all do.
pub open spec fn run_end(src: Seq<char>, pos: int, stop: int, run: Run) -> int
    decreases stop - pos,
{
    if 0 <= pos < stop <= src.len() && continues(run, src[pos]) {
        run_end(src, pos + 1, stop, run)
    } else {
        pos
    }
}

/// The number of dots in a text.
pub open spec fn dots(text: Seq<char>) -> nat
    decreases text.len(),
{
    if text.len() == 0 {
        0
    } else {
        dots(text.drop_last()) + if text.last() == '.' {
            1nat
        } else {
            0nat
        }
    }
}

/// The token that a character is by itself.
pub open spec fn single(c: char) -> Option<TokenKind> {
    if c == '(' {
        Some(TokenKind::LeftParen)
    } else if c == ')' {
        Some(TokenKind::RightParen)
    } else if c == '{' {
        Some(TokenKind::LeftBrace)
    } else if c == '}' {
        Some(TokenKind::RightBrace)
    } else if c == ',' {
        Some(TokenKind::Comma)
    } else if c == '.' {
        Some(TokenKind::Dot)
    } else if c == '-' {
        Some(TokenKind::Minus)
    } else if c == '+' {
        Some(TokenKind::Plus)
    } else if c == ';' {
        Some(TokenKind::Semicolon)
    } else if c == '*' {
        Some(TokenKind::Star)
    } else {
        None
    }
}

/// The token that a character is alone where it makes another token with
/// `=` behind it.
pub open spec fn paired(c: char) -> Option<TokenKind> {
    if c == '!' {
        Some(TokenKind::Bang)
    } else if c == '=' {
        Some(TokenKind::Equal)
    } else if c == '>' {
        Some(TokenKind::Greater)
    } else if c == '<' {
        Some(TokenKind::Less)
    } else {
        None
    }
}

/// The token that such a character makes with `=` behind it.
pub open spec fn with_equal(alone: TokenKind) -> TokenKind {
    match alone {
        TokenKind::Bang => TokenKind::BangEqual,
        TokenKind::Equal => TokenKind::EqualEqual,
        TokenKind::Greater => TokenKind::GreaterEqual,
        TokenKind::Less => TokenKind::LessEqual,
        other => other,
    }
}

/// The keyword that a name is, if any.
pub open spec fn keyword_kind(text: Seq<char>) -> Option<TokenKind> {
    if text == "and"@ {
        Some(TokenKind::And)
    } else if text == "class"@ {
        Some(TokenKind::Class)
    } else if text == "else"@ {
        Some(TokenKind::Else)
    } else if text == "false"@ {
        Some(TokenKind::False)
    } else if text == "fun"@ {
        Some(TokenKind::Fun)
    } else if text == "for"@ {
        Some(TokenKind::For)
    } else if text == "if"@ {
        Some(TokenKind::If)
    } else if text == "nil"@ {
        Some(TokenKind::Nil)
    } else if text == "or"@ {
        Some(TokenKind::Or)
    } else if text == "print"@ {
        Some(TokenKind::Print)
    } else if text == "return"@ {
        Some(TokenKind::Return)
    } else if text == "super"@ {
        Some(TokenKind::Super)
    } else if text == "this"@ {
        Some(TokenKind::This)
    } else if text == "true"@ {
        Some(TokenKind::True)
    } else if text == "var"@ {
        Some(TokenKind::Var)
    } else if text == "while"@ {
        Some(TokenKind::While)
    } else {
        None
    }
}

/// What stands at a position of a line.
pub enum Lexed {
    /// A blank, which is passed over.
    Blank,
    /// A token, by its shape and text.
    Token(TokenKind, Seq<char>),
    /// Something that is no token.
    Error,
    /// A comment, which takes the rest of the line.
    Comment,
}

/// What is read at a position, and the position behind it.
pub struct Step {
    pub lexed: Lexed,
    pub next: int,
}

/// A string literal at `pos`, where its opening quote stands: the
/// characters up to the closing quote, or to the end of the line where
/// there is none. A quote at the very end of a line is an error.
pub open spec fn literal_text(src: Seq<char>, pos: int, stop: int) -> Step {
    if pos + 1 >= stop {
        Step { lexed: Lexed::Error, next: pos + 1 }
    } else {
        let close = run_end(src, pos + 1, stop, Run::Text);
        Step {
            lexed: Lexed::Token(TokenKind::String, src.subrange(pos + 1, close)),
            next: if close < stop {
                close + 1
            } else {
                close
            },
        }
    }
}

/// A number literal at `pos`, where its first digit stands: the digits
/// and dots that follow belong to it, and it is a number if it holds at
/// most one dot.
pub open spec fn literal_number(src: Seq<char>, pos: int, stop: int) -> Step {
    let end = run_end(src, pos + 1, stop, Run::Number);
    let text = src.subrange(pos, end);
    Step {
        lexed: if dots(text) <= 1 {
            Lexed::Token(TokenKind::Number, text)
        } else {
            Lexed::Error
        },
        next: end,
    }
}

/// A name at `pos`, where its first letter stands: a keyword, or an
/// identifier with the name as its text.
pub open spec fn name(src: Seq<char>, pos: int, stop: int) -> Step {
    let end = run_end(src, pos + 1, stop, Run::Name);
    let text = src.subrange(pos, end);
    Step {
        lexed: match keyword_kind(text) {
            Some(kind) => Lexed::Token(kind, Seq::empty()),
            None => Lexed::Token(TokenKind::Identifier, text),
        },
        next: end,
    }
}

/// What is read at `pos` of a line that ends before `stop`.
pub open spec fn lex_at(src: Seq<char>, pos: int, stop: int) -> Step {
    let c = src[pos];
    if is_blank(c) {
        Step { lexed: Lexed::Blank, next: pos + 1 }
    } else if single(c) is Some {
        Step { lexed: Lexed::Token(single(c)->0, Seq::empty()), next: pos + 1 }
    } else if paired(c) is Some {
        if pos + 1 >= stop {
            Step { lexed: Lexed::Error, next: pos + 1 }
        } else if src[pos + 1] == '=' {
            Step { lexed: Lexed::Token(with_equal(paired(c)->0), Seq::empty()), next: pos + 2 }
        } else {
            Step { lexed: Lexed::Token(paired(c)->0, Seq::empty()), next: pos + 1 }
        }
    } else if c == '/' {
        if pos + 1 >= stop {
            Step { lexed: Lexed::Error, next: pos + 1 }
        } else if src[pos + 1] == '/' {
            Step { lexed: Lexed::Comment, next: stop }
        } else {
            Step { lexed: Lexed::Token(TokenKind::Slash, Seq::empty()), next: pos + 1 }
        }
    } else if c == '"' {
        literal_text(src, pos, stop)
    } else if is_digit(c) {
        literal_number(src, pos, stop)
    } else if is_letter(c) {
        name(src, pos, stop)
    } else {
        Step { lexed: Lexed::Error, next: pos + 1 }
    }
}

/// The tokens and the errors of a text, or of a part of it.
pub struct Scanned {
    pub tokens: Seq<TokenView>,
    pub errors: Seq<SyntaxError>,
}

/// The tokens and errors of a line from `pos` on; the line ends before
/// `stop` and has the number `line`.
pub open spec fn scan_line(src: Seq<char>, pos: int, stop: int, line: u32) -> Scanned
    decreases stop - pos,
{
    if !(0 <= pos < stop <= src.len()) {
        Scanned { tokens: Seq::empty(), errors: Seq::empty() }
    } else {
        let step = lex_at(src, pos, stop);
        if !(pos < step.next <= stop) {
            Scanned { tokens: Seq::empty(), errors: Seq::empty() }
        } else {
            let rest = scan_line(src, step.next, stop, line);
            match step.lexed {
                Lexed::Token(kind, text) => Scanned {
                    tokens: seq![(kind, text, line)] + rest.tokens,
                    errors: rest.errors,
                },
                Lexed::Error => Scanned {
                    tokens: rest.tokens,
                    errors: seq![SyntaxError { line_num: line }] + rest.errors,
                },
                _ => rest,
            }
        }
    }
}

/// Where the text of the line that starts at `start` ends: before its line
/// feed, and before the carriage return in front of that.
pub open spec fn content_end(src: Seq<char>, start: int) -> int {
    let end = run_end(src, start, src.len() as int, Run::Line);
    if start < end < src.len() && src[end - 1] == '\r' {
        end - 1
    } else {
        end
    }
}

/// The number of lines from `start` on. A line feed at the very end of
/// the text starts no line.
pub open spec fn lines_from(src: Seq<char>, start: int) -> nat
    decreases src.len() - start,
{
    if !(0 <= start < src.len()) {
        0
    } else {
        let end = run_end(src, start, src.len() as int, Run::Line);
        if start <= end < src.len() {
            1 + lines_from(src, end + 1)
        } else {
            1
        }
    }
}

/// The tokens and errors of the lines from `start` on, the first of which
/// has the number `line`.
pub open spec fn scan_lines(src: Seq<char>, start: int, line: int) -> Scanned
    decreases src.len() - start,
{
    if !(0 <= start < src.len()) {
        Scanned { tokens: Seq::empty(), errors: Seq::empty() }
    } else {
        let end = run_end(src, start, src.len() as int, Run::Line);
        let first = scan_line(src, start, content_end(src, start), #[verifier::truncate] (line as u32));
        if start <= end < src.len() {
            let rest = scan_lines(src, end + 1, line + 1);
            Scanned { tokens: first.tokens + rest.tokens, errors: first.errors + rest.errors }
        } else {
            first
        }
    }
}

/// The tokens of a text, with an end marker on the last line behind them;
/// or, where anything in the text is no token, every error in it.
pub open spec fn scan(src: Seq<char>) -> Result<Seq<TokenView>, Seq<SyntaxError>> {
    let all = scan_lines(src, 0, 1);
    if all.errors.len() == 0 {
        Ok(
            all.tokens.push(
                (TokenKind::EOF, Seq::empty(), #[verifier::truncate] (lines_from(src, 0) as u32)),
            ),
        )
    } else {
        Err(all.errors)
    }
}

} // verus!
