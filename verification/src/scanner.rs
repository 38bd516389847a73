//! The scanner: reads a source text into tokens, as the lexical rules say,
//! and collects every error in the text.
use vstd::prelude::*;
use vstd::string::StringExecFns;
use crate::error::SyntaxError;
use crate::lexical::{
    continues, dots, is_digit, is_letter, keyword_kind, lex_at, lines_from, literal_number,
    literal_text, name, paired, run_end, scan, scan_line, scan_lines, single, with_equal, Lexed,
    Run, TokenView,
};
use crate::text::{text_between, to_chars};
use crate::token::{Token, TokenType};

verus! {

pub struct Scanner {
    source: String,
    line_num: u32,
}

/// The tokens of a list as the lexical rules give them.
pub open spec fn tokens_view(tokens: Seq<Token>) -> Seq<TokenView> {
    Seq::new(tokens.len(), |i: int| tokens[i]@)
}

/// What the scanner reads at one position.
enum Piece {
    Blank,
    Token(Token),
    Error,
    Comment,
}

/// What a piece is by the lexical rules.
spec fn piece_view(piece: Piece) -> Lexed {
    match piece {
        Piece::Blank => Lexed::Blank,
        Piece::Token(t) => Lexed::Token(t@.0, t@.1),
        Piece::Error => Lexed::Error,
        Piece::Comment => Lexed::Comment,
    }
}

fn digit(c: char) -> (b: bool)
    ensures
        b == is_digit(c),
{
    '0' <= c && c <= '9'
}

fn letter(c: char) -> (b: bool)
    ensures
        b == is_letter(c),
{
    ('a' <= c && c <= 'z') || ('A' <= c && c <= 'Z')
}

fn goes_on(run: Run, c: char) -> (b: bool)
    ensures
        b == continues(run, c),
{
    match run {
        Run::Line => c != '\n',
        Run::Number => digit(c) || c == '.',
        Run::Name => digit(c) || letter(c) || c == '_',
        Run::Text => c != '"',
    }
}

/// Where the run that starts at `pos` ends.
fn scan_run(chars: &Vec<char>, pos: usize, stop: usize, run: Run) -> (end: usize)
    requires
        pos <= stop <= chars.len(),
    ensures
        end == run_end(chars@, pos as int, stop as int, run),
        pos <= end <= stop,
{
    let mut i = pos;
    while i < stop && goes_on(run, chars[i])
        invariant
            pos <= i <= stop <= chars.len(),
            run_end(chars@, pos as int, stop as int, run) == run_end(
                chars@,
                i as int,
                stop as int,
                run,
            ),
        decreases stop - i,
    {
        i = i + 1;
    }
    i
}

/// Whether the characters from `from` up to `to` hold at most one dot.
fn at_most_one_dot(chars: &Vec<char>, from: usize, to: usize) -> (b: bool)
    requires
        from <= to <= chars.len(),
    ensures
        b == (dots(chars@.subrange(from as int, to as int)) <= 1),
{
    let mut seen: usize = 0;
    let mut i = from;
    while i < to
        invariant
            from <= i <= to <= chars.len(),
            seen == dots(chars@.subrange(from as int, i as int)),
            seen <= i - from,
        decreases to - i,
    {
        proof {
            let longer = chars@.subrange(from as int, i + 1);
            assert(longer.drop_last() =~= chars@.subrange(from as int, i as int));
            assert(longer.last() == chars@[i as int]);
        }
        if chars[i] == '.' {
            seen = seen + 1;
        }
        i = i + 1;
    }
    seen <= 1
}

/// The token that a name is where it is a keyword.
fn keyword(text: &String) -> (r: Option<TokenType>)
    ensures
        match r {
            Some(t) => keyword_kind(text@) == Some(t.spec_kind()) && t.payload()
                == Seq::<char>::empty(),
            None => keyword_kind(text@) is None,
        },
{
    if *text == String::from_str("and") {
        Some(TokenType::And)
    } else if *text == String::from_str("class") {
        Some(TokenType::Class)
    } else if *text == String::from_str("else") {
        Some(TokenType::Else)
    } else if *text == String::from_str("false") {
        Some(TokenType::False)
    } else if *text == String::from_str("fun") {
        Some(TokenType::Fun)
    } else if *text == String::from_str("for") {
        Some(TokenType::For)
    } else if *text == String::from_str("if") {
        Some(TokenType::If)
    } else if *text == String::from_str("nil") {
        Some(TokenType::Nil)
    } else if *text == String::from_str("or") {
        Some(TokenType::Or)
    } else if *text == String::from_str("print") {
        Some(TokenType::Print)
    } else if *text == String::from_str("return") {
        Some(TokenType::Return)
    } else if *text == String::from_str("super") {
        Some(TokenType::Super)
    } else if *text == String::from_str("this") {
        Some(TokenType::This)
    } else if *text == String::from_str("true") {
        Some(TokenType::True)
    } else if *text == String::from_str("var") {
        Some(TokenType::Var)
    } else if *text == String::from_str("while") {
        Some(TokenType::While)
    } else {
        None
    }
}

/// The token that a character is by itself.
fn single_token(c: char) -> (r: Option<TokenType>)
    ensures
        match r {
            Some(t) => single(c) == Some(t.spec_kind()) && t.payload() == Seq::<char>::empty(),
            None => single(c) is None,
        },
{
    if c == '(' {
        Some(TokenType::LeftParen)
    } else if c == ')' {
        Some(TokenType::RightParen)
    } else if c == '{' {
        Some(TokenType::LeftBrace)
    } else if c == '}' {
        Some(TokenType::RightBrace)
    } else if c == ',' {
        Some(TokenType::Comma)
    } else if c == '.' {
        Some(TokenType::Dot)
    } else if c == '-' {
        Some(TokenType::Minus)
    } else if c == '+' {
        Some(TokenType::Plus)
    } else if c == ';' {
        Some(TokenType::Semicolon)
    } else if c == '*' {
        Some(TokenType::Star)
    } else {
        None
    }
}

/// For a character that makes one token alone and another with `=` behind
/// it: the token for the case at hand.
fn paired_token(c: char, equal_follows: bool) -> (r: Option<TokenType>)
    ensures
        match r {
            Some(t) => paired(c) is Some && t.spec_kind() == (if equal_follows {
                with_equal(paired(c)->0)
            } else {
                paired(c)->0
            }) && t.payload() == Seq::<char>::empty(),
            None => paired(c) is None,
        },
{
    if c == '!' {
        Some(if equal_follows { TokenType::BangEqual } else { TokenType::Bang })
    } else if c == '=' {
        Some(if equal_follows { TokenType::EqualEqual } else { TokenType::Equal })
    } else if c == '>' {
        Some(if equal_follows { TokenType::GreaterEqual } else { TokenType::Greater })
    } else if c == '<' {
        Some(if equal_follows { TokenType::LessEqual } else { TokenType::Less })
    } else {
        None
    }
}

impl Scanner {
    /// The text that the scanner reads.
    pub closed spec fn source(&self) -> Seq<char> {
        self.source@
    }

    /// The number of the line that the scanner is at.
    pub closed spec fn line(&self) -> u32 {
        self.line_num
    }

    /// A scanner at the first line of the text.
    pub fn new(source: String) -> (scanner: Scanner)
        ensures
            scanner.source() == source@,
            scanner.line() == 1,
    {
        Scanner { source, line_num: 1 }
    }

    /// A string or a number literal at `pos`, where a quote or a digit
    /// stands.
    fn scan_literal(chars: &Vec<char>, pos: usize, stop: usize, line: u32) -> (r: (Piece, usize))
        requires
            pos < stop <= chars.len(),
            chars@[pos as int] == '"' || is_digit(chars@[pos as int]),
        ensures
            piece_view(r.0) == (if chars@[pos as int] == '"' {
                literal_text(chars@, pos as int, stop as int)
            } else {
                literal_number(chars@, pos as int, stop as int)
            }).lexed,
            r.1 == (if chars@[pos as int] == '"' {
                literal_text(chars@, pos as int, stop as int)
            } else {
                literal_number(chars@, pos as int, stop as int)
            }).next,
            pos < r.1 <= stop,
            r.0 matches Piece::Token(t) ==> t.line_num == line,
    {
        if chars[pos] == '"' {
            if pos + 1 >= stop {
                return (Piece::Error, pos + 1);
            }
            let close = scan_run(chars, pos + 1, stop, Run::Text);
            let text = text_between(chars, pos + 1, close);
            let next = if close < stop {
                close + 1
            } else {
                close
            };
            (Piece::Token(Token::new(TokenType::String(text), line)), next)
        } else {
            let end = scan_run(chars, pos + 1, stop, Run::Number);
            if at_most_one_dot(chars, pos, end) {
                let text = text_between(chars, pos, end);
                (Piece::Token(Token::new(TokenType::Number(text), line)), end)
            } else {
                (Piece::Error, end)
            }
        }
    }

    /// A name at `pos`, where a letter stands.
    fn scan_identifier(chars: &Vec<char>, pos: usize, stop: usize, line: u32) -> (r: (
        Piece,
        usize,
    ))
        requires
            pos < stop <= chars.len(),
        ensures
            piece_view(r.0) == name(chars@, pos as int, stop as int).lexed,
            r.1 == name(chars@, pos as int, stop as int).next,
            pos < r.1 <= stop,
            r.0 matches Piece::Token(t) ==> t.line_num == line,
    {
        let end = scan_run(chars, pos + 1, stop, Run::Name);
        let text = text_between(chars, pos, end);
        match keyword(&text) {
            Some(token_type) => (Piece::Token(Token::new(token_type, line)), end),
            None => (Piece::Token(Token::new(TokenType::Identifier(text), line)), end),
        }
    }

    /// Reads what stands at `pos`.
    fn scan_piece(chars: &Vec<char>, pos: usize, stop: usize, line: u32) -> (r: (Piece, usize))
        requires
            pos < stop <= chars.len(),
        ensures
            piece_view(r.0) == lex_at(chars@, pos as int, stop as int).lexed,
            r.1 == lex_at(chars@, pos as int, stop as int).next,
            pos < r.1 <= stop,
            r.0 matches Piece::Token(t) ==> t.line_num == line,
    {
        let c = chars[pos];
        if c == ' ' || c == '\t' || c == '\r' {
            return (Piece::Blank, pos + 1);
        }
        match single_token(c) {
            Some(token_type) => {
                return (Piece::Token(Token::new(token_type, line)), pos + 1);
            },
            None => {},
        }
        let more = pos + 1 < stop;
        let equal_follows = more && chars[pos + 1] == '=';
        match paired_token(c, equal_follows) {
            Some(token_type) => {
                if !more {
                    return (Piece::Error, pos + 1);
                }
                let next = if equal_follows {
                    pos + 2
                } else {
                    pos + 1
                };
                return (Piece::Token(Token::new(token_type, line)), next);
            },
            None => {},
        }
        if c == '/' {
            if !more {
                (Piece::Error, pos + 1)
            } else if chars[pos + 1] == '/' {
                (Piece::Comment, stop)
            } else {
                (Piece::Token(Token::new(TokenType::Slash, line)), pos + 1)
            }
        } else if c == '"' || digit(c) {
            Self::scan_literal(chars, pos, stop, line)
        } else if letter(c) {
            Self::scan_identifier(chars, pos, stop, line)
        } else {
            (Piece::Error, pos + 1)
        }
    }

    /// Reads a line from `start` up to `stop` into the two lists.
    fn scan_one_line(
        chars: &Vec<char>,
        start: usize,
        stop: usize,
        line: u32,
        tokens: &mut Vec<Token>,
        errors: &mut Vec<SyntaxError>,
    )
        requires
            start <= stop <= chars.len(),
        ensures
            tokens_view(final(tokens)@) == tokens_view(old(tokens)@) + scan_line(
                chars@,
                start as int,
                stop as int,
                line,
            ).tokens,
            final(errors)@ == old(errors)@ + scan_line(
                chars@,
                start as int,
                stop as int,
                line,
            ).errors,
    {
        let ghost src = chars@;
        let ghost target = scan_line(src, start as int, stop as int, line);
        let mut pos = start;
        assert(tokens_view(tokens@) + target.tokens =~= tokens_view(old(tokens)@) + target.tokens);
        while pos < stop
            invariant
                start <= pos <= stop <= chars.len(),
                src == chars@,
                target == scan_line(src, start as int, stop as int, line),
                tokens_view(old(tokens)@) + target.tokens == tokens_view(tokens@) + scan_line(
                    src,
                    pos as int,
                    stop as int,
                    line,
                ).tokens,
                old(errors)@ + target.errors == errors@ + scan_line(
                    src,
                    pos as int,
                    stop as int,
                    line,
                ).errors,
            decreases stop - pos,
        {
            let ghost seen = tokens_view(tokens@);
            let ghost failed = errors@;
            let ghost here = scan_line(src, pos as int, stop as int, line);
            let (piece, next) = Self::scan_piece(chars, pos, stop, line);
            let ghost rest = scan_line(src, next as int, stop as int, line);
            match piece {
                Piece::Token(t) => {
                    tokens.push(t);
                    proof {
                        assert(tokens_view(tokens@) =~= seen.push(t@));
                        assert(here.tokens == seq![t@] + rest.tokens);
                        assert(seen + (seq![t@] + rest.tokens) =~= seen.push(t@) + rest.tokens);
                    }
                },
                Piece::Error => {
                    errors.push(SyntaxError { line_num: line });
                    proof {
                        let e = SyntaxError { line_num: line };
                        assert(failed + (seq![e] + rest.errors) =~= failed.push(e) + rest.errors);
                    }
                },
                _ => {},
            }
            pos = next;
        }
        proof {
            assert(tokens_view(tokens@) + Seq::<TokenView>::empty() =~= tokens_view(tokens@));
            assert(errors@ + Seq::<SyntaxError>::empty() =~= errors@);
        }
    }

    /// Reads the whole text. It gives the tokens, with an end marker
    /// behind them, if the text holds no error, and every error otherwise.
    pub fn scan_source(self) -> (r: Result<Vec<Token>, Vec<SyntaxError>>)
        requires
            self.line() == 1,
            lines_from(self.source(), 0) < u32::MAX,
        ensures
            match r {
                Ok(tokens) => scan(self.source()) == Ok::<Seq<TokenView>, Seq<SyntaxError>>(
                    tokens_view(tokens@),
                ),
                Err(errors) => scan(self.source()) == Err::<Seq<TokenView>, Seq<SyntaxError>>(
                    errors@,
                ),
            },
    {
        let chars = to_chars(self.source.as_str());
        let ghost src = chars@;
        let ghost total = lines_from(src, 0);
        let ghost target = scan_lines(src, 0, 1);
        let mut tokens: Vec<Token> = Vec::new();
        let mut errors: Vec<SyntaxError> = Vec::new();
        let mut line: u32 = self.line_num;
        let mut start: usize = 0;
        assert(tokens_view(tokens@) + target.tokens =~= target.tokens);
        assert(errors@ + target.errors =~= target.errors);
        while start < chars.len()
            invariant
                start <= chars.len(),
                src == chars@,
                total == lines_from(src, 0),
                total < u32::MAX,
                target == scan_lines(src, 0, 1),
                line - 1 + lines_from(src, start as int) == total,
                line >= 1,
                target.tokens == tokens_view(tokens@) + scan_lines(
                    src,
                    start as int,
                    line as int,
                ).tokens,
                target.errors == errors@ + scan_lines(src, start as int, line as int).errors,
            decreases chars.len() - start,
        {
            let ghost seen = tokens_view(tokens@);
            let ghost failed = errors@;
            let end = scan_run(&chars, start, chars.len(), Run::Line);
            let stop = if start < end && end < chars.len() && chars[end - 1] == '\r' {
                end - 1
            } else {
                end
            };
            Self::scan_one_line(&chars, start, stop, line, &mut tokens, &mut errors);
            proof {
                let first = scan_line(src, start as int, stop as int, line);
                if end < chars.len() {
                    let rest = scan_lines(src, end + 1, line + 1);
                    assert(seen + (first.tokens + rest.tokens) =~= (seen + first.tokens)
                        + rest.tokens);
                    assert(failed + (first.errors + rest.errors) =~= (failed + first.errors)
                        + rest.errors);
                } else {
                    assert((seen + first.tokens) + Seq::<TokenView>::empty() =~= seen
                        + first.tokens);
                    assert((failed + first.errors) + Seq::<SyntaxError>::empty() =~= failed
                        + first.errors);
                }
            }
            if end < chars.len() {
                start = end + 1;
            } else {
                start = end;
            }
            line = line + 1;
        }
        proof {
            assert(tokens_view(tokens@) + Seq::<TokenView>::empty() =~= tokens_view(tokens@));
            assert(errors@ + Seq::<SyntaxError>::empty() =~= errors@);
        }
        if errors.len() == 0 {
            let ghost seen = tokens_view(tokens@);
            let last = Token::new(TokenType::EOF, line - 1);
            tokens.push(last);
            assert(tokens_view(tokens@) =~= seen.push(last@));
            Ok(tokens)
        } else {
            Err(errors)
        }
    }
}

} // verus!
