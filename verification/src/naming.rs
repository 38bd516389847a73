//! Names of visiting functions: from the camel case of a variant's name to
//! snake case.
use vstd::prelude::*;
use crate::text::{push_char, to_chars};

verus! {

/// Whether a character has the Unicode property `Uppercase`.
pub uninterp spec fn uppercase(c: char) -> bool;

/// Whether a character is an upper-case letter: within ASCII the letters
/// from `A` to `Z`, and beyond it the characters with the Unicode property.
pub open spec fn upper(c: char) -> bool {
    if c <= '\u{7f}' {
        'A' <= c <= 'Z'
    } else {
        uppercase(c)
    }
}

/// `char::is_uppercase`: whether the character has the Unicode property
/// `Uppercase`, which within ASCII the letters from `A` to `Z` have and no
/// other character.
#[verifier::external_body]
fn is_uppercase(c: char) -> (b: bool)
    ensures
        b == uppercase(c),
        c <= '\u{7f}' ==> b == ('A' <= c <= 'Z'),
{
    c.is_uppercase()
}

/// Whether a character is an upper-case letter.
pub fn is_upper(c: char) -> (b: bool)
    ensures
        b == upper(c),
{
    is_uppercase(c)
}

/// The lower-case letter of an upper-case letter of ASCII; every other
/// character is itself.
pub open spec fn ascii_lower(c: char) -> char {
    if 'A' <= c <= 'Z' {
        ((c as u8) + 32) as char
    } else {
        c
    }
}

/// What a character of a camel-case name becomes: an upper-case one its
/// lower-case letter, with an underscore in front unless it is the first
/// of the name; any other one itself.
pub open spec fn snake_piece(c: char, upper: bool, first: bool) -> Seq<char> {
    if upper {
        if first {
            seq![ascii_lower(c)]
        } else {
            seq!['_', ascii_lower(c)]
        }
    } else {
        seq![c]
    }
}

/// The snake case of the first `n` characters of a name.
pub open spec fn snake_prefix(name: Seq<char>, n: nat) -> Seq<char>
    decreases n,
{
    if n == 0 || n > name.len() {
        Seq::empty()
    } else {
        snake_prefix(name, (n - 1) as nat) + snake_piece(
            name[n - 1],
            upper(name[n - 1]),
            n == 1,
        )
    }
}

/// The snake case of a name.
pub open spec fn snake_case(name: Seq<char>) -> Seq<char> {
    snake_prefix(name, name.len())
}

fn to_ascii_lower(c: char) -> (l: char)
    ensures
        l == ascii_lower(c),
{
    if 'A' <= c && c <= 'Z' {
        ((c as u8) + 32) as char
    } else {
        c
    }
}

/// Appends what a character of a camel-case name becomes, given whether
/// it is an upper-case one and whether it is the first of the name.
pub fn push_snake(out: &mut String, c: char, upper: bool, first: bool)
    ensures
        final(out)@ == old(out)@ + snake_piece(c, upper, first),
{
    if upper {
        if !first {
            push_char(out, '_');
        }
        push_char(out, to_ascii_lower(c));
    } else {
        push_char(out, c);
    }
    assert(out@ =~= old(out)@ + snake_piece(c, upper, first));
}

/// Turns a camel-case name into snake case.
pub fn camel_to_snake(s: String) -> (snake: String)
    ensures
        snake@ == snake_case(s@),
{
    let chars = to_chars(s.as_str());
    let mut snake = String::new();
    let mut i: usize = 0;
    while i < chars.len()
        invariant
            i <= chars.len(),
            chars@ == s@,
            snake@ == snake_prefix(s@, i as nat),
        decreases chars.len() - i,
    {
        let c = chars[i];
        push_snake(&mut snake, c, is_upper(c), i == 0);
        i = i + 1;
    }
    snake
}

} // verus!
