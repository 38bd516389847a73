//! A small scripting language, verified: a scanner, a precedence-climbing
//! parser with error recovery, and a tree-walking interpreter with scoped
//! variables.
//!
//! Each stage is an executable function whose contract equates it with a
//! mathematical definition: the lexical rules in [`lexical`], the grammar in
//! [`grammar`], and the meaning of programs in [`semantics`]. Laws of the
//! language are proved of those definitions.
//!
//! Numbers are doubles, held by their bits. The interpreter compares them
//! itself and asks a numeric kernel, which its caller supplies, to read
//! them from text and to compute with them.
pub mod text;
pub mod token;
pub mod operator;
pub mod error;
pub mod expression;
pub mod statement;
pub mod lexical;
pub mod scanner;
pub mod grammar;
pub mod parser;
pub mod ast_print;
pub mod number;
pub mod value;
pub mod environment;
pub mod semantics;
pub mod interpreter;
pub mod naming;
