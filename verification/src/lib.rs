//! The front end of a small procedural language: a lexer that turns source
//! bytes into tokens, and a parser that turns tokens into a syntax tree.
//! Beside it stand what the later stages share with it: the description of
//! types and the encoding of the stack machine's instructions.

pub mod ail;
pub mod ast;
pub mod error;
pub mod finished;
pub mod front;
pub mod grammar;
pub mod lex;
pub mod model;
pub mod parser;
pub mod precedence;
pub mod theorems;
pub mod token;
pub mod tokenizer;
pub mod typechecker;
