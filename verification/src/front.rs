//! The whole front end in one step: source bytes to tokens to module.

use vstd::prelude::*;
use vstd::string::StringSliceAdditionalSpecFns;
use crate::ast::ParsedModule;
use crate::error::{LexError, LexErrorKind, ParseError, ParseErrorKind};
use crate::grammar::declarations::module;
use crate::grammar::Parse;
use crate::lex::lex_all;
use crate::model::{views, Module};
use crate::parser::Parser;
use crate::token::{Lexeme, TokenModel};
use crate::tokenizer::Tokenizer;

verus! {

/// Why a source text is no module: it does not lex, or its tokens do not
/// parse.
#[derive(PartialEq, Eq, Debug, Clone, Copy)]
pub enum SyntaxError {
    Lexical(LexError),
    Grammatical(ParseError),
}

/// The lexemes of a sequence of tokens, in order.
pub open spec fn lexemes_of(tokens: Seq<TokenModel>) -> Seq<Lexeme> {
    Seq::new(tokens.len(), |i: int| tokens[i].lexeme)
}

/// What a source comes to.
pub enum Outcome {
    /// It lexes and parses to this module.
    Parsed(Module),
    /// It does not lex: the error and the byte offset it is reported at.
    LexFailed { error: LexErrorKind, offset: int },
    /// It lexes, and its tokens do not parse: the error and the index of the
    /// token in error.
    ParseFailed { kind: ParseErrorKind, at: int },
}

/// What the source bytes `src` come to: they are lexed to the end, and the
/// tokens, without the end marker, are parsed as one module.
pub open spec fn outcome(src: Seq<u8>) -> Outcome {
    match lex_all(src) {
        Err((error, offset)) => Outcome::LexFailed { error, offset },
        Ok(tokens) => match module(lexemes_of(tokens), 0) {
            Parse::Done { value, .. } => Outcome::Parsed(value),
            Parse::Failed { kind, at } => Outcome::ParseFailed { kind, at },
        },
    }
}

/// Lexes and parses `source`. No module is returned unless the whole source
/// lexes and all its tokens parse.
pub fn parse_source(source: &str) -> (r: Result<ParsedModule, SyntaxError>)
    ensures
        match outcome(source.spec_bytes()) {
            Outcome::Parsed(parsed) => r matches Ok(found) && found@ == parsed,
            Outcome::LexFailed { error, offset } => r matches Err(SyntaxError::Lexical(e))
                && e.kind == error && e.at == offset,
            Outcome::ParseFailed { kind, at } => r matches Err(SyntaxError::Grammatical(e))
                && e.kind == kind && e.at == at,
        },
{
    let mut tokenizer = Tokenizer::new(source);
    match tokenizer.tokenize() {
        Ok(tokens) => {
            let ghost models = views(tokens@);
            let mut parser = Parser::new(tokens);
            assert(parser.lexemes() =~= lexemes_of(models));
            match parser.parse_module() {
                Ok(parsed) => Ok(parsed),
                Err(e) => Err(SyntaxError::Grammatical(e)),
            }
        },
        Err(e) => Err(SyntaxError::Lexical(e)),
    }
}

} // verus!
