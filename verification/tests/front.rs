use amds_syntax::error::{LexError, LexErrorKind, ParseError, ParseErrorKind};
use amds_syntax::front::{parse_source, SyntaxError};
use amds_syntax::tokenizer::Tokenizer;

#[test]
fn a_source_that_lexes_and_parses_is_a_module() {
    let parsed = parse_source("decl Point : struct { x: i32 }\ndecl f : () { }\n")
        .expect("the source is a module");
    assert_eq!(parsed.name, "main");
    assert_eq!(parsed.structs.len(), 1);
    assert_eq!(parsed.procs.len(), 1);
}

#[test]
fn a_lexical_error_is_reported_as_such() {
    assert_eq!(
        parse_source("decl f : () { return \"open; }"),
        Err(SyntaxError::Lexical(LexError { kind: LexErrorKind::UnterminatedString, at: 21 }))
    );
}

#[test]
fn a_syntax_error_is_reported_as_such() {
    assert_eq!(
        parse_source("decl f : () { return }"),
        Err(SyntaxError::Grammatical(ParseError { kind: ParseErrorKind::ExpectedOperand, at: 7 }))
    );
}

#[test]
fn a_lexical_error_wins_over_an_earlier_syntax_error() {
    assert_eq!(
        parse_source("let x @"),
        Err(SyntaxError::Lexical(LexError { kind: LexErrorKind::UnknownByte, at: 6 }))
    );
}

#[test]
fn bytes_are_read_one_by_one() {
    // Two bytes that are one character in UTF-8 read as two characters.
    let mut lexer = Tokenizer::new("\"\u{e9}\"");
    let token = lexer.read_next_token().expect("a string literal");
    assert_eq!(
        token,
        amds_syntax::token::Token::StringLiteral(
            amds_syntax::token::Span { file_id: 0, start: 0, end: 4 },
            String::from("\u{c3}\u{a9}")
        )
    );
    let mut lexer = Tokenizer::from_bytes(vec![b'"', 0xe9, b'"']);
    assert_eq!(
        lexer.read_next_token(),
        Ok(amds_syntax::token::Token::StringLiteral(
            amds_syntax::token::Span { file_id: 0, start: 0, end: 3 },
            String::from("\u{e9}")
        ))
    );
    assert_eq!(
        Tokenizer::from_bytes(vec![0xe9]).read_next_token(),
        Err(LexError { kind: LexErrorKind::UnknownByte, at: 0 })
    );
}
