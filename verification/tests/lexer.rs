use amds_syntax::error::{LexError, LexErrorKind};
use amds_syntax::token::{
    FloatingPointLiteralFormat, IntegerLiteralFormat, NumericConstant, PrimitiveType, Span, Token,
};
use amds_syntax::tokenizer::Tokenizer;

fn span(start: usize, end: usize) -> Span {
    Span { file_id: 0, start, end }
}

fn first_token(source: &str) -> Result<Token, LexError> {
    Tokenizer::new(source).read_next_token()
}

fn all_tokens(source: &str) -> Result<Vec<Token>, LexError> {
    Tokenizer::new(source).tokenize()
}

fn integer(text: &str, format: IntegerLiteralFormat) -> NumericConstant {
    NumericConstant::Integer(String::from(text), format)
}

fn float(text: &str, format: FloatingPointLiteralFormat) -> NumericConstant {
    NumericConstant::FloatingPoint(String::from(text), format)
}

fn ident(start: usize, end: usize, name: &str) -> Token {
    Token::IdentName(span(start, end), String::from(name))
}

fn every_punctuation() -> Vec<(&'static str, fn(Span) -> Token)> {
    vec![
        ("(", Token::LParen as fn(Span) -> Token),
        (")", Token::RParen),
        ("{", Token::LCurly),
        ("}", Token::RCurly),
        ("[", Token::LSquare),
        ("]", Token::RSquare),
        ("<", Token::LAngle),
        (">", Token::RAngle),
        ("=", Token::Assign),
        (":", Token::Colon),
        (":=", Token::ColonAssign),
        ("::", Token::DoubleColon),
        (";", Token::Semicolon),
        ("->", Token::ThinArrow),
        ("=>", Token::ThiccArrow),
        ("$", Token::Dollar),
        (",", Token::Comma),
        (".", Token::Dot),
        ("..", Token::DotDot),
        ("#", Token::Hash),
        ("!", Token::Bang),
        ("?", Token::QuestionMark),
        ("~", Token::Tilde),
        ("~=", Token::TildeAssign),
        ("&", Token::Ampersand),
        ("&=", Token::AmpersandAssign),
        ("&&", Token::DoubleAmpersand),
        ("|", Token::Pipe),
        ("|=", Token::PipeAssign),
        ("||", Token::DoublePipe),
        ("^", Token::Caret),
        ("^=", Token::CaretAssign),
        ("^^", Token::DoubleCaret),
        (">>", Token::RShift),
        (">>=", Token::RShiftAssign),
        ("<<", Token::LShift),
        ("<<=", Token::LShiftAssign),
        ("<=", Token::LEQ),
        (">=", Token::GEQ),
        ("==", Token::EQ),
        ("!=", Token::NEQ),
        ("-", Token::Minus),
        ("--", Token::MinusMinus),
        ("-=", Token::MinusAssign),
        ("+", Token::Plus),
        ("++", Token::PlusPlus),
        ("+=", Token::PlusAssign),
        ("*", Token::Star),
        ("*=", Token::StarAssign),
        ("/", Token::Slash),
        ("/=", Token::SlashAssign),
        ("%", Token::Percent),
        ("%=", Token::PercentAssign),
    ]
}

#[test]
fn every_punctuation_alone_is_one_token_over_its_whole_spelling() {
    for (spelling, make) in every_punctuation() {
        let mut lexer = Tokenizer::new(spelling);
        assert_eq!(lexer.read_next_token(), Ok(make(span(0, spelling.len()))), "{}", spelling);
        assert_eq!(lexer.read_next_token(), Ok(Token::EOF), "{}", spelling);
    }
}

#[test]
fn every_punctuation_is_found_between_other_tokens() {
    for (spelling, make) in every_punctuation() {
        let source = format!("a {} b", spelling);
        let end = 2 + spelling.len();
        assert_eq!(
            all_tokens(&source),
            Ok(vec![ident(0, 1, "a"), make(span(2, end)), ident(end + 1, end + 2, "b")]),
            "{}",
            spelling
        );
    }
}

#[test]
fn left_shift_assign_is_one_token() {
    assert_eq!(all_tokens("<<="), Ok(vec![Token::LShiftAssign(span(0, 3))]));
    assert_eq!(
        all_tokens("a<<=b"),
        Ok(vec![ident(0, 1, "a"), Token::LShiftAssign(span(1, 4)), ident(4, 5, "b")])
    );
}

#[test]
fn the_longest_spelling_wins_in_every_family() {
    assert_eq!(all_tokens("&&"), Ok(vec![Token::DoubleAmpersand(span(0, 2))]));
    assert_eq!(all_tokens("&="), Ok(vec![Token::AmpersandAssign(span(0, 2))]));
    assert_eq!(all_tokens("||"), Ok(vec![Token::DoublePipe(span(0, 2))]));
    assert_eq!(all_tokens("|="), Ok(vec![Token::PipeAssign(span(0, 2))]));
    assert_eq!(all_tokens("^^"), Ok(vec![Token::DoubleCaret(span(0, 2))]));
    assert_eq!(all_tokens("^="), Ok(vec![Token::CaretAssign(span(0, 2))]));
    assert_eq!(all_tokens("--"), Ok(vec![Token::MinusMinus(span(0, 2))]));
    assert_eq!(all_tokens("-="), Ok(vec![Token::MinusAssign(span(0, 2))]));
    assert_eq!(all_tokens("->"), Ok(vec![Token::ThinArrow(span(0, 2))]));
    assert_eq!(all_tokens("++"), Ok(vec![Token::PlusPlus(span(0, 2))]));
    assert_eq!(all_tokens("+="), Ok(vec![Token::PlusAssign(span(0, 2))]));
    assert_eq!(all_tokens("::"), Ok(vec![Token::DoubleColon(span(0, 2))]));
    assert_eq!(all_tokens(":="), Ok(vec![Token::ColonAssign(span(0, 2))]));
    assert_eq!(all_tokens("=="), Ok(vec![Token::EQ(span(0, 2))]));
    assert_eq!(all_tokens("=>"), Ok(vec![Token::ThiccArrow(span(0, 2))]));
    assert_eq!(all_tokens(">>="), Ok(vec![Token::RShiftAssign(span(0, 3))]));
}

#[test]
fn what_no_longer_spelling_takes_is_left_for_the_next_token() {
    assert_eq!(
        all_tokens("<<<"),
        Ok(vec![Token::LShift(span(0, 2)), Token::LAngle(span(2, 3))])
    );
    assert_eq!(
        all_tokens("==="),
        Ok(vec![Token::EQ(span(0, 2)), Token::Assign(span(2, 3))])
    );
    assert_eq!(
        all_tokens("><"),
        Ok(vec![Token::RAngle(span(0, 1)), Token::LAngle(span(1, 2))])
    );
    assert_eq!(
        all_tokens("+++"),
        Ok(vec![Token::PlusPlus(span(0, 2)), Token::Plus(span(2, 3))])
    );
    assert_eq!(
        all_tokens("..."),
        Ok(vec![Token::DotDot(span(0, 2)), Token::Dot(span(2, 3))])
    );
}

#[test]
fn hexadecimal_literal_keeps_its_digits() {
    assert_eq!(
        first_token("0x1A"),
        Ok(Token::Number(span(0, 4), integer("1A", IntegerLiteralFormat::Hexadecimal)))
    );
}

#[test]
fn binary_literal_keeps_its_digits() {
    assert_eq!(
        first_token("0b101"),
        Ok(Token::Number(span(0, 5), integer("101", IntegerLiteralFormat::Binary)))
    );
}

#[test]
fn octal_literal_keeps_its_digits() {
    assert_eq!(
        first_token("0o17"),
        Ok(Token::Number(span(0, 4), integer("17", IntegerLiteralFormat::Octal)))
    );
}

#[test]
fn decimal_literal_keeps_its_digits() {
    assert_eq!(
        first_token("42"),
        Ok(Token::Number(span(0, 2), integer("42", IntegerLiteralFormat::Decimal)))
    );
}

#[test]
fn decimal_point_makes_a_float() {
    assert_eq!(
        first_token("3.14"),
        Ok(Token::Number(span(0, 4), float("3.14", FloatingPointLiteralFormat::Standard)))
    );
}

#[test]
fn exponent_mark_makes_e_notation() {
    assert_eq!(
        first_token("1e5"),
        Ok(Token::Number(span(0, 3), float("1e5", FloatingPointLiteralFormat::ENotation)))
    );
    assert_eq!(
        first_token("2.5E3"),
        Ok(Token::Number(span(0, 5), float("2.5E3", FloatingPointLiteralFormat::ENotation)))
    );
}

#[test]
fn dot_after_exponent_is_an_error() {
    assert_eq!(
        first_token("1e5.2"),
        Err(LexError { kind: LexErrorKind::DotAfterExponent, at: 3 })
    );
}

#[test]
fn leading_zero_without_prefix_is_an_error() {
    assert_eq!(
        first_token("012"),
        Err(LexError { kind: LexErrorKind::MalformedBasePrefix, at: 0 })
    );
    assert_eq!(
        first_token("0;"),
        Err(LexError { kind: LexErrorKind::MalformedBasePrefix, at: 0 })
    );
    assert_eq!(
        first_token("  0 "),
        Err(LexError { kind: LexErrorKind::MalformedBasePrefix, at: 2 })
    );
}

#[test]
fn zero_alone_and_zero_point_are_literals() {
    assert_eq!(
        first_token("0"),
        Ok(Token::Number(span(0, 1), integer("0", IntegerLiteralFormat::Decimal)))
    );
    assert_eq!(
        first_token("0.5"),
        Ok(Token::Number(span(0, 3), float("0.5", FloatingPointLiteralFormat::Standard)))
    );
}

#[test]
fn separators_are_stripped() {
    assert_eq!(
        first_token("1'000'000"),
        Ok(Token::Number(span(0, 9), integer("1000000", IntegerLiteralFormat::Decimal)))
    );
    assert_eq!(
        first_token("0xFF'FF"),
        Ok(Token::Number(span(0, 7), integer("FFFF", IntegerLiteralFormat::Hexadecimal)))
    );
}

#[test]
fn a_number_ends_before_a_byte_that_is_no_digit() {
    assert_eq!(
        all_tokens("42;"),
        Ok(vec![
            Token::Number(span(0, 2), integer("42", IntegerLiteralFormat::Decimal)),
            Token::Semicolon(span(2, 3)),
        ])
    );
    assert_eq!(
        all_tokens("7]"),
        Ok(vec![
            Token::Number(span(0, 1), integer("7", IntegerLiteralFormat::Decimal)),
            Token::RSquare(span(1, 2)),
        ])
    );
}

#[test]
fn end_of_input_is_reported_again_and_again() {
    let mut lexer = Tokenizer::new("x");
    assert_eq!(lexer.read_next_token(), Ok(ident(0, 1, "x")));
    for _ in 0..5 {
        assert_eq!(lexer.read_next_token(), Ok(Token::EOF));
    }
}

#[test]
fn empty_input_is_only_the_end_marker() {
    let mut lexer = Tokenizer::new("");
    assert_eq!(lexer.read_next_token(), Ok(Token::EOF));
    assert_eq!(lexer.read_next_token(), Ok(Token::EOF));
    assert_eq!(all_tokens(""), Ok(vec![]));
}

#[test]
fn trailing_blanks_end_in_the_end_marker() {
    let mut lexer = Tokenizer::new("a \t\r ");
    assert_eq!(lexer.read_next_token(), Ok(ident(0, 1, "a")));
    assert_eq!(lexer.read_next_token(), Ok(Token::EOF));
    assert_eq!(lexer.read_next_token(), Ok(Token::EOF));
}

#[test]
fn newline_is_a_token() {
    assert_eq!(
        all_tokens("a\nb"),
        Ok(vec![ident(0, 1, "a"), Token::EOL(span(1, 2)), ident(2, 3, "b")])
    );
}

#[test]
fn line_comment_runs_up_to_the_newline() {
    assert_eq!(
        all_tokens("a // note\nb"),
        Ok(vec![ident(0, 1, "a"), Token::EOL(span(9, 10)), ident(10, 11, "b")])
    );
    assert_eq!(all_tokens("// only a note"), Ok(vec![]));
}

#[test]
fn block_comment_is_skipped() {
    assert_eq!(
        all_tokens("a /* note */ b"),
        Ok(vec![ident(0, 1, "a"), ident(13, 14, "b")])
    );
    assert_eq!(
        all_tokens("a /* x /* y */ b"),
        Ok(vec![ident(0, 1, "a"), ident(15, 16, "b")])
    );
}

#[test]
fn newline_inside_a_block_comment_is_still_a_token() {
    assert_eq!(
        all_tokens("a /* one\ntwo */ b"),
        Ok(vec![ident(0, 1, "a"), Token::EOL(span(8, 9)), ident(16, 17, "b")])
    );
}

#[test]
fn unterminated_block_comment_is_an_error() {
    assert_eq!(
        all_tokens("a /* never closed"),
        Err(LexError { kind: LexErrorKind::UnterminatedBlockComment, at: 17 })
    );
    assert_eq!(
        all_tokens("/* one\ntwo"),
        Err(LexError { kind: LexErrorKind::UnterminatedBlockComment, at: 10 })
    );
}

#[test]
fn an_error_is_reported_again_and_again() {
    let mut lexer = Tokenizer::new("a @");
    assert_eq!(lexer.read_next_token(), Ok(ident(0, 1, "a")));
    let error = Err(LexError { kind: LexErrorKind::UnknownByte, at: 2 });
    assert_eq!(lexer.read_next_token(), error);
    assert_eq!(lexer.read_next_token(), error);
}

#[test]
fn slash_alone_divides() {
    assert_eq!(
        all_tokens("a / b /= c"),
        Ok(vec![
            ident(0, 1, "a"),
            Token::Slash(span(2, 3)),
            ident(4, 5, "b"),
            Token::SlashAssign(span(6, 8)),
            ident(9, 10, "c"),
        ])
    );
}

#[test]
fn string_literal_holds_its_text() {
    assert_eq!(
        first_token("\"hello\""),
        Ok(Token::StringLiteral(span(0, 7), String::from("hello")))
    );
    assert_eq!(first_token("\"\""), Ok(Token::StringLiteral(span(0, 2), String::new())));
}

#[test]
fn backslash_in_a_string_takes_the_next_byte_as_it_is() {
    assert_eq!(
        first_token("\"say \\\"hi\\\"\""),
        Ok(Token::StringLiteral(span(0, 12), String::from("say \"hi\"")))
    );
    assert_eq!(
        first_token("\"a\\nb\""),
        Ok(Token::StringLiteral(span(0, 6), String::from("anb")))
    );
    assert_eq!(
        first_token("\"a\\\\b\""),
        Ok(Token::StringLiteral(span(0, 6), String::from("a\\b")))
    );
}

#[test]
fn unterminated_string_is_an_error() {
    assert_eq!(
        first_token("\"never closed"),
        Err(LexError { kind: LexErrorKind::UnterminatedString, at: 0 })
    );
    assert_eq!(
        first_token("x = \"ends in a backslash\\"),
        Ok(ident(0, 1, "x"))
    );
    assert_eq!(
        all_tokens("x = \"ends in a backslash\\"),
        Err(LexError { kind: LexErrorKind::UnterminatedString, at: 4 })
    );
}

#[test]
fn char_literal_holds_one_byte() {
    assert_eq!(first_token("'a'"), Ok(Token::CharLiteral(span(0, 3), b'a')));
    assert_eq!(first_token("'\\n'"), Ok(Token::CharLiteral(span(0, 4), b'n')));
    assert_eq!(first_token("'\\''"), Ok(Token::CharLiteral(span(0, 4), b'\'')));
}

#[test]
fn malformed_char_literal_is_an_error() {
    assert_eq!(
        first_token("'ab'"),
        Err(LexError { kind: LexErrorKind::UnterminatedChar, at: 0 })
    );
    assert_eq!(
        first_token("'a"),
        Err(LexError { kind: LexErrorKind::UnterminatedChar, at: 0 })
    );
    assert_eq!(first_token("'"), Err(LexError { kind: LexErrorKind::UnterminatedChar, at: 0 }));
}

#[test]
fn unknown_byte_is_an_error() {
    assert_eq!(first_token("@"), Err(LexError { kind: LexErrorKind::UnknownByte, at: 0 }));
    assert_eq!(
        all_tokens("a `"),
        Err(LexError { kind: LexErrorKind::UnknownByte, at: 2 })
    );
}

#[test]
fn reserved_words_are_recognised() {
    let words: Vec<(&str, fn(Span) -> Token)> = vec![
        ("decl", Token::KeywordDecl as fn(Span) -> Token),
        ("let", Token::KeywordLet),
        ("struct", Token::KeywordStruct),
        ("enum", Token::KeywordEnum),
        ("match", Token::KeywordMatch),
        ("if", Token::KeywordIf),
        ("else", Token::KeywordElse),
        ("for", Token::KeywordFor),
        ("while", Token::KeywordWhile),
        ("loop", Token::KeywordLoop),
        ("in", Token::KeywordIn),
        ("continue", Token::KeywordContinue),
        ("break", Token::KeywordBreak),
        ("return", Token::KeywordReturn),
        ("as", Token::KeywordAs),
    ];
    for (word, make) in words {
        assert_eq!(first_token(word), Ok(make(span(0, word.len()))), "{}", word);
    }
}

#[test]
fn boolean_literals_are_recognised() {
    assert_eq!(first_token("true"), Ok(Token::BooleanLiteral(span(0, 4), true)));
    assert_eq!(first_token("false"), Ok(Token::BooleanLiteral(span(0, 5), false)));
}

#[test]
fn builtin_types_are_recognised() {
    let types = vec![
        PrimitiveType::Nothing,
        PrimitiveType::Bool,
        PrimitiveType::Char,
        PrimitiveType::String,
        PrimitiveType::U8,
        PrimitiveType::I8,
        PrimitiveType::U16,
        PrimitiveType::I16,
        PrimitiveType::U32,
        PrimitiveType::I32,
        PrimitiveType::U64,
        PrimitiveType::I64,
        PrimitiveType::F32,
        PrimitiveType::F64,
    ];
    let names = vec![
        "nothing", "bool", "char", "string", "u8", "i8", "u16", "i16", "u32", "i32", "u64", "i64",
        "f32", "f64",
    ];
    for (primitive, name) in types.into_iter().zip(names) {
        assert_eq!(primitive.as_str(), name);
        assert_eq!(
            first_token(name),
            Ok(Token::BuiltinType(span(0, name.len()), primitive)),
            "{}",
            name
        );
    }
}

#[test]
fn other_words_are_identifiers() {
    assert_eq!(first_token("decls"), Ok(ident(0, 5, "decls")));
    assert_eq!(first_token("_tmp1"), Ok(ident(0, 5, "_tmp1")));
    assert_eq!(first_token("i33"), Ok(ident(0, 3, "i33")));
    assert_eq!(first_token("If"), Ok(ident(0, 2, "If")));
}

#[test]
fn tokenize_reads_a_whole_line() {
    assert_eq!(
        all_tokens("let x: i32 = 0x2a;"),
        Ok(vec![
            Token::KeywordLet(span(0, 3)),
            ident(4, 5, "x"),
            Token::Colon(span(5, 6)),
            Token::BuiltinType(span(7, 10), PrimitiveType::I32),
            Token::Assign(span(11, 12)),
            Token::Number(span(13, 17), integer("2a", IntegerLiteralFormat::Hexadecimal)),
            Token::Semicolon(span(17, 18)),
        ])
    );
}

#[test]
fn tokenize_goes_on_where_single_steps_stopped() {
    let mut lexer = Tokenizer::new("a b c");
    assert_eq!(lexer.read_next_token(), Ok(ident(0, 1, "a")));
    assert_eq!(lexer.tokenize(), Ok(vec![ident(2, 3, "b"), ident(4, 5, "c")]));
    assert_eq!(lexer.read_next_token(), Ok(Token::EOF));
}

#[test]
fn the_line_count_follows_the_line_end_tokens() {
    let mut lexer = Tokenizer::new("a\n/* x\ny */ b // z\n\nc");
    assert_eq!(lexer.line_number(), 0);
    assert_eq!(lexer.position(), 0);
    assert_eq!(lexer.read_next_token(), Ok(ident(0, 1, "a")));
    assert_eq!(lexer.position(), 1);
    assert_eq!(lexer.read_next_token(), Ok(Token::EOL(span(1, 2))));
    assert_eq!(lexer.line_number(), 1);
    assert_eq!(lexer.read_next_token(), Ok(Token::EOL(span(6, 7))));
    assert_eq!(lexer.line_number(), 2);
    assert_eq!(lexer.read_next_token(), Ok(ident(12, 13, "b")));
    assert_eq!(lexer.line_number(), 2);
    let rest = lexer.tokenize().expect("the rest lexes");
    assert_eq!(
        rest,
        vec![Token::EOL(span(18, 19)), Token::EOL(span(19, 20)), ident(20, 21, "c")]
    );
    assert_eq!(lexer.line_number(), 4);
    assert_eq!(lexer.position(), 21);
}

#[test]
fn after_an_error_tokenize_stands_where_the_failing_step_began() {
    let mut lexer = Tokenizer::new("a\nb  'xy");
    assert_eq!(
        lexer.tokenize(),
        Err(LexError { kind: LexErrorKind::UnterminatedChar, at: 5 })
    );
    assert_eq!(lexer.position(), 3);
    assert_eq!(lexer.line_number(), 1);
    assert_eq!(
        lexer.read_next_token(),
        Err(LexError { kind: LexErrorKind::UnterminatedChar, at: 5 })
    );
}

#[test]
fn a_slash_after_a_star_closes_a_block_comment_at_once() {
    assert_eq!(all_tokens("/*/ a"), Ok(vec![ident(4, 5, "a")]));
    assert_eq!(
        all_tokens("/* *\n/ a */ b"),
        Ok(vec![Token::EOL(span(4, 5)), ident(12, 13, "b")])
    );
}

#[test]
fn tokens_have_their_locations() {
    assert_eq!(Token::EOF.location(), None);
    assert_eq!(Token::Plus(span(3, 4)).location(), Some(span(3, 4)));
    assert_eq!(ident(1, 4, "abc").location(), Some(span(1, 4)));
    for (spelling, make) in every_punctuation() {
        let token = make(span(2, 2 + spelling.len()));
        assert_eq!(token.location(), Some(span(2, 2 + spelling.len())));
        assert_eq!(Token::from_punct(token.punct().expect("a punctuation"), span(2, 2 + spelling.len())), token);
        assert_eq!(token.keyword(), None);
    }
    let word = Token::KeywordWhile(span(0, 5));
    assert_eq!(Token::from_keyword(word.keyword().expect("a reserved word"), span(0, 5)), word);
    assert_eq!(word.punct(), None);
}
