//! The lexical grammar, as functions on a sequence of bytes.
//!
//! Source text is read byte by byte: a byte stands for the character with the
//! same code, and no multi-byte encoding is decoded. [`lex_step`] says which
//! token starts at a position and where the lexer stands after it;
//! [`lex_all`] says what the whole input lexes to.

use vstd::prelude::*;
use crate::error::LexErrorKind;
use crate::token::{
    FloatingPointLiteralFormat,
    IntegerLiteralFormat,
    Keyword,
    Lexeme,
    Numeric,
    PrimitiveType,
    Punct,
    Span,
    TokenModel,
};

verus! {

/// The byte that stands for an ASCII character.
pub open spec fn byte(c: char) -> u8 {
    c as u8
}

/// The characters that a run of bytes stands for.
pub open spec fn latin1(bytes: Seq<u8>) -> Seq<char> {
    Seq::new(bytes.len(), |i: int| bytes[i] as char)
}

/// Space, tab and carriage return separate tokens and mean nothing else.
pub open spec fn is_blank(b: u8) -> bool {
    b == byte(' ') || b == byte('\t') || b == byte('\r')
}

/// The decimal digits.
pub open spec fn is_digit(b: u8) -> bool {
    byte('0') <= b <= byte('9')
}

/// The bytes of identifiers and reserved words.
pub open spec fn is_ident_byte(b: u8) -> bool {
    (byte('A') <= b <= byte('Z')) || (byte('a') <= b <= byte('z')) || is_digit(b) || b == byte('_')
}

/// The bytes that continue a numeric literal: the digits of every base, the
/// separator `'` and the decimal point.
pub open spec fn is_number_byte(b: u8) -> bool {
    is_digit(b) || (byte('a') <= b <= byte('f')) || (byte('A') <= b <= byte('F')) || b == byte('\'')
        || b == byte('.')
}

/// The bytes that start the exponent of a floating-point literal.
pub open spec fn is_exponent_mark(b: u8) -> bool {
    b == byte('e') || b == byte('E')
}

/// The outcome of one step of the lexer.
pub enum Scan {
    /// The token `lexeme` was read from `[start, end)`; the lexer now stands
    /// at `end`, inside a block comment or not.
    Token { lexeme: Lexeme, start: int, end: int, in_comment: bool },
    Failed { kind: LexErrorKind, at: int },
}

/// The first position at or after `i` that holds a newline, or the end of the
/// input.
pub open spec fn line_end(src: Seq<u8>, i: int) -> int
    decreases src.len() - i,
{
    if 0 <= i < src.len() && src[i] != byte('\n') {
        line_end(src, i + 1)
    } else {
        i
    }
}

/// The end of a line lies at or after `i`, and not past the end of the input.
pub proof fn lemma_line_end_bounds(src: Seq<u8>, i: int)
    requires
        0 <= i <= src.len(),
    ensures
        i <= line_end(src, i) <= src.len(),
    decreases src.len() - i,
{
    if i < src.len() && src[i] != byte('\n') {
        lemma_line_end_bounds(src, i + 1);
    }
}

/// Where the lexer stands after blanks and comments from `pos` on, and
/// whether it is inside a block comment there.
///
/// A line comment runs from `//` up to the newline, which is not part of it.
/// A block comment runs from `/*` to the first `/` after it that directly
/// follows a `*`; block comments do not nest. A newline inside a block
/// comment is still a token: the scan stops at it with the comment open.
pub open spec fn skip_trivia(src: Seq<u8>, pos: int, in_comment: bool) -> (int, bool)
    decreases src.len() - pos,
{
    if !(0 <= pos < src.len()) {
        (pos, in_comment)
    } else if in_comment {
        if src[pos] == byte('\n') {
            (pos, true)
        } else if src[pos] == byte('/') && pos > 0 && src[pos - 1] == byte('*') {
            skip_trivia(src, pos + 1, false)
        } else {
            skip_trivia(src, pos + 1, true)
        }
    } else if is_blank(src[pos]) {
        skip_trivia(src, pos + 1, false)
    } else if src[pos] == byte('/') && pos + 1 < src.len() && src[pos + 1] == byte('/') {
        proof {
            lemma_line_end_bounds(src, pos + 2);
        }
        skip_trivia(src, line_end(src, pos + 2), false)
    } else if src[pos] == byte('/') && pos + 1 < src.len() && src[pos + 1] == byte('*') {
        skip_trivia(src, pos + 2, true)
    } else {
        (pos, false)
    }
}

/// The punctuation that is spelled with one byte.
pub open spec fn punct1(a: u8) -> Option<Punct> {
    if a == byte('(') {
        Some(Punct::LParen)
    } else if a == byte(')') {
        Some(Punct::RParen)
    } else if a == byte('{') {
        Some(Punct::LCurly)
    } else if a == byte('}') {
        Some(Punct::RCurly)
    } else if a == byte('[') {
        Some(Punct::LSquare)
    } else if a == byte(']') {
        Some(Punct::RSquare)
    } else if a == byte('<') {
        Some(Punct::LAngle)
    } else if a == byte('>') {
        Some(Punct::RAngle)
    } else if a == byte('=') {
        Some(Punct::Assign)
    } else if a == byte(':') {
        Some(Punct::Colon)
    } else if a == byte(';') {
        Some(Punct::Semicolon)
    } else if a == byte('$') {
        Some(Punct::Dollar)
    } else if a == byte(',') {
        Some(Punct::Comma)
    } else if a == byte('.') {
        Some(Punct::Dot)
    } else if a == byte('#') {
        Some(Punct::Hash)
    } else if a == byte('!') {
        Some(Punct::Bang)
    } else if a == byte('?') {
        Some(Punct::QuestionMark)
    } else if a == byte('~') {
        Some(Punct::Tilde)
    } else if a == byte('&') {
        Some(Punct::Ampersand)
    } else if a == byte('|') {
        Some(Punct::Pipe)
    } else if a == byte('^') {
        Some(Punct::Caret)
    } else if a == byte('-') {
        Some(Punct::Minus)
    } else if a == byte('+') {
        Some(Punct::Plus)
    } else if a == byte('*') {
        Some(Punct::Star)
    } else if a == byte('/') {
        Some(Punct::Slash)
    } else if a == byte('%') {
        Some(Punct::Percent)
    } else {
        None
    }
}

/// The punctuation that is spelled with two bytes.
pub open spec fn punct2(a: u8, b: u8) -> Option<Punct> {
    if b == byte('=') {
        if a == byte(':') {
            Some(Punct::ColonAssign)
        } else if a == byte('~') {
            Some(Punct::TildeAssign)
        } else if a == byte('&') {
            Some(Punct::AmpersandAssign)
        } else if a == byte('|') {
            Some(Punct::PipeAssign)
        } else if a == byte('^') {
            Some(Punct::CaretAssign)
        } else if a == byte('<') {
            Some(Punct::LEQ)
        } else if a == byte('>') {
            Some(Punct::GEQ)
        } else if a == byte('=') {
            Some(Punct::EQ)
        } else if a == byte('!') {
            Some(Punct::NEQ)
        } else if a == byte('-') {
            Some(Punct::MinusAssign)
        } else if a == byte('+') {
            Some(Punct::PlusAssign)
        } else if a == byte('*') {
            Some(Punct::StarAssign)
        } else if a == byte('/') {
            Some(Punct::SlashAssign)
        } else if a == byte('%') {
            Some(Punct::PercentAssign)
        } else {
            None
        }
    } else if a == b {
        if a == byte(':') {
            Some(Punct::DoubleColon)
        } else if a == byte('.') {
            Some(Punct::DotDot)
        } else if a == byte('&') {
            Some(Punct::DoubleAmpersand)
        } else if a == byte('|') {
            Some(Punct::DoublePipe)
        } else if a == byte('^') {
            Some(Punct::DoubleCaret)
        } else if a == byte('>') {
            Some(Punct::RShift)
        } else if a == byte('<') {
            Some(Punct::LShift)
        } else if a == byte('-') {
            Some(Punct::MinusMinus)
        } else if a == byte('+') {
            Some(Punct::PlusPlus)
        } else {
            None
        }
    } else if b == byte('>') {
        if a == byte('-') {
            Some(Punct::ThinArrow)
        } else if a == byte('=') {
            Some(Punct::ThiccArrow)
        } else {
            None
        }
    } else {
        None
    }
}

/// The punctuation that is spelled with three bytes.
pub open spec fn punct3(a: u8, b: u8, c: u8) -> Option<Punct> {
    if a == byte('<') && b == byte('<') && c == byte('=') {
        Some(Punct::LShiftAssign)
    } else if a == byte('>') && b == byte('>') && c == byte('=') {
        Some(Punct::RShiftAssign)
    } else {
        None
    }
}

/// How a punctuation is spelled.
pub open spec fn spelling(punct: Punct) -> Seq<u8> {
    match punct {
        Punct::LParen => seq![byte('(')],
        Punct::RParen => seq![byte(')')],
        Punct::LCurly => seq![byte('{')],
        Punct::RCurly => seq![byte('}')],
        Punct::LSquare => seq![byte('[')],
        Punct::RSquare => seq![byte(']')],
        Punct::LAngle => seq![byte('<')],
        Punct::RAngle => seq![byte('>')],
        Punct::Assign => seq![byte('=')],
        Punct::Colon => seq![byte(':')],
        Punct::ColonAssign => seq![byte(':'), byte('=')],
        Punct::DoubleColon => seq![byte(':'), byte(':')],
        Punct::Semicolon => seq![byte(';')],
        Punct::ThinArrow => seq![byte('-'), byte('>')],
        Punct::ThiccArrow => seq![byte('='), byte('>')],
        Punct::Dollar => seq![byte('$')],
        Punct::Comma => seq![byte(',')],
        Punct::Dot => seq![byte('.')],
        Punct::DotDot => seq![byte('.'), byte('.')],
        Punct::Hash => seq![byte('#')],
        Punct::Bang => seq![byte('!')],
        Punct::QuestionMark => seq![byte('?')],
        Punct::Tilde => seq![byte('~')],
        Punct::TildeAssign => seq![byte('~'), byte('=')],
        Punct::Ampersand => seq![byte('&')],
        Punct::AmpersandAssign => seq![byte('&'), byte('=')],
        Punct::DoubleAmpersand => seq![byte('&'), byte('&')],
        Punct::Pipe => seq![byte('|')],
        Punct::PipeAssign => seq![byte('|'), byte('=')],
        Punct::DoublePipe => seq![byte('|'), byte('|')],
        Punct::Caret => seq![byte('^')],
        Punct::CaretAssign => seq![byte('^'), byte('=')],
        Punct::DoubleCaret => seq![byte('^'), byte('^')],
        Punct::RShift => seq![byte('>'), byte('>')],
        Punct::RShiftAssign => seq![byte('>'), byte('>'), byte('=')],
        Punct::LShift => seq![byte('<'), byte('<')],
        Punct::LShiftAssign => seq![byte('<'), byte('<'), byte('=')],
        Punct::LEQ => seq![byte('<'), byte('=')],
        Punct::GEQ => seq![byte('>'), byte('=')],
        Punct::EQ => seq![byte('='), byte('=')],
        Punct::NEQ => seq![byte('!'), byte('=')],
        Punct::Minus => seq![byte('-')],
        Punct::MinusMinus => seq![byte('-'), byte('-')],
        Punct::MinusAssign => seq![byte('-'), byte('=')],
        Punct::Plus => seq![byte('+')],
        Punct::PlusPlus => seq![byte('+'), byte('+')],
        Punct::PlusAssign => seq![byte('+'), byte('=')],
        Punct::Star => seq![byte('*')],
        Punct::StarAssign => seq![byte('*'), byte('=')],
        Punct::Slash => seq![byte('/')],
        Punct::SlashAssign => seq![byte('/'), byte('=')],
        Punct::Percent => seq![byte('%')],
        Punct::PercentAssign => seq![byte('%'), byte('=')],
    }
}

/// The punctuation that starts at `p`: the longest spelling that the bytes
/// from `p` on begin with.
pub open spec fn punct_at(src: Seq<u8>, p: int) -> Option<Punct>
    recommends
        0 <= p < src.len(),
{
    if p + 2 < src.len() && punct3(src[p], src[p + 1], src[p + 2]) is Some {
        punct3(src[p], src[p + 1], src[p + 2])
    } else if p + 1 < src.len() && punct2(src[p], src[p + 1]) is Some {
        punct2(src[p], src[p + 1])
    } else {
        punct1(src[p])
    }
}

/// The base that the literal at `p` is written in and the position of its
/// first digit, or `None` where the literal starts with `0` and goes on with a
/// byte that is neither a base prefix nor the decimal point.
pub open spec fn base_prefix(src: Seq<u8>, p: int) -> Option<(IntegerLiteralFormat, int)>
    recommends
        0 <= p < src.len(),
{
    if src[p] != byte('0') || p + 1 >= src.len() {
        Some((IntegerLiteralFormat::Decimal, p))
    } else if src[p + 1] == byte('x') {
        Some((IntegerLiteralFormat::Hexadecimal, p + 2))
    } else if src[p + 1] == byte('o') {
        Some((IntegerLiteralFormat::Octal, p + 2))
    } else if src[p + 1] == byte('b') {
        Some((IntegerLiteralFormat::Binary, p + 2))
    } else if src[p + 1] == byte('.') {
        Some((IntegerLiteralFormat::Decimal, p))
    } else {
        None
    }
}

/// The first position at or after `i` that does not continue a numeric
/// literal.
pub open spec fn number_end(src: Seq<u8>, i: int) -> int
    decreases src.len() - i,
{
    if 0 <= i < src.len() && is_number_byte(src[i]) {
        number_end(src, i + 1)
    } else {
        i
    }
}

/// The end of a run of number bytes lies at or after `i`, and not past the end
/// of the input.
pub proof fn lemma_number_end_bounds(src: Seq<u8>, i: int)
    requires
        0 <= i <= src.len(),
    ensures
        i <= number_end(src, i) <= src.len(),
    decreases src.len() - i,
{
    if i < src.len() && is_number_byte(src[i]) {
        lemma_number_end_bounds(src, i + 1);
    }
}

/// The test that keeps the digits of a literal and drops its separators.
pub open spec fn not_separator() -> spec_fn(u8) -> bool {
    |b: u8| b != byte('\'')
}

/// The index in `run`, at or after `i`, of the first decimal point that comes
/// after an exponent mark.
pub open spec fn misplaced_dot(run: Seq<u8>, i: int, exponent_seen: bool) -> Option<int>
    decreases run.len() - i,
{
    if !(0 <= i < run.len()) {
        None
    } else if run[i] == byte('.') && exponent_seen {
        Some(i)
    } else {
        misplaced_dot(run, i + 1, exponent_seen || is_exponent_mark(run[i]))
    }
}

/// Whether the run holds an exponent mark.
pub open spec fn has_exponent(run: Seq<u8>) -> bool {
    exists|i: int| 0 <= i < run.len() && is_exponent_mark(#[trigger] run[i])
}

/// Whether the run holds a decimal point.
pub open spec fn has_dot(run: Seq<u8>) -> bool {
    exists|i: int| 0 <= i < run.len() && #[trigger] run[i] == byte('.')
}

/// The numeric literal that starts at the digit at `p`.
///
/// After the base prefix, if there is one, the literal is the longest run of
/// number bytes. Its text is that run without the separators. It is a
/// floating-point literal if the run holds a decimal point or an exponent
/// mark, in e-notation if it holds an exponent mark.
pub open spec fn number_at(src: Seq<u8>, p: int) -> Scan
    recommends
        0 <= p < src.len(),
{
    match base_prefix(src, p) {
        None => Scan::Failed { kind: LexErrorKind::MalformedBasePrefix, at: p },
        Some((format, from)) => {
            let end = number_end(src, from);
            let run = src.subrange(from, end);
            match misplaced_dot(run, 0, false) {
                Some(offset) => Scan::Failed {
                    kind: LexErrorKind::DotAfterExponent,
                    at: from + offset,
                },
                None => {
                    let text = latin1(run.filter(not_separator()));
                    let numeric = if has_exponent(run) {
                        Numeric::FloatingPoint(text, FloatingPointLiteralFormat::ENotation)
                    } else if has_dot(run) {
                        Numeric::FloatingPoint(text, FloatingPointLiteralFormat::Standard)
                    } else {
                        Numeric::Integer(text, format)
                    };
                    Scan::Token { lexeme: Lexeme::Number(numeric), start: p, end, in_comment: false }
                },
            }
        },
    }
}

/// The character literal that starts at the quote at `p`: one byte between
/// quotes, or a backslash and one byte.
pub open spec fn char_at(src: Seq<u8>, p: int) -> Scan
    recommends
        0 <= p < src.len(),
{
    let v = if p + 2 < src.len() && src[p + 1] == byte('\\') {
        p + 2
    } else {
        p + 1
    };
    if v + 1 < src.len() && src[v + 1] == byte('\'') {
        Scan::Token { lexeme: Lexeme::Char(src[v]), start: p, end: v + 2, in_comment: false }
    } else {
        Scan::Failed { kind: LexErrorKind::UnterminatedChar, at: p }
    }
}

/// The bytes of a string literal from `i` on, appended to `text`, and the
/// position of the closing quote; `None` where the input ends first.
///
/// A backslash is dropped and the byte after it is taken as it is, so that
/// `\"` stands for a quote inside the literal.
pub open spec fn string_body(src: Seq<u8>, i: int, text: Seq<u8>) -> Option<(Seq<u8>, int)>
    decreases src.len() - i,
{
    if !(0 <= i < src.len()) {
        None
    } else if src[i] == byte('"') {
        Some((text, i))
    } else if src[i] == byte('\\') {
        if i + 1 < src.len() {
            string_body(src, i + 2, text.push(src[i + 1]))
        } else {
            None
        }
    } else {
        string_body(src, i + 1, text.push(src[i]))
    }
}

/// The string literal that starts at the quote at `p`.
pub open spec fn string_at(src: Seq<u8>, p: int) -> Scan
    recommends
        0 <= p < src.len(),
{
    match string_body(src, p + 1, Seq::empty()) {
        Some((text, close)) => Scan::Token {
            lexeme: Lexeme::Str(latin1(text)),
            start: p,
            end: close + 1,
            in_comment: false,
        },
        None => Scan::Failed { kind: LexErrorKind::UnterminatedString, at: p },
    }
}

/// The first position at or after `i` that does not continue a word.
pub open spec fn word_end(src: Seq<u8>, i: int) -> int
    decreases src.len() - i,
{
    if 0 <= i < src.len() && is_ident_byte(src[i]) {
        word_end(src, i + 1)
    } else {
        i
    }
}

/// The end of a run of identifier bytes lies at or after `i`, and not past the
/// end of the input.
pub proof fn lemma_word_end_bounds(src: Seq<u8>, i: int)
    requires
        0 <= i <= src.len(),
    ensures
        i <= word_end(src, i) <= src.len(),
    decreases src.len() - i,
{
    if i < src.len() && is_ident_byte(src[i]) {
        lemma_word_end_bounds(src, i + 1);
    }
}

/// The reserved word that `text` spells, if any.
pub open spec fn keyword_of(text: Seq<char>) -> Option<Keyword> {
    if text == "decl"@ {
        Some(Keyword::Decl)
    } else if text == "let"@ {
        Some(Keyword::Let)
    } else if text == "struct"@ {
        Some(Keyword::Struct)
    } else if text == "enum"@ {
        Some(Keyword::Enum)
    } else if text == "match"@ {
        Some(Keyword::Match)
    } else if text == "if"@ {
        Some(Keyword::If)
    } else if text == "else"@ {
        Some(Keyword::Else)
    } else if text == "for"@ {
        Some(Keyword::For)
    } else if text == "while"@ {
        Some(Keyword::While)
    } else if text == "loop"@ {
        Some(Keyword::Loop)
    } else if text == "in"@ {
        Some(Keyword::In)
    } else if text == "continue"@ {
        Some(Keyword::Continue)
    } else if text == "break"@ {
        Some(Keyword::Break)
    } else if text == "return"@ {
        Some(Keyword::Return)
    } else if text == "as"@ {
        Some(Keyword::As)
    } else {
        None
    }
}

/// The builtin type that `text` names, if any.
pub open spec fn builtin_of(text: Seq<char>) -> Option<PrimitiveType> {
    if text == PrimitiveType::Nothing.name() {
        Some(PrimitiveType::Nothing)
    } else if text == PrimitiveType::Bool.name() {
        Some(PrimitiveType::Bool)
    } else if text == PrimitiveType::Char.name() {
        Some(PrimitiveType::Char)
    } else if text == PrimitiveType::String.name() {
        Some(PrimitiveType::String)
    } else if text == PrimitiveType::U8.name() {
        Some(PrimitiveType::U8)
    } else if text == PrimitiveType::I8.name() {
        Some(PrimitiveType::I8)
    } else if text == PrimitiveType::U16.name() {
        Some(PrimitiveType::U16)
    } else if text == PrimitiveType::I16.name() {
        Some(PrimitiveType::I16)
    } else if text == PrimitiveType::U32.name() {
        Some(PrimitiveType::U32)
    } else if text == PrimitiveType::I32.name() {
        Some(PrimitiveType::I32)
    } else if text == PrimitiveType::U64.name() {
        Some(PrimitiveType::U64)
    } else if text == PrimitiveType::I64.name() {
        Some(PrimitiveType::I64)
    } else if text == PrimitiveType::F32.name() {
        Some(PrimitiveType::F32)
    } else if text == PrimitiveType::F64.name() {
        Some(PrimitiveType::F64)
    } else {
        None
    }
}

/// What a word is: a reserved word, a boolean literal, the name of a builtin
/// type, or else an identifier.
pub open spec fn classify_word(text: Seq<char>) -> Lexeme {
    match keyword_of(text) {
        Some(keyword) => Lexeme::Keyword(keyword),
        None => if text == "true"@ {
            Lexeme::Bool(true)
        } else if text == "false"@ {
            Lexeme::Bool(false)
        } else {
            match builtin_of(text) {
                Some(primitive) => Lexeme::Builtin(primitive),
                None => Lexeme::Ident(text),
            }
        },
    }
}

/// The word that starts at `p`: the longest run of identifier bytes.
pub open spec fn word_at(src: Seq<u8>, p: int) -> Scan
    recommends
        0 <= p < src.len(),
{
    let end = word_end(src, p);
    Scan::Token {
        lexeme: classify_word(latin1(src.subrange(p, end))),
        start: p,
        end,
        in_comment: false,
    }
}

/// The token that starts at `p`, where `p` is a position of the input that
/// holds neither a blank nor the start of a comment.
pub open spec fn token_at(src: Seq<u8>, p: int, in_comment: bool) -> Scan
    recommends
        0 <= p < src.len(),
{
    let b = src[p];
    if b == byte('\n') {
        Scan::Token { lexeme: Lexeme::Eol, start: p, end: p + 1, in_comment }
    } else if is_digit(b) {
        number_at(src, p)
    } else if b == byte('\'') {
        char_at(src, p)
    } else if b == byte('"') {
        string_at(src, p)
    } else if is_ident_byte(b) {
        word_at(src, p)
    } else {
        match punct_at(src, p) {
            Some(punct) => Scan::Token {
                lexeme: Lexeme::Punct(punct),
                start: p,
                end: p + spelling(punct).len(),
                in_comment: false,
            },
            None => Scan::Failed { kind: LexErrorKind::UnknownByte, at: p },
        }
    }
}

/// One step of the lexer that stands at `pos`, inside a block comment or not:
/// the next token and the state after it, or the error that ends the pass.
///
/// At the end of the input the token is the end marker, unless a block
/// comment is still open.
pub open spec fn lex_step(src: Seq<u8>, pos: int, in_comment: bool) -> Scan {
    let (p, open) = skip_trivia(src, pos, in_comment);
    if 0 <= p < src.len() {
        token_at(src, p, open)
    } else if open {
        Scan::Failed { kind: LexErrorKind::UnterminatedBlockComment, at: p }
    } else {
        Scan::Token { lexeme: Lexeme::Eof, start: p, end: p, in_comment: false }
    }
}

/// The model of the token that one step yields.
pub open spec fn scanned_token(lexeme: Lexeme, start: int, end: int) -> TokenModel {
    TokenModel {
        lexeme,
        span: if lexeme is Eof {
            None
        } else {
            Some(Span { file_id: 0, start: start as usize, end: end as usize })
        },
    }
}

/// A token that is not the end marker ends after the position it starts at,
/// and inside the input.
pub proof fn lemma_token_end(src: Seq<u8>, p: int)
    requires
        0 <= p < src.len(),
    ensures
        token_at(src, p, false) matches Scan::Token { end, .. } ==> p < end <= src.len(),
{
    let b = src[p];
    if b == byte('\n') {
    } else if is_digit(b) {
        match base_prefix(src, p) {
            Some((format, from)) => {
                lemma_number_end_bounds(src, from);
                assert(is_number_byte(src[p]));
                if from == p {
                    assert(number_end(src, p) == number_end(src, p + 1));
                    lemma_number_end_bounds(src, p + 1);
                }
            },
            None => {},
        }
    } else if b == byte('\'') {
    } else if b == byte('"') {
        lemma_string_body_end(src, p + 1, Seq::empty());
    } else if is_ident_byte(b) {
        assert(word_end(src, p) == word_end(src, p + 1));
        lemma_word_end_bounds(src, p + 1);
    } else {
    }
}

/// The closing quote of a string literal lies at or after `i`, inside the
/// input.
pub proof fn lemma_string_body_end(src: Seq<u8>, i: int, text: Seq<u8>)
    requires
        0 <= i,
    ensures
        string_body(src, i, text) matches Some((_, close)) ==> i <= close < src.len(),
    decreases src.len() - i,
{
    if !(0 <= i < src.len()) {
    } else if src[i] == byte('"') {
    } else if src[i] == byte('\\') {
        if i + 1 < src.len() {
            lemma_string_body_end(src, i + 2, text.push(src[i + 1]));
        }
    } else {
        lemma_string_body_end(src, i + 1, text.push(src[i]));
    }
}

/// Skipping blanks and comments takes the lexer forward, and not past the
/// end of the input.
pub proof fn lemma_skip_trivia_bounds(src: Seq<u8>, pos: int, in_comment: bool)
    requires
        0 <= pos <= src.len(),
    ensures
        pos <= skip_trivia(src, pos, in_comment).0 <= src.len(),
        skip_trivia(src, pos, in_comment).1 && skip_trivia(src, pos, in_comment).0 < src.len()
            ==> src[skip_trivia(src, pos, in_comment).0] == byte('\n'),
    decreases src.len() - pos,
{
    if !(0 <= pos < src.len()) {
    } else if in_comment {
        if src[pos] == byte('\n') {
        } else if src[pos] == byte('/') && pos > 0 && src[pos - 1] == byte('*') {
            lemma_skip_trivia_bounds(src, pos + 1, false);
        } else {
            lemma_skip_trivia_bounds(src, pos + 1, true);
        }
    } else if is_blank(src[pos]) {
        lemma_skip_trivia_bounds(src, pos + 1, false);
    } else if src[pos] == byte('/') && pos + 1 < src.len() && src[pos + 1] == byte('/') {
        lemma_line_end_bounds(src, pos + 2);
        lemma_skip_trivia_bounds(src, line_end(src, pos + 2), false);
    } else if src[pos] == byte('/') && pos + 1 < src.len() && src[pos + 1] == byte('*') {
        lemma_skip_trivia_bounds(src, pos + 2, true);
    } else {
    }
}

/// A step that yields a token other than the end marker takes the lexer
/// forward, and not past the end of the input. The end marker is yielded
/// at the end of the input alone, and leaves the lexer there.
pub proof fn lemma_lex_step_advances(src: Seq<u8>, pos: int, in_comment: bool)
    requires
        0 <= pos <= src.len(),
    ensures
        match lex_step(src, pos, in_comment) {
            Scan::Token { lexeme, start, end, in_comment: open } => if lexeme is Eof {
                start == src.len() && end == src.len() && !open
            } else {
                pos <= start < end <= src.len()
            },
            Scan::Failed { kind, at } => pos <= at <= src.len(),
        },
{
    lemma_skip_trivia_bounds(src, pos, in_comment);
    let (p, open) = skip_trivia(src, pos, in_comment);
    if p < src.len() {
        lemma_token_end(src, p);
        lemma_token_kind(src, p, open);
    }
}

/// No token that is read from the input is the end marker, and an error in
/// a token is reported inside it.
pub proof fn lemma_token_kind(src: Seq<u8>, p: int, in_comment: bool)
    requires
        0 <= p < src.len(),
    ensures
        match token_at(src, p, in_comment) {
            Scan::Token { lexeme, start, end, .. } => !(lexeme is Eof) && start == p && (
            token_at(src, p, false) matches Scan::Token { end: other, .. } && end == other),
            Scan::Failed { at, .. } => p <= at < src.len(),
        },
{
    let b = src[p];
    if is_digit(b) {
        match base_prefix(src, p) {
            Some((format, from)) => {
                lemma_number_end_bounds(src, from);
                let end = number_end(src, from);
                lemma_misplaced_dot_bounds(src.subrange(from, end), 0, false);
            },
            None => {},
        }
    } else if is_ident_byte(b) {
        lemma_classify_word_kind(latin1(src.subrange(p, word_end(src, p))));
    }
}

/// A misplaced decimal point lies at or after `i`, inside the run.
pub proof fn lemma_misplaced_dot_bounds(run: Seq<u8>, i: int, exponent_seen: bool)
    requires
        0 <= i,
    ensures
        misplaced_dot(run, i, exponent_seen) matches Some(at) ==> i <= at < run.len(),
    decreases run.len() - i,
{
    if 0 <= i < run.len() && !(run[i] == byte('.') && exponent_seen) {
        lemma_misplaced_dot_bounds(run, i + 1, exponent_seen || is_exponent_mark(run[i]));
    }
}

/// A word is never the end marker.
pub proof fn lemma_classify_word_kind(text: Seq<char>)
    ensures
        !(classify_word(text) is Eof),
        !(classify_word(text) is Eol),
{
}

/// What reading token after token comes to.
pub struct LexRun {
    /// The tokens that were read, without the end marker.
    pub tokens: Seq<TokenModel>,
    /// Where the lexer stands after them.
    pub pos: int,
    /// Whether it stands inside a block comment there.
    pub in_comment: bool,
    /// The error that ended the run, if it did not reach the end of the
    /// input.
    pub error: Option<(LexErrorKind, int)>,
}

/// Reading from `pos` on, after the tokens `seen`, up to the end of the
/// input or the first error. After an error the lexer stands where the step
/// that failed began.
pub open spec fn lex_rest(src: Seq<u8>, pos: int, in_comment: bool, seen: Seq<TokenModel>) -> LexRun
    decreases src.len() - pos,
{
    match lex_step(src, pos, in_comment) {
        Scan::Token { lexeme, start, end, in_comment: open } => if lexeme is Eof {
            LexRun { tokens: seen, pos: end, in_comment: false, error: None }
        } else if 0 <= pos <= src.len() {
            proof {
                lemma_lex_step_advances(src, pos, in_comment);
            }
            lex_rest(src, end, open, seen.push(scanned_token(lexeme, start, end)))
        } else {
            arbitrary()
        },
        Scan::Failed { kind, at } => LexRun {
            tokens: seen,
            pos,
            in_comment,
            error: Some((kind, at)),
        },
    }
}

/// What the whole of `src` lexes to: its tokens without the end marker, or
/// the first error.
pub open spec fn lex_all(src: Seq<u8>) -> Result<Seq<TokenModel>, (LexErrorKind, int)> {
    let run = lex_rest(src, 0, false, Seq::empty());
    match run.error {
        None => Ok(run.tokens),
        Some(error) => Err(error),
    }
}

/// The number of end-of-line tokens among `tokens`.
pub open spec fn line_ends(tokens: Seq<TokenModel>) -> nat
    decreases tokens.len(),
{
    if tokens.len() == 0 {
        0
    } else {
        line_ends(tokens.drop_last()) + if tokens.last().lexeme is Eol {
            1nat
        } else {
            0nat
        }
    }
}

} // verus!
