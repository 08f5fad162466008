//! Tokens, their spans, and the mathematical model of a token.
//!
//! The executable [`Token`] owns its text as a `String`. Contracts speak of its
//! view, a [`TokenModel`]: a [`Lexeme`] (what the token is, with text as a
//! sequence of characters) and the span it was read from.

use vstd::prelude::*;

verus! {

/// A half-open byte range `[start, end)` in the source buffer `file_id`.
#[derive(PartialEq, Eq, Structural, Debug, Clone, Copy)]
pub struct Span {
    pub file_id: u64,
    pub start: usize,
    pub end: usize,
}

/// The base an integer literal was written in.
#[derive(PartialEq, Eq, Structural, Debug, Clone, Copy)]
pub enum IntegerLiteralFormat {
    Binary,
    Octal,
    Decimal,
    Hexadecimal,
}

/// The notation a floating-point literal was written in.
#[derive(PartialEq, Eq, Structural, Debug, Clone, Copy)]
pub enum FloatingPointLiteralFormat {
    Standard,
    ENotation,
}

/// A numeric literal. The text holds the digits as written, without the base
/// prefix and without `'` separators; it is never converted to a number here.
#[derive(PartialEq, Eq, Debug, Clone)]
pub enum NumericConstant {
    Integer(String, IntegerLiteralFormat),
    FloatingPoint(String, FloatingPointLiteralFormat),
}

/// The model of a [`NumericConstant`].
pub enum Numeric {
    Integer(Seq<char>, IntegerLiteralFormat),
    FloatingPoint(Seq<char>, FloatingPointLiteralFormat),
}

impl View for NumericConstant {
    type V = Numeric;

    open spec fn view(&self) -> Numeric {
        match self {
            NumericConstant::Integer(text, format) => Numeric::Integer(text@, *format),
            NumericConstant::FloatingPoint(text, format) => Numeric::FloatingPoint(text@, *format),
        }
    }
}

impl NumericConstant {
    /// A copy with the same text and format.
    pub fn duplicate(&self) -> (r: NumericConstant)
        ensures
            r@ == self@,
    {
        match self {
            NumericConstant::Integer(text, format) => NumericConstant::Integer(
                text.clone(),
                *format,
            ),
            NumericConstant::FloatingPoint(text, format) => NumericConstant::FloatingPoint(
                text.clone(),
                *format,
            ),
        }
    }
}

/// The types that the language builds in.
#[derive(PartialEq, Eq, Structural, Debug, Clone, Copy)]
pub enum PrimitiveType {
    Nothing,
    Bool,
    Char,
    String,
    U8,
    I8,
    U16,
    I16,
    U32,
    I32,
    U64,
    I64,
    F32,
    F64,
}

impl PrimitiveType {
    /// The name of the type as it is spelled in source text.
    pub open spec fn name(self) -> Seq<char> {
        match self {
            PrimitiveType::Nothing => "nothing"@,
            PrimitiveType::Bool => "bool"@,
            PrimitiveType::Char => "char"@,
            PrimitiveType::String => "string"@,
            PrimitiveType::U8 => "u8"@,
            PrimitiveType::I8 => "i8"@,
            PrimitiveType::U16 => "u16"@,
            PrimitiveType::I16 => "i16"@,
            PrimitiveType::U32 => "u32"@,
            PrimitiveType::I32 => "i32"@,
            PrimitiveType::U64 => "u64"@,
            PrimitiveType::I64 => "i64"@,
            PrimitiveType::F32 => "f32"@,
            PrimitiveType::F64 => "f64"@,
        }
    }

    /// The name of the type as it is spelled in source text.
    pub fn as_str(&self) -> (r: &'static str)
        ensures
            r@ == self.name(),
    {
        match self {
            PrimitiveType::Nothing => "nothing",
            PrimitiveType::Bool => "bool",
            PrimitiveType::Char => "char",
            PrimitiveType::String => "string",
            PrimitiveType::U8 => "u8",
            PrimitiveType::I8 => "i8",
            PrimitiveType::U16 => "u16",
            PrimitiveType::I16 => "i16",
            PrimitiveType::U32 => "u32",
            PrimitiveType::I32 => "i32",
            PrimitiveType::U64 => "u64",
            PrimitiveType::I64 => "i64",
            PrimitiveType::F32 => "f32",
            PrimitiveType::F64 => "f64",
        }
    }
}

/// The fixed punctuation of the language, one entry per spelling.
#[derive(PartialEq, Eq, Structural, Debug, Clone, Copy)]
pub enum Punct {
    LParen,
    RParen,
    LCurly,
    RCurly,
    LSquare,
    RSquare,
    LAngle,
    RAngle,
    Assign,
    Colon,
    ColonAssign,
    DoubleColon,
    Semicolon,
    ThinArrow,
    ThiccArrow,
    Dollar,
    Comma,
    Dot,
    DotDot,
    Hash,
    Bang,
    QuestionMark,
    Tilde,
    TildeAssign,
    Ampersand,
    AmpersandAssign,
    DoubleAmpersand,
    Pipe,
    PipeAssign,
    DoublePipe,
    Caret,
    CaretAssign,
    DoubleCaret,
    RShift,
    RShiftAssign,
    LShift,
    LShiftAssign,
    LEQ,
    GEQ,
    EQ,
    NEQ,
    Minus,
    MinusMinus,
    MinusAssign,
    Plus,
    PlusPlus,
    PlusAssign,
    Star,
    StarAssign,
    Slash,
    SlashAssign,
    Percent,
    PercentAssign,
}

/// The reserved words of the language, apart from the names of builtin types
/// and the two boolean literals.
#[derive(PartialEq, Eq, Structural, Debug, Clone, Copy)]
pub enum Keyword {
    Decl,
    Let,
    Struct,
    Enum,
    Match,
    If,
    Else,
    For,
    While,
    Loop,
    In,
    Continue,
    Break,
    Return,
    As,
}

/// What a token is, apart from where it was read.
pub enum Lexeme {
    Eol,
    Eof,
    Ident(Seq<char>),
    Str(Seq<char>),
    Char(u8),
    Number(Numeric),
    Bool(bool),
    Punct(Punct),
    Keyword(Keyword),
    Builtin(PrimitiveType),
}

/// The model of a [`Token`]: its lexeme and its span. The end-of-input marker
/// has no span.
pub struct TokenModel {
    pub lexeme: Lexeme,
    pub span: Option<Span>,
}

/// A token: what it is and, but for the end-of-input marker, the span it
/// was read from.
#[derive(PartialEq, Eq, Debug, Clone)]
pub enum Token {
    /// End of line.
    EOL(Span),
    /// End of input.
    EOF,
    IdentName(Span, String),
    StringLiteral(Span, String),
    CharLiteral(Span, u8),
    Number(Span, NumericConstant),
    BooleanLiteral(Span, bool),
    LParen(Span),
    RParen(Span),
    LCurly(Span),
    RCurly(Span),
    LSquare(Span),
    RSquare(Span),
    LAngle(Span),
    RAngle(Span),
    Assign(Span),
    Colon(Span),
    ColonAssign(Span),
    DoubleColon(Span),
    Semicolon(Span),
    ThinArrow(Span),
    ThiccArrow(Span),
    Dollar(Span),
    Comma(Span),
    Dot(Span),
    DotDot(Span),
    Hash(Span),
    Bang(Span),
    QuestionMark(Span),
    Tilde(Span),
    TildeAssign(Span),
    Ampersand(Span),
    AmpersandAssign(Span),
    DoubleAmpersand(Span),
    Pipe(Span),
    PipeAssign(Span),
    DoublePipe(Span),
    Caret(Span),
    CaretAssign(Span),
    DoubleCaret(Span),
    RShift(Span),
    RShiftAssign(Span),
    LShift(Span),
    LShiftAssign(Span),
    LEQ(Span),
    GEQ(Span),
    EQ(Span),
    NEQ(Span),
    Minus(Span),
    MinusMinus(Span),
    MinusAssign(Span),
    Plus(Span),
    PlusPlus(Span),
    PlusAssign(Span),
    Star(Span),
    StarAssign(Span),
    Slash(Span),
    SlashAssign(Span),
    Percent(Span),
    PercentAssign(Span),
    KeywordDecl(Span),
    KeywordLet(Span),
    KeywordStruct(Span),
    KeywordEnum(Span),
    KeywordMatch(Span),
    KeywordIf(Span),
    KeywordElse(Span),
    KeywordFor(Span),
    KeywordWhile(Span),
    KeywordLoop(Span),
    KeywordIn(Span),
    KeywordContinue(Span),
    KeywordBreak(Span),
    KeywordReturn(Span),
    KeywordAs(Span),
    BuiltinType(Span, PrimitiveType),
}

impl Token {
    /// What the token is, apart from where it was read.
    pub open spec fn lexeme(self) -> Lexeme {
        match self {
            Token::EOL(_) => Lexeme::Eol,
            Token::EOF => Lexeme::Eof,
            Token::IdentName(_, name) => Lexeme::Ident(name@),
            Token::StringLiteral(_, text) => Lexeme::Str(text@),
            Token::CharLiteral(_, byte) => Lexeme::Char(byte),
            Token::Number(_, constant) => Lexeme::Number(constant@),
            Token::BooleanLiteral(_, value) => Lexeme::Bool(value),
            Token::LParen(_) => Lexeme::Punct(Punct::LParen),
            Token::RParen(_) => Lexeme::Punct(Punct::RParen),
            Token::LCurly(_) => Lexeme::Punct(Punct::LCurly),
            Token::RCurly(_) => Lexeme::Punct(Punct::RCurly),
            Token::LSquare(_) => Lexeme::Punct(Punct::LSquare),
            Token::RSquare(_) => Lexeme::Punct(Punct::RSquare),
            Token::LAngle(_) => Lexeme::Punct(Punct::LAngle),
            Token::RAngle(_) => Lexeme::Punct(Punct::RAngle),
            Token::Assign(_) => Lexeme::Punct(Punct::Assign),
            Token::Colon(_) => Lexeme::Punct(Punct::Colon),
            Token::ColonAssign(_) => Lexeme::Punct(Punct::ColonAssign),
            Token::DoubleColon(_) => Lexeme::Punct(Punct::DoubleColon),
            Token::Semicolon(_) => Lexeme::Punct(Punct::Semicolon),
            Token::ThinArrow(_) => Lexeme::Punct(Punct::ThinArrow),
            Token::ThiccArrow(_) => Lexeme::Punct(Punct::ThiccArrow),
            Token::Dollar(_) => Lexeme::Punct(Punct::Dollar),
            Token::Comma(_) => Lexeme::Punct(Punct::Comma),
            Token::Dot(_) => Lexeme::Punct(Punct::Dot),
            Token::DotDot(_) => Lexeme::Punct(Punct::DotDot),
            Token::Hash(_) => Lexeme::Punct(Punct::Hash),
            Token::Bang(_) => Lexeme::Punct(Punct::Bang),
            Token::QuestionMark(_) => Lexeme::Punct(Punct::QuestionMark),
            Token::Tilde(_) => Lexeme::Punct(Punct::Tilde),
            Token::TildeAssign(_) => Lexeme::Punct(Punct::TildeAssign),
            Token::Ampersand(_) => Lexeme::Punct(Punct::Ampersand),
            Token::AmpersandAssign(_) => Lexeme::Punct(Punct::AmpersandAssign),
            Token::DoubleAmpersand(_) => Lexeme::Punct(Punct::DoubleAmpersand),
            Token::Pipe(_) => Lexeme::Punct(Punct::Pipe),
            Token::PipeAssign(_) => Lexeme::Punct(Punct::PipeAssign),
            Token::DoublePipe(_) => Lexeme::Punct(Punct::DoublePipe),
            Token::Caret(_) => Lexeme::Punct(Punct::Caret),
            Token::CaretAssign(_) => Lexeme::Punct(Punct::CaretAssign),
            Token::DoubleCaret(_) => Lexeme::Punct(Punct::DoubleCaret),
            Token::RShift(_) => Lexeme::Punct(Punct::RShift),
            Token::RShiftAssign(_) => Lexeme::Punct(Punct::RShiftAssign),
            Token::LShift(_) => Lexeme::Punct(Punct::LShift),
            Token::LShiftAssign(_) => Lexeme::Punct(Punct::LShiftAssign),
            Token::LEQ(_) => Lexeme::Punct(Punct::LEQ),
            Token::GEQ(_) => Lexeme::Punct(Punct::GEQ),
            Token::EQ(_) => Lexeme::Punct(Punct::EQ),
            Token::NEQ(_) => Lexeme::Punct(Punct::NEQ),
            Token::Minus(_) => Lexeme::Punct(Punct::Minus),
            Token::MinusMinus(_) => Lexeme::Punct(Punct::MinusMinus),
            Token::MinusAssign(_) => Lexeme::Punct(Punct::MinusAssign),
            Token::Plus(_) => Lexeme::Punct(Punct::Plus),
            Token::PlusPlus(_) => Lexeme::Punct(Punct::PlusPlus),
            Token::PlusAssign(_) => Lexeme::Punct(Punct::PlusAssign),
            Token::Star(_) => Lexeme::Punct(Punct::Star),
            Token::StarAssign(_) => Lexeme::Punct(Punct::StarAssign),
            Token::Slash(_) => Lexeme::Punct(Punct::Slash),
            Token::SlashAssign(_) => Lexeme::Punct(Punct::SlashAssign),
            Token::Percent(_) => Lexeme::Punct(Punct::Percent),
            Token::PercentAssign(_) => Lexeme::Punct(Punct::PercentAssign),
            Token::KeywordDecl(_) => Lexeme::Keyword(Keyword::Decl),
            Token::KeywordLet(_) => Lexeme::Keyword(Keyword::Let),
            Token::KeywordStruct(_) => Lexeme::Keyword(Keyword::Struct),
            Token::KeywordEnum(_) => Lexeme::Keyword(Keyword::Enum),
            Token::KeywordMatch(_) => Lexeme::Keyword(Keyword::Match),
            Token::KeywordIf(_) => Lexeme::Keyword(Keyword::If),
            Token::KeywordElse(_) => Lexeme::Keyword(Keyword::Else),
            Token::KeywordFor(_) => Lexeme::Keyword(Keyword::For),
            Token::KeywordWhile(_) => Lexeme::Keyword(Keyword::While),
            Token::KeywordLoop(_) => Lexeme::Keyword(Keyword::Loop),
            Token::KeywordIn(_) => Lexeme::Keyword(Keyword::In),
            Token::KeywordContinue(_) => Lexeme::Keyword(Keyword::Continue),
            Token::KeywordBreak(_) => Lexeme::Keyword(Keyword::Break),
            Token::KeywordReturn(_) => Lexeme::Keyword(Keyword::Return),
            Token::KeywordAs(_) => Lexeme::Keyword(Keyword::As),
            Token::BuiltinType(_, primitive) => Lexeme::Builtin(primitive),
        }
    }

    /// The bytes the token was read from; `None` for the end-of-input marker.
    pub open spec fn span(self) -> Option<Span> {
        match self {
            Token::EOF => None,
            Token::EOL(span)
            | Token::IdentName(span, _)
            | Token::StringLiteral(span, _)
            | Token::CharLiteral(span, _)
            | Token::Number(span, _)
            | Token::BooleanLiteral(span, _)
            | Token::LParen(span)
            | Token::RParen(span)
            | Token::LCurly(span)
            | Token::RCurly(span)
            | Token::LSquare(span)
            | Token::RSquare(span)
            | Token::LAngle(span)
            | Token::RAngle(span)
            | Token::Assign(span)
            | Token::Colon(span)
            | Token::ColonAssign(span)
            | Token::DoubleColon(span)
            | Token::Semicolon(span)
            | Token::ThinArrow(span)
            | Token::ThiccArrow(span)
            | Token::Dollar(span)
            | Token::Comma(span)
            | Token::Dot(span)
            | Token::DotDot(span)
            | Token::Hash(span)
            | Token::Bang(span)
            | Token::QuestionMark(span)
            | Token::Tilde(span)
            | Token::TildeAssign(span)
            | Token::Ampersand(span)
            | Token::AmpersandAssign(span)
            | Token::DoubleAmpersand(span)
            | Token::Pipe(span)
            | Token::PipeAssign(span)
            | Token::DoublePipe(span)
            | Token::Caret(span)
            | Token::CaretAssign(span)
            | Token::DoubleCaret(span)
            | Token::RShift(span)
            | Token::RShiftAssign(span)
            | Token::LShift(span)
            | Token::LShiftAssign(span)
            | Token::LEQ(span)
            | Token::GEQ(span)
            | Token::EQ(span)
            | Token::NEQ(span)
            | Token::Minus(span)
            | Token::MinusMinus(span)
            | Token::MinusAssign(span)
            | Token::Plus(span)
            | Token::PlusPlus(span)
            | Token::PlusAssign(span)
            | Token::Star(span)
            | Token::StarAssign(span)
            | Token::Slash(span)
            | Token::SlashAssign(span)
            | Token::Percent(span)
            | Token::PercentAssign(span)
            | Token::KeywordDecl(span)
            | Token::KeywordLet(span)
            | Token::KeywordStruct(span)
            | Token::KeywordEnum(span)
            | Token::KeywordMatch(span)
            | Token::KeywordIf(span)
            | Token::KeywordElse(span)
            | Token::KeywordFor(span)
            | Token::KeywordWhile(span)
            | Token::KeywordLoop(span)
            | Token::KeywordIn(span)
            | Token::KeywordContinue(span)
            | Token::KeywordBreak(span)
            | Token::KeywordReturn(span)
            | Token::KeywordAs(span)
            | Token::BuiltinType(span, _) => Some(span),
        }
    }

    /// The bytes the token was read from; `None` for the end-of-input marker.
    pub fn location(&self) -> (r: Option<Span>)
        ensures
            r == self.span(),
    {
        match self {
            Token::EOF => None,
            Token::EOL(span)
            | Token::IdentName(span, _)
            | Token::StringLiteral(span, _)
            | Token::CharLiteral(span, _)
            | Token::Number(span, _)
            | Token::BooleanLiteral(span, _)
            | Token::LParen(span)
            | Token::RParen(span)
            | Token::LCurly(span)
            | Token::RCurly(span)
            | Token::LSquare(span)
            | Token::RSquare(span)
            | Token::LAngle(span)
            | Token::RAngle(span)
            | Token::Assign(span)
            | Token::Colon(span)
            | Token::ColonAssign(span)
            | Token::DoubleColon(span)
            | Token::Semicolon(span)
            | Token::ThinArrow(span)
            | Token::ThiccArrow(span)
            | Token::Dollar(span)
            | Token::Comma(span)
            | Token::Dot(span)
            | Token::DotDot(span)
            | Token::Hash(span)
            | Token::Bang(span)
            | Token::QuestionMark(span)
            | Token::Tilde(span)
            | Token::TildeAssign(span)
            | Token::Ampersand(span)
            | Token::AmpersandAssign(span)
            | Token::DoubleAmpersand(span)
            | Token::Pipe(span)
            | Token::PipeAssign(span)
            | Token::DoublePipe(span)
            | Token::Caret(span)
            | Token::CaretAssign(span)
            | Token::DoubleCaret(span)
            | Token::RShift(span)
            | Token::RShiftAssign(span)
            | Token::LShift(span)
            | Token::LShiftAssign(span)
            | Token::LEQ(span)
            | Token::GEQ(span)
            | Token::EQ(span)
            | Token::NEQ(span)
            | Token::Minus(span)
            | Token::MinusMinus(span)
            | Token::MinusAssign(span)
            | Token::Plus(span)
            | Token::PlusPlus(span)
            | Token::PlusAssign(span)
            | Token::Star(span)
            | Token::StarAssign(span)
            | Token::Slash(span)
            | Token::SlashAssign(span)
            | Token::Percent(span)
            | Token::PercentAssign(span)
            | Token::KeywordDecl(span)
            | Token::KeywordLet(span)
            | Token::KeywordStruct(span)
            | Token::KeywordEnum(span)
            | Token::KeywordMatch(span)
            | Token::KeywordIf(span)
            | Token::KeywordElse(span)
            | Token::KeywordFor(span)
            | Token::KeywordWhile(span)
            | Token::KeywordLoop(span)
            | Token::KeywordIn(span)
            | Token::KeywordContinue(span)
            | Token::KeywordBreak(span)
            | Token::KeywordReturn(span)
            | Token::KeywordAs(span)
            | Token::BuiltinType(span, _) => Some(*span),
        }
    }

    /// The punctuation that the token stands for, if it is one.
    pub fn punct(&self) -> (r: Option<Punct>)
        ensures
            r == (match self.lexeme() {
                Lexeme::Punct(punct) => Some(punct),
                _ => None,
            }),
    {
        match self {
            Token::LParen(_) => Some(Punct::LParen),
            Token::RParen(_) => Some(Punct::RParen),
            Token::LCurly(_) => Some(Punct::LCurly),
            Token::RCurly(_) => Some(Punct::RCurly),
            Token::LSquare(_) => Some(Punct::LSquare),
            Token::RSquare(_) => Some(Punct::RSquare),
            Token::LAngle(_) => Some(Punct::LAngle),
            Token::RAngle(_) => Some(Punct::RAngle),
            Token::Assign(_) => Some(Punct::Assign),
            Token::Colon(_) => Some(Punct::Colon),
            Token::ColonAssign(_) => Some(Punct::ColonAssign),
            Token::DoubleColon(_) => Some(Punct::DoubleColon),
            Token::Semicolon(_) => Some(Punct::Semicolon),
            Token::ThinArrow(_) => Some(Punct::ThinArrow),
            Token::ThiccArrow(_) => Some(Punct::ThiccArrow),
            Token::Dollar(_) => Some(Punct::Dollar),
            Token::Comma(_) => Some(Punct::Comma),
            Token::Dot(_) => Some(Punct::Dot),
            Token::DotDot(_) => Some(Punct::DotDot),
            Token::Hash(_) => Some(Punct::Hash),
            Token::Bang(_) => Some(Punct::Bang),
            Token::QuestionMark(_) => Some(Punct::QuestionMark),
            Token::Tilde(_) => Some(Punct::Tilde),
            Token::TildeAssign(_) => Some(Punct::TildeAssign),
            Token::Ampersand(_) => Some(Punct::Ampersand),
            Token::AmpersandAssign(_) => Some(Punct::AmpersandAssign),
            Token::DoubleAmpersand(_) => Some(Punct::DoubleAmpersand),
            Token::Pipe(_) => Some(Punct::Pipe),
            Token::PipeAssign(_) => Some(Punct::PipeAssign),
            Token::DoublePipe(_) => Some(Punct::DoublePipe),
            Token::Caret(_) => Some(Punct::Caret),
            Token::CaretAssign(_) => Some(Punct::CaretAssign),
            Token::DoubleCaret(_) => Some(Punct::DoubleCaret),
            Token::RShift(_) => Some(Punct::RShift),
            Token::RShiftAssign(_) => Some(Punct::RShiftAssign),
            Token::LShift(_) => Some(Punct::LShift),
            Token::LShiftAssign(_) => Some(Punct::LShiftAssign),
            Token::LEQ(_) => Some(Punct::LEQ),
            Token::GEQ(_) => Some(Punct::GEQ),
            Token::EQ(_) => Some(Punct::EQ),
            Token::NEQ(_) => Some(Punct::NEQ),
            Token::Minus(_) => Some(Punct::Minus),
            Token::MinusMinus(_) => Some(Punct::MinusMinus),
            Token::MinusAssign(_) => Some(Punct::MinusAssign),
            Token::Plus(_) => Some(Punct::Plus),
            Token::PlusPlus(_) => Some(Punct::PlusPlus),
            Token::PlusAssign(_) => Some(Punct::PlusAssign),
            Token::Star(_) => Some(Punct::Star),
            Token::StarAssign(_) => Some(Punct::StarAssign),
            Token::Slash(_) => Some(Punct::Slash),
            Token::SlashAssign(_) => Some(Punct::SlashAssign),
            Token::Percent(_) => Some(Punct::Percent),
            Token::PercentAssign(_) => Some(Punct::PercentAssign),
            _ => None,
        }
    }

    /// The reserved word that the token stands for, if it is one.
    pub fn keyword(&self) -> (r: Option<Keyword>)
        ensures
            r == (match self.lexeme() {
                Lexeme::Keyword(keyword) => Some(keyword),
                _ => None,
            }),
    {
        match self {
            Token::KeywordDecl(_) => Some(Keyword::Decl),
            Token::KeywordLet(_) => Some(Keyword::Let),
            Token::KeywordStruct(_) => Some(Keyword::Struct),
            Token::KeywordEnum(_) => Some(Keyword::Enum),
            Token::KeywordMatch(_) => Some(Keyword::Match),
            Token::KeywordIf(_) => Some(Keyword::If),
            Token::KeywordElse(_) => Some(Keyword::Else),
            Token::KeywordFor(_) => Some(Keyword::For),
            Token::KeywordWhile(_) => Some(Keyword::While),
            Token::KeywordLoop(_) => Some(Keyword::Loop),
            Token::KeywordIn(_) => Some(Keyword::In),
            Token::KeywordContinue(_) => Some(Keyword::Continue),
            Token::KeywordBreak(_) => Some(Keyword::Break),
            Token::KeywordReturn(_) => Some(Keyword::Return),
            Token::KeywordAs(_) => Some(Keyword::As),
            _ => None,
        }
    }

    /// The token that stands for the punctuation `punct`, read from `span`.
    pub fn from_punct(punct: Punct, span: Span) -> (r: Token)
        ensures
            r@ == (TokenModel { lexeme: Lexeme::Punct(punct), span: Some(span) }),
    {
        match punct {
            Punct::LParen => Token::LParen(span),
            Punct::RParen => Token::RParen(span),
            Punct::LCurly => Token::LCurly(span),
            Punct::RCurly => Token::RCurly(span),
            Punct::LSquare => Token::LSquare(span),
            Punct::RSquare => Token::RSquare(span),
            Punct::LAngle => Token::LAngle(span),
            Punct::RAngle => Token::RAngle(span),
            Punct::Assign => Token::Assign(span),
            Punct::Colon => Token::Colon(span),
            Punct::ColonAssign => Token::ColonAssign(span),
            Punct::DoubleColon => Token::DoubleColon(span),
            Punct::Semicolon => Token::Semicolon(span),
            Punct::ThinArrow => Token::ThinArrow(span),
            Punct::ThiccArrow => Token::ThiccArrow(span),
            Punct::Dollar => Token::Dollar(span),
            Punct::Comma => Token::Comma(span),
            Punct::Dot => Token::Dot(span),
            Punct::DotDot => Token::DotDot(span),
            Punct::Hash => Token::Hash(span),
            Punct::Bang => Token::Bang(span),
            Punct::QuestionMark => Token::QuestionMark(span),
            Punct::Tilde => Token::Tilde(span),
            Punct::TildeAssign => Token::TildeAssign(span),
            Punct::Ampersand => Token::Ampersand(span),
            Punct::AmpersandAssign => Token::AmpersandAssign(span),
            Punct::DoubleAmpersand => Token::DoubleAmpersand(span),
            Punct::Pipe => Token::Pipe(span),
            Punct::PipeAssign => Token::PipeAssign(span),
            Punct::DoublePipe => Token::DoublePipe(span),
            Punct::Caret => Token::Caret(span),
            Punct::CaretAssign => Token::CaretAssign(span),
            Punct::DoubleCaret => Token::DoubleCaret(span),
            Punct::RShift => Token::RShift(span),
            Punct::RShiftAssign => Token::RShiftAssign(span),
            Punct::LShift => Token::LShift(span),
            Punct::LShiftAssign => Token::LShiftAssign(span),
            Punct::LEQ => Token::LEQ(span),
            Punct::GEQ => Token::GEQ(span),
            Punct::EQ => Token::EQ(span),
            Punct::NEQ => Token::NEQ(span),
            Punct::Minus => Token::Minus(span),
            Punct::MinusMinus => Token::MinusMinus(span),
            Punct::MinusAssign => Token::MinusAssign(span),
            Punct::Plus => Token::Plus(span),
            Punct::PlusPlus => Token::PlusPlus(span),
            Punct::PlusAssign => Token::PlusAssign(span),
            Punct::Star => Token::Star(span),
            Punct::StarAssign => Token::StarAssign(span),
            Punct::Slash => Token::Slash(span),
            Punct::SlashAssign => Token::SlashAssign(span),
            Punct::Percent => Token::Percent(span),
            Punct::PercentAssign => Token::PercentAssign(span),
        }
    }

    /// The token that stands for the reserved word `keyword`, read from `span`.
    pub fn from_keyword(keyword: Keyword, span: Span) -> (r: Token)
        ensures
            r@ == (TokenModel { lexeme: Lexeme::Keyword(keyword), span: Some(span) }),
    {
        match keyword {
            Keyword::Decl => Token::KeywordDecl(span),
            Keyword::Let => Token::KeywordLet(span),
            Keyword::Struct => Token::KeywordStruct(span),
            Keyword::Enum => Token::KeywordEnum(span),
            Keyword::Match => Token::KeywordMatch(span),
            Keyword::If => Token::KeywordIf(span),
            Keyword::Else => Token::KeywordElse(span),
            Keyword::For => Token::KeywordFor(span),
            Keyword::While => Token::KeywordWhile(span),
            Keyword::Loop => Token::KeywordLoop(span),
            Keyword::In => Token::KeywordIn(span),
            Keyword::Continue => Token::KeywordContinue(span),
            Keyword::Break => Token::KeywordBreak(span),
            Keyword::Return => Token::KeywordReturn(span),
            Keyword::As => Token::KeywordAs(span),
        }
    }
}

impl View for Token {
    type V = TokenModel;

    open spec fn view(&self) -> TokenModel {
        TokenModel { lexeme: self.lexeme(), span: self.span() }
    }
}

/// The lexemes of a token sequence, in order.
pub open spec fn lexemes(tokens: Seq<Token>) -> Seq<Lexeme> {
    Seq::new(tokens.len(), |i: int| tokens[i].lexeme())
}

} // verus!
