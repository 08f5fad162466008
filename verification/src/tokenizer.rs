//! The lexer: it owns the source bytes and hands out one token per call.

use vstd::prelude::*;
use vstd::string::StrSliceExecFns;
use vstd::utf8::encode_utf8_decode_utf8;
use vstd::string::StringSliceAdditionalSpecFns;
use crate::error::{LexError, LexErrorKind};
use crate::lex::{
    base_prefix,
    builtin_of,
    byte,
    char_at,
    classify_word,
    has_dot,
    has_exponent,
    is_blank,
    is_digit,
    is_exponent_mark,
    is_ident_byte,
    is_number_byte,
    keyword_of,
    latin1,
    lemma_number_end_bounds,
    lemma_lex_step_advances,
    lemma_token_end,
    lex_rest,
    line_ends,
    lex_step,
    line_end,
    misplaced_dot,
    not_separator,
    number_at,
    number_end,
    punct1,
    punct2,
    punct3,
    punct_at,
    scanned_token,
    skip_trivia,
    spelling,
    string_at,
    string_body,
    word_at,
    word_end,
    Scan,
};
use crate::model::{lemma_views_push, views};
use crate::token::{
    FloatingPointLiteralFormat,
    IntegerLiteralFormat,
    Keyword,
    Lexeme,
    NumericConstant,
    PrimitiveType,
    Punct,
    Span,
    Token,
    TokenModel,
};

verus! {

/// What is taken on trust of `std::string::String::push`, which appends one
/// character: after the call the string holds the characters it held
/// before, followed by `c`.
pub assume_specification[ std::string::String::push ](s: &mut std::string::String, c: char)
    ensures
        final(s)@ == old(s)@.push(c),
;

/// Whether two strings hold the same characters.
pub fn same_text(a: &str, b: &str) -> (r: bool)
    ensures
        r == (a@ == b@),
{
    let x = a.as_bytes();
    let y = b.as_bytes();
    proof {
        encode_utf8_decode_utf8(a@);
        encode_utf8_decode_utf8(b@);
    }
    if x.len() != y.len() {
        return false;
    }
    let mut i: usize = 0;
    while i < x.len()
        invariant
            i <= x@.len() == y@.len(),
            x@ == a.spec_bytes(),
            y@ == b.spec_bytes(),
            forall|k: int| 0 <= k < i ==> x@[k] == y@[k],
        decreases x@.len() - i,
    {
        if x[i] != y[i] {
            return false;
        }
        i += 1;
    }
    assert(x@ =~= y@);
    true
}

/// Whether a scanner's result is what the lexical grammar asks for: the
/// token with the position after it, or the error.
pub open spec fn scan_agrees(r: Result<(Token, usize), LexError>, scan: Scan) -> bool {
    match scan {
        Scan::Token { lexeme, start, end, in_comment } => r matches Ok((token, after))
            && token@ == scanned_token(lexeme, start, end) && after == end,
        Scan::Failed { kind, at } => r matches Err(e) && e.kind == kind && e.at == at,
    }
}

fn blank(b: u8) -> (r: bool)
    ensures
        r == is_blank(b),
{
    b == ' ' as u8 || b == '\t' as u8 || b == '\r' as u8
}

fn digit(b: u8) -> (r: bool)
    ensures
        r == is_digit(b),
{
    '0' as u8 <= b && b <= '9' as u8
}

fn is_valid_identifier_char(b: u8) -> (r: bool)
    ensures
        r == is_ident_byte(b),
{
    ('A' as u8 <= b && b <= 'Z' as u8) || ('a' as u8 <= b && b <= 'z' as u8) || digit(b) || b
        == '_' as u8
}

fn is_valid_number_literal_char(b: u8) -> (r: bool)
    ensures
        r == is_number_byte(b),
{
    digit(b) || ('a' as u8 <= b && b <= 'f' as u8) || ('A' as u8 <= b && b <= 'F' as u8) || b
        == '\'' as u8 || b == '.' as u8
}

fn one_byte_punct(a: u8) -> (r: Option<Punct>)
    ensures
        r == punct1(a),
{
    if a == '(' as u8 {
        Some(Punct::LParen)
    } else if a == ')' as u8 {
        Some(Punct::RParen)
    } else if a == '{' as u8 {
        Some(Punct::LCurly)
    } else if a == '}' as u8 {
        Some(Punct::RCurly)
    } else if a == '[' as u8 {
        Some(Punct::LSquare)
    } else if a == ']' as u8 {
        Some(Punct::RSquare)
    } else if a == '<' as u8 {
        Some(Punct::LAngle)
    } else if a == '>' as u8 {
        Some(Punct::RAngle)
    } else if a == '=' as u8 {
        Some(Punct::Assign)
    } else if a == ':' as u8 {
        Some(Punct::Colon)
    } else if a == ';' as u8 {
        Some(Punct::Semicolon)
    } else if a == '$' as u8 {
        Some(Punct::Dollar)
    } else if a == ',' as u8 {
        Some(Punct::Comma)
    } else if a == '.' as u8 {
        Some(Punct::Dot)
    } else if a == '#' as u8 {
        Some(Punct::Hash)
    } else if a == '!' as u8 {
        Some(Punct::Bang)
    } else if a == '?' as u8 {
        Some(Punct::QuestionMark)
    } else if a == '~' as u8 {
        Some(Punct::Tilde)
    } else if a == '&' as u8 {
        Some(Punct::Ampersand)
    } else if a == '|' as u8 {
        Some(Punct::Pipe)
    } else if a == '^' as u8 {
        Some(Punct::Caret)
    } else if a == '-' as u8 {
        Some(Punct::Minus)
    } else if a == '+' as u8 {
        Some(Punct::Plus)
    } else if a == '*' as u8 {
        Some(Punct::Star)
    } else if a == '/' as u8 {
        Some(Punct::Slash)
    } else if a == '%' as u8 {
        Some(Punct::Percent)
    } else {
        None
    }
}

fn two_byte_punct(a: u8, b: u8) -> (r: Option<Punct>)
    ensures
        r == punct2(a, b),
{
    if b == '=' as u8 {
        if a == ':' as u8 {
            Some(Punct::ColonAssign)
        } else if a == '~' as u8 {
            Some(Punct::TildeAssign)
        } else if a == '&' as u8 {
            Some(Punct::AmpersandAssign)
        } else if a == '|' as u8 {
            Some(Punct::PipeAssign)
        } else if a == '^' as u8 {
            Some(Punct::CaretAssign)
        } else if a == '<' as u8 {
            Some(Punct::LEQ)
        } else if a == '>' as u8 {
            Some(Punct::GEQ)
        } else if a == '=' as u8 {
            Some(Punct::EQ)
        } else if a == '!' as u8 {
            Some(Punct::NEQ)
        } else if a == '-' as u8 {
            Some(Punct::MinusAssign)
        } else if a == '+' as u8 {
            Some(Punct::PlusAssign)
        } else if a == '*' as u8 {
            Some(Punct::StarAssign)
        } else if a == '/' as u8 {
            Some(Punct::SlashAssign)
        } else if a == '%' as u8 {
            Some(Punct::PercentAssign)
        } else {
            None
        }
    } else if a == b {
        if a == ':' as u8 {
            Some(Punct::DoubleColon)
        } else if a == '.' as u8 {
            Some(Punct::DotDot)
        } else if a == '&' as u8 {
            Some(Punct::DoubleAmpersand)
        } else if a == '|' as u8 {
            Some(Punct::DoublePipe)
        } else if a == '^' as u8 {
            Some(Punct::DoubleCaret)
        } else if a == '>' as u8 {
            Some(Punct::RShift)
        } else if a == '<' as u8 {
            Some(Punct::LShift)
        } else if a == '-' as u8 {
            Some(Punct::MinusMinus)
        } else if a == '+' as u8 {
            Some(Punct::PlusPlus)
        } else {
            None
        }
    } else if b == '>' as u8 {
        if a == '-' as u8 {
            Some(Punct::ThinArrow)
        } else if a == '=' as u8 {
            Some(Punct::ThiccArrow)
        } else {
            None
        }
    } else {
        None
    }
}

fn three_byte_punct(a: u8, b: u8, c: u8) -> (r: Option<Punct>)
    ensures
        r == punct3(a, b, c),
{
    if a == '<' as u8 && b == '<' as u8 && c == '=' as u8 {
        Some(Punct::LShiftAssign)
    } else if a == '>' as u8 && b == '>' as u8 && c == '=' as u8 {
        Some(Punct::RShiftAssign)
    } else {
        None
    }
}

fn reserved_word(text: &str) -> (r: Option<Keyword>)
    ensures
        r == keyword_of(text@),
{
    if same_text(text, "decl") {
        Some(Keyword::Decl)
    } else if same_text(text, "let") {
        Some(Keyword::Let)
    } else if same_text(text, "struct") {
        Some(Keyword::Struct)
    } else if same_text(text, "enum") {
        Some(Keyword::Enum)
    } else if same_text(text, "match") {
        Some(Keyword::Match)
    } else if same_text(text, "if") {
        Some(Keyword::If)
    } else if same_text(text, "else") {
        Some(Keyword::Else)
    } else if same_text(text, "for") {
        Some(Keyword::For)
    } else if same_text(text, "while") {
        Some(Keyword::While)
    } else if same_text(text, "loop") {
        Some(Keyword::Loop)
    } else if same_text(text, "in") {
        Some(Keyword::In)
    } else if same_text(text, "continue") {
        Some(Keyword::Continue)
    } else if same_text(text, "break") {
        Some(Keyword::Break)
    } else if same_text(text, "return") {
        Some(Keyword::Return)
    } else if same_text(text, "as") {
        Some(Keyword::As)
    } else {
        None
    }
}

fn builtin_type(text: &str) -> (r: Option<PrimitiveType>)
    ensures
        r == builtin_of(text@),
{
    if same_text(text, PrimitiveType::Nothing.as_str()) {
        Some(PrimitiveType::Nothing)
    } else if same_text(text, PrimitiveType::Bool.as_str()) {
        Some(PrimitiveType::Bool)
    } else if same_text(text, PrimitiveType::Char.as_str()) {
        Some(PrimitiveType::Char)
    } else if same_text(text, PrimitiveType::String.as_str()) {
        Some(PrimitiveType::String)
    } else if same_text(text, PrimitiveType::U8.as_str()) {
        Some(PrimitiveType::U8)
    } else if same_text(text, PrimitiveType::I8.as_str()) {
        Some(PrimitiveType::I8)
    } else if same_text(text, PrimitiveType::U16.as_str()) {
        Some(PrimitiveType::U16)
    } else if same_text(text, PrimitiveType::I16.as_str()) {
        Some(PrimitiveType::I16)
    } else if same_text(text, PrimitiveType::U32.as_str()) {
        Some(PrimitiveType::U32)
    } else if same_text(text, PrimitiveType::I32.as_str()) {
        Some(PrimitiveType::I32)
    } else if same_text(text, PrimitiveType::U64.as_str()) {
        Some(PrimitiveType::U64)
    } else if same_text(text, PrimitiveType::I64.as_str()) {
        Some(PrimitiveType::I64)
    } else if same_text(text, PrimitiveType::F32.as_str()) {
        Some(PrimitiveType::F32)
    } else if same_text(text, PrimitiveType::F64.as_str()) {
        Some(PrimitiveType::F64)
    } else {
        None
    }
}

/// The token for a word read from `span`.
fn word_token(text: String, span: Span) -> (r: Token)
    ensures
        r@ == (TokenModel { lexeme: classify_word(text@), span: Some(span) }),
{
    match reserved_word(text.as_str()) {
        Some(keyword) => Token::from_keyword(keyword, span),
        None => {
            if same_text(text.as_str(), "true") {
                Token::BooleanLiteral(span, true)
            } else if same_text(text.as_str(), "false") {
                Token::BooleanLiteral(span, false)
            } else {
                match builtin_type(text.as_str()) {
                    Some(primitive) => Token::BuiltinType(span, primitive),
                    None => Token::IdentName(span, text),
                }
            }
        },
    }
}

/// The lexer: the source bytes, the position of the next byte to read, the
/// number of end-of-line tokens handed out, and whether the cursor stands
/// inside a block comment.
pub struct Tokenizer {
    source: Vec<u8>,
    cursor: usize,
    line: usize,
    in_block_comment: bool,
}

impl Tokenizer {
    #[verifier::type_invariant]
    spec fn well_formed(self) -> bool {
        self.cursor <= self.source@.len() && self.line <= self.cursor
    }

    /// The bytes that are lexed.
    pub closed spec fn source(self) -> Seq<u8> {
        self.source@
    }

    /// The position of the next byte to read.
    pub closed spec fn cursor(self) -> int {
        self.cursor as int
    }

    /// The number of end-of-line tokens handed out so far.
    pub closed spec fn line(self) -> int {
        self.line as int
    }

    /// Whether the cursor stands inside a block comment.
    pub closed spec fn in_block_comment(self) -> bool {
        self.in_block_comment
    }

    /// A lexer at the start of `source`. It reads the bytes of the text one
    /// by one.
    pub fn new(source: &str) -> (r: Tokenizer)
        ensures
            r.source() == source.spec_bytes(),
            r.cursor() == 0,
            r.line() == 0,
            !r.in_block_comment(),
    {
        Tokenizer::from_bytes(source.as_bytes_vec())
    }

    /// A lexer at the start of the bytes `source`.
    pub fn from_bytes(source: Vec<u8>) -> (r: Tokenizer)
        ensures
            r.source() == source@,
            r.cursor() == 0,
            r.line() == 0,
            !r.in_block_comment(),
    {
        Tokenizer { source, cursor: 0, line: 0, in_block_comment: false }
    }

    fn byte_at(&self, idx: usize) -> (r: u8)
        requires
            idx < self.source().len(),
        ensures
            r == self.source()[idx as int],
    {
        self.source[idx]
    }

    /// The text that the bytes of `[start, end)` stand for.
    fn text_of(&self, start: usize, end: usize) -> (r: String)
        requires
            start <= end <= self.source().len(),
        ensures
            r@ == latin1(self.source().subrange(start as int, end as int)),
    {
        let mut text = String::new();
        let mut i: usize = start;
        while i < end
            invariant
                start <= i <= end <= self.source().len(),
                text@ == latin1(self.source().subrange(start as int, i as int)),
            decreases end - i,
        {
            text.push(self.byte_at(i) as char);
            i += 1;
            assert(text@ =~= latin1(self.source().subrange(start as int, i as int)));
        }
        text
    }

    /// The end of the line that `from` lies on.
    fn end_of_line(&self, from: usize) -> (r: usize)
        requires
            from <= self.source().len(),
        ensures
            r == line_end(self.source(), from as int),
            from <= r <= self.source().len(),
    {
        let len = self.source.len();
        let mut i: usize = from;
        while i < len && self.byte_at(i) != '\n' as u8
            invariant
                from <= i <= len == self.source().len(),
                line_end(self.source(), from as int) == line_end(self.source(), i as int),
            decreases len - i,
        {
            i += 1;
        }
        i
    }

    /// Where the next token starts, after blanks and comments, and whether a
    /// block comment is open there.
    fn consume_useless_bytes(&self) -> (r: (usize, bool))
        ensures
            (r.0 as int, r.1) == skip_trivia(self.source(), self.cursor(), self.in_block_comment()),
            self.cursor() <= r.0 <= self.source().len(),
            r.1 ==> r.0 == self.source().len() || self.source()[r.0 as int] == byte('\n'),
            !r.1 && r.0 < self.source().len() ==> !is_blank(self.source()[r.0 as int]),
    {
        proof {
            use_type_invariant(self);
        }
        let len = self.source.len();
        let mut pos: usize = self.cursor;
        let mut open: bool = self.in_block_comment;
        loop
            invariant
                self.cursor() <= pos <= len == self.source().len(),
                skip_trivia(self.source(), self.cursor(), self.in_block_comment()) == skip_trivia(
                    self.source(),
                    pos as int,
                    open,
                ),
            ensures
                self.cursor() <= pos <= self.source().len(),
                skip_trivia(self.source(), self.cursor(), self.in_block_comment()) == (
                    pos as int,
                    open,
                ),
                open ==> pos == self.source().len() || self.source()[pos as int] == byte('\n'),
                !open && pos < self.source().len() ==> !is_blank(self.source()[pos as int]),
            decreases len - pos,
        {
            if pos >= len {
                break ;
            }
            let b = self.byte_at(pos);
            if open {
                if b == '\n' as u8 {
                    break ;
                }
                if b == '/' as u8 && pos > 0 && self.byte_at(pos - 1) == '*' as u8 {
                    open = false;
                }
                pos += 1;
            } else if blank(b) {
                pos += 1;
            } else if b == '/' as u8 && len - pos > 1 && self.byte_at(pos + 1) == '/' as u8 {
                pos = self.end_of_line(pos + 2);
            } else if b == '/' as u8 && len - pos > 1 && self.byte_at(pos + 1) == '*' as u8 {
                pos += 2;
                open = true;
            } else {
                break ;
            }
        }
        (pos, open)
    }

    /// The punctuation that starts at `p`, if any.
    fn tokenize_punctuation(&self, p: usize) -> (r: Result<(Token, usize), LexError>)
        requires
            p < self.source().len(),
        ensures
            scan_agrees(
                r,
                match punct_at(self.source(), p as int) {
                    Some(punct) => Scan::Token {
                        lexeme: Lexeme::Punct(punct),
                        start: p as int,
                        end: p + spelling(punct).len(),
                        in_comment: false,
                    },
                    None => Scan::Failed { kind: LexErrorKind::UnknownByte, at: p as int },
                },
            ),
    {
        let len = self.source.len();
        let a = self.byte_at(p);
        if len - p > 1 {
            let b = self.byte_at(p + 1);
            if len - p > 2 {
                match three_byte_punct(a, b, self.byte_at(p + 2)) {
                    Some(punct) => {
                        return Ok(
                            (
                                Token::from_punct(punct, Span { file_id: 0, start: p, end: p + 3 }),
                                p + 3,
                            ),
                        );
                    },
                    None => {},
                }
            }
            match two_byte_punct(a, b) {
                Some(punct) => {
                    return Ok(
                        (
                            Token::from_punct(punct, Span { file_id: 0, start: p, end: p + 2 }),
                            p + 2,
                        ),
                    );
                },
                None => {},
            }
        }
        match one_byte_punct(a) {
            Some(punct) => Ok(
                (Token::from_punct(punct, Span { file_id: 0, start: p, end: p + 1 }), p + 1),
            ),
            None => Err(LexError { kind: LexErrorKind::UnknownByte, at: p }),
        }
    }

    /// The character literal that starts at the quote at `p`.
    fn tokenize_char_literal(&self, p: usize) -> (r: Result<(Token, usize), LexError>)
        requires
            p < self.source().len(),
        ensures
            scan_agrees(r, char_at(self.source(), p as int)),
    {
        let len = self.source.len();
        let v: usize = if len - p > 2 && self.byte_at(p + 1) == '\\' as u8 {
            p + 2
        } else {
            p + 1
        };
        if len - v > 1 && self.byte_at(v + 1) == '\'' as u8 {
            Ok(
                (
                    Token::CharLiteral(Span { file_id: 0, start: p, end: v + 2 }, self.byte_at(v)),
                    v + 2,
                ),
            )
        } else {
            Err(LexError { kind: LexErrorKind::UnterminatedChar, at: p })
        }
    }

    /// The string literal that starts at the quote at `p`.
    fn tokenize_string_literal(&self, p: usize) -> (r: Result<(Token, usize), LexError>)
        requires
            p < self.source().len(),
        ensures
            scan_agrees(r, string_at(self.source(), p as int)),
    {
        let len = self.source.len();
        let mut text = String::new();
        let ghost mut bytes: Seq<u8> = Seq::empty();
        let mut i: usize = p + 1;
        assert(text@ =~= latin1(bytes));
        loop
            invariant
                p < i <= len,
                len == self.source().len(),
                text@ == latin1(bytes),
                string_body(self.source(), p + 1, Seq::empty()) == string_body(
                    self.source(),
                    i as int,
                    bytes,
                ),
            decreases len - i,
        {
            if i >= len {
                return Err(LexError { kind: LexErrorKind::UnterminatedString, at: p });
            }
            let b = self.byte_at(i);
            if b == '"' as u8 {
                return Ok(
                    (Token::StringLiteral(Span { file_id: 0, start: p, end: i + 1 }, text), i + 1),
                );
            }
            if b == '\\' as u8 {
                if len - i < 2 {
                    return Err(LexError { kind: LexErrorKind::UnterminatedString, at: p });
                }
                let escaped = self.byte_at(i + 1);
                text.push(escaped as char);
                proof {
                    bytes = bytes.push(escaped);
                }
                i += 2;
            } else {
                text.push(b as char);
                proof {
                    bytes = bytes.push(b);
                }
                i += 1;
            }
            assert(text@ =~= latin1(bytes));
        }
    }

    /// The numeric literal that starts at the digit at `p`.
    fn tokenize_number(&self, p: usize) -> (r: Result<(Token, usize), LexError>)
        requires
            p < self.source().len(),
        ensures
            scan_agrees(r, number_at(self.source(), p as int)),
    {
        let len = self.source.len();
        let mut format = IntegerLiteralFormat::Decimal;
        let mut from: usize = p;
        if self.byte_at(p) == '0' as u8 && len - p > 1 {
            let next = self.byte_at(p + 1);
            if next == 'x' as u8 {
                format = IntegerLiteralFormat::Hexadecimal;
                from = p + 2;
            } else if next == 'o' as u8 {
                format = IntegerLiteralFormat::Octal;
                from = p + 2;
            } else if next == 'b' as u8 {
                format = IntegerLiteralFormat::Binary;
                from = p + 2;
            } else if next != '.' as u8 {
                return Err(LexError { kind: LexErrorKind::MalformedBasePrefix, at: p });
            }
        }
        assert(base_prefix(self.source(), p as int) == Some((format, from as int)));
        let ghost end = number_end(self.source(), from as int);
        proof {
            lemma_number_end_bounds(self.source(), from as int);
        }
        let ghost run = self.source().subrange(from as int, end);
        let mut text = String::new();
        let mut exponent = false;
        let mut dot = false;
        let mut i: usize = from;
        assert(run.take(0).filter(not_separator()) =~= Seq::<u8>::empty()) by {
            reveal(Seq::filter);
        }
        assert(text@ =~= latin1(run.take(0).filter(not_separator())));
        while i < len && is_valid_number_literal_char(self.byte_at(i))
            invariant
                from <= i <= end <= len,
                len == self.source().len(),
                end == number_end(self.source(), i as int),
                end == number_end(self.source(), from as int),
                base_prefix(self.source(), p as int) == Some((format, from as int)),
                run == self.source().subrange(from as int, end),
                text@ == latin1(run.take(i - from).filter(not_separator())),
                exponent == has_exponent(run.take(i - from)),
                dot == has_dot(run.take(i - from)),
                misplaced_dot(run, 0, false) == misplaced_dot(run, i - from, exponent),
            decreases len - i,
        {
            let b = self.byte_at(i);
            let ghost k = i - from;
            proof {
                lemma_number_end_bounds(self.source(), i + 1);
            }
            assert(run[k] == b);
            assert(run.take(k + 1) =~= run.take(k).push(b));
            if b == '.' as u8 && exponent {
                return Err(LexError { kind: LexErrorKind::DotAfterExponent, at: i });
            }
            proof {
                run.take(k).lemma_filter_push(b, not_separator());
                let longer = run.take(k + 1);
                if is_exponent_mark(b) {
                    assert(is_exponent_mark(longer[k]));
                }
                if b == byte('.') {
                    assert(longer[k] == byte('.'));
                }
                if has_exponent(run.take(k)) {
                    let w = choose|w: int|
                        0 <= w < run.take(k).len() && is_exponent_mark(#[trigger] run.take(k)[w]);
                    assert(is_exponent_mark(longer[w]));
                }
                if has_dot(run.take(k)) {
                    let w = choose|w: int|
                        0 <= w < run.take(k).len() && #[trigger] run.take(k)[w] == byte('.');
                    assert(longer[w] == byte('.'));
                }
                if has_exponent(longer) && !is_exponent_mark(b) {
                    let w = choose|w: int|
                        0 <= w < longer.len() && is_exponent_mark(#[trigger] longer[w]);
                    assert(is_exponent_mark(run.take(k)[w]));
                }
                if has_dot(longer) && b != byte('.') {
                    let w = choose|w: int| 0 <= w < longer.len() && #[trigger] longer[w] == byte('.');
                    assert(run.take(k)[w] == byte('.'));
                }
            }
            if b == '.' as u8 {
                dot = true;
            } else if b == 'e' as u8 || b == 'E' as u8 {
                exponent = true;
            }
            if b != '\'' as u8 {
                text.push(b as char);
            }
            i += 1;
            assert(text@ =~= latin1(run.take(i - from).filter(not_separator())));
        }
        assert(run.take(i - from) =~= run);
        let span = Span { file_id: 0, start: p, end: i };
        let constant = if exponent {
            NumericConstant::FloatingPoint(text, FloatingPointLiteralFormat::ENotation)
        } else if dot {
            NumericConstant::FloatingPoint(text, FloatingPointLiteralFormat::Standard)
        } else {
            NumericConstant::Integer(text, format)
        };
        Ok((Token::Number(span, constant), i))
    }

    /// The word that starts at `p`: a reserved word, a boolean literal, the
    /// name of a builtin type or an identifier.
    fn tokenize_names(&self, p: usize) -> (r: Result<(Token, usize), LexError>)
        requires
            p < self.source().len(),
        ensures
            scan_agrees(r, word_at(self.source(), p as int)),
    {
        let len = self.source.len();
        let mut end: usize = p;
        while end < len && is_valid_identifier_char(self.byte_at(end))
            invariant
                p <= end <= len == self.source().len(),
                word_end(self.source(), p as int) == word_end(self.source(), end as int),
            decreases len - end,
        {
            end += 1;
        }
        let text = self.text_of(p, end);
        Ok((word_token(text, Span { file_id: 0, start: p, end }), end))
    }

    /// Reads the next token.
    ///
    /// The token and the state after it are those of one [`lex_step`] from the
    /// state before. The line count goes up by one with each end-of-line
    /// token. At the end of the input every call returns `Token::EOF` and
    /// changes nothing; after an error every call returns that error and
    /// changes nothing.
    pub fn read_next_token(&mut self) -> (r: Result<Token, LexError>)
        ensures
            final(self).source() == old(self).source(),
            match lex_step(old(self).source(), old(self).cursor(), old(self).in_block_comment()) {
                Scan::Token { lexeme, start, end, in_comment } => {
                    &&& r matches Ok(token)
                    &&& token@ == scanned_token(lexeme, start, end)
                    &&& final(self).cursor() == end
                    &&& final(self).in_block_comment() == in_comment
                    &&& final(self).line() == old(self).line() + (if lexeme is Eol {
                        1int
                    } else {
                        0int
                    })
                },
                Scan::Failed { kind, at } => {
                    &&& r matches Err(e)
                    &&& e.kind == kind
                    &&& e.at == at
                    &&& *final(self) == *old(self)
                },
            },
    {
        proof {
            use_type_invariant(&*self);
        }
        let (p, open) = self.consume_useless_bytes();
        if p >= self.source.len() {
            if open {
                return Err(LexError { kind: LexErrorKind::UnterminatedBlockComment, at: p });
            }
            self.cursor = p;
            self.in_block_comment = false;
            return Ok(Token::EOF);
        }
        let b = self.byte_at(p);
        if b == '\n' as u8 {
            self.cursor = p + 1;
            self.line = self.line + 1;
            self.in_block_comment = open;
            return Ok(Token::EOL(Span { file_id: 0, start: p, end: p + 1 }));
        }
        let scanned = if digit(b) {
            self.tokenize_number(p)
        } else if b == '\'' as u8 {
            self.tokenize_char_literal(p)
        } else if b == '"' as u8 {
            self.tokenize_string_literal(p)
        } else if is_valid_identifier_char(b) {
            self.tokenize_names(p)
        } else {
            self.tokenize_punctuation(p)
        };
        match scanned {
            Ok((token, end)) => {
                proof {
                    lemma_token_end(self.source(), p as int);
                }
                self.cursor = end;
                self.in_block_comment = false;
                Ok(token)
            },
            Err(e) => Err(e),
        }
    }
}

impl Tokenizer {
    /// The position of the next byte to read.
    pub fn position(&self) -> (r: usize)
        ensures
            r == self.cursor(),
    {
        self.cursor
    }

    /// The number of end-of-line tokens handed out so far.
    pub fn line_number(&self) -> (r: usize)
        ensures
            r == self.line(),
    {
        self.line
    }

    /// Reads all tokens up to the end of the input, or up to the first
    /// error. The end marker is not among the tokens that are returned.
    ///
    /// The run is that of [`lex_rest`] from the state before. After an error
    /// the lexer stands where the step that failed began, so that the next
    /// call meets the error again.
    pub fn tokenize(&mut self) -> (r: Result<Vec<Token>, LexError>)
        ensures
            final(self).source() == old(self).source(),
            ({
                let run = lex_rest(
                    old(self).source(),
                    old(self).cursor(),
                    old(self).in_block_comment(),
                    Seq::empty(),
                );
                &&& final(self).cursor() == run.pos
                &&& final(self).in_block_comment() == run.in_comment
                &&& final(self).line() == old(self).line() + line_ends(run.tokens)
                &&& match run.error {
                    None => r matches Ok(read) && views(read@) == run.tokens,
                    Some((kind, at)) => r matches Err(e) && e.kind == kind && e.at == at,
                }
            }),
    {
        let mut tokens: Vec<Token> = Vec::new();
        assert(views(tokens@) =~= Seq::empty());
        loop
            invariant
                self.source() == old(self).source(),
                lex_rest(
                    old(self).source(),
                    old(self).cursor(),
                    old(self).in_block_comment(),
                    Seq::empty(),
                ) == lex_rest(
                    self.source(),
                    self.cursor(),
                    self.in_block_comment(),
                    views(tokens@),
                ),
                self.line() == old(self).line() + line_ends(views(tokens@)),
            decreases self.source().len() - self.cursor(),
        {
            proof {
                use_type_invariant(&*self);
                lemma_lex_step_advances(self.source(), self.cursor(), self.in_block_comment());
            }
            match self.read_next_token() {
                Ok(Token::EOF) => {
                    return Ok(tokens);
                },
                Ok(token) => {
                    proof {
                        lemma_views_push(tokens@, token);
                        assert(views(tokens@).push(token@).drop_last() =~= views(tokens@));
                    }
                    tokens.push(token);
                },
                Err(e) => {
                    return Err(e);
                },
            }
        }
    }
}

} // verus!
