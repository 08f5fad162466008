//! The parser: it owns the tokens and a cursor into them, and builds the
//! syntax tree that [`crate::grammar`] describes.
//!
//! Every method reads one construct at the cursor. Where it succeeds the
//! cursor stands after the construct; where it fails it stands at the token
//! in error. No method changes the tokens.

use vstd::prelude::*;
use crate::ast::ParsedType;
use crate::error::{ParseError, ParseErrorKind, Unsupported};
use crate::grammar::{
    lexeme_at,
    parsed_type,
    pointer_type,
    skip_eols,
    type_path,
    Parse,
};
use crate::model::{lemma_texts_push, texts, views};
use crate::token::{lexemes, Keyword, Lexeme, PrimitiveType, Punct, Span, Token};

pub mod declarations;
pub mod expressions;
pub mod statements;

verus! {

/// Whether the result of a parsing method and the cursor after it are what
/// the grammar asks for.
pub open spec fn agrees<T: View>(r: Result<T, ParseError>, idx: usize, expected: Parse<T::V>) -> bool {
    match expected {
        Parse::Done { value, next } => r matches Ok(v) && v@ == value && idx == next,
        Parse::Failed { kind, at } => r matches Err(e) && e.kind == kind && e.at == at && idx == at,
    }
}

/// Whether the list that a parsing method returns and the cursor after it
/// are what the grammar asks for.
pub open spec fn lists<T: View>(
    r: Result<Vec<T>, ParseError>,
    idx: usize,
    expected: Parse<Seq<T::V>>,
) -> bool {
    match expected {
        Parse::Done { value, next } => r matches Ok(v) && views(v@) == value && idx == next,
        Parse::Failed { kind, at } => r matches Err(e) && e.kind == kind && e.at == at && idx == at,
    }
}

/// The parser: the tokens to read and the index of the next one.
pub struct Parser {
    pub token_stream: Vec<Token>,
    pub idx: usize,
}

impl Parser {
    /// The lexemes of the tokens, in order.
    pub open spec fn lexemes(&self) -> Seq<Lexeme> {
        lexemes(self.token_stream@)
    }

    /// A parser at the first of `token_stream`.
    pub fn new(token_stream: Vec<Token>) -> (r: Parser)
        ensures
            r.token_stream == token_stream,
            r.idx == 0,
    {
        Parser { token_stream, idx: 0 }
    }

    /// The bytes that the token in error was read from; `None` where the
    /// error is at the end of the input.
    pub fn error_span(&self, error: &ParseError) -> (r: Option<Span>)
        ensures
            r == (if error.at < self.token_stream@.len() {
                self.token_stream@[error.at as int].span()
            } else {
                None
            }),
    {
        match self.token_at(error.at) {
            Some(token) => token.location(),
            None => None,
        }
    }

    /// The token at `i`, or `None` past the end.
    fn token_at(&self, i: usize) -> (r: Option<&Token>)
        ensures
            match r {
                Some(token) => i < self.token_stream@.len() && *token == self.token_stream@[i as int],
                None => i >= self.token_stream@.len(),
            },
            lexeme_at(self.lexemes(), i as int) == (match r {
                Some(token) => token.lexeme(),
                None => Lexeme::Eof,
            }),
            self.token_stream@.len() <= usize::MAX,
    {
        if i < self.token_stream.len() {
            Some(&self.token_stream[i])
        } else {
            None
        }
    }

    /// Moves the cursor over `count` tokens.
    fn advance(&mut self, count: usize)
        requires
            old(self).idx + count <= old(self).token_stream@.len(),
        ensures
            final(self).token_stream == old(self).token_stream,
            final(self).idx == old(self).idx + count,
    {
        let len = self.token_stream.len();
        self.idx = self.idx + count;
    }

    /// The token at the cursor.
    fn current(&self) -> (r: Option<&Token>)
        ensures
            match r {
                Some(token) => self.idx < self.token_stream@.len() && *token
                    == self.token_stream@[self.idx as int],
                None => self.idx >= self.token_stream@.len(),
            },
            lexeme_at(self.lexemes(), self.idx as int) == (match r {
                Some(token) => token.lexeme(),
                None => Lexeme::Eof,
            }),
            self.token_stream@.len() <= usize::MAX,
    {
        self.token_at(self.idx)
    }

    /// Whether the token `ahead` places after the cursor is the punctuation
    /// `punct`.
    fn is_punct(&self, ahead: usize, punct: Punct) -> (r: bool)
        ensures
            r == (lexeme_at(self.lexemes(), self.idx + ahead) == Lexeme::Punct(punct)),
            self.token_stream@.len() <= usize::MAX,
    {
        if self.token_stream.len() - self.idx.min(self.token_stream.len()) > ahead {
            match self.token_stream[self.idx + ahead].punct() {
                Some(found) => found == punct,
                None => false,
            }
        } else {
            false
        }
    }

    /// Whether the token `ahead` places after the cursor is the reserved
    /// word `keyword`.
    fn is_keyword(&self, ahead: usize, keyword: Keyword) -> (r: bool)
        ensures
            r == (lexeme_at(self.lexemes(), self.idx + ahead) == Lexeme::Keyword(keyword)),
            self.token_stream@.len() <= usize::MAX,
    {
        if self.token_stream.len() - self.idx.min(self.token_stream.len()) > ahead {
            match self.token_stream[self.idx + ahead].keyword() {
                Some(found) => found == keyword,
                None => false,
            }
        } else {
            false
        }
    }

    /// The name that the token `ahead` places after the cursor holds, if it
    /// is an identifier.
    fn ident(&self, ahead: usize) -> (r: Option<String>)
        ensures
            match lexeme_at(self.lexemes(), self.idx + ahead) {
                Lexeme::Ident(name) => r matches Some(text) && text@ == name,
                _ => r is None,
            },
            self.token_stream@.len() <= usize::MAX,
    {
        if self.token_stream.len() - self.idx.min(self.token_stream.len()) > ahead {
            match &self.token_stream[self.idx + ahead] {
                Token::IdentName(_, name) => Some(name.clone()),
                _ => None,
            }
        } else {
            None
        }
    }

    fn is_eof(&self) -> (r: bool)
        ensures
            r == (lexeme_at(self.lexemes(), self.idx as int) is Eof),
            self.token_stream@.len() <= usize::MAX,
    {
        match self.current() {
            Some(Token::EOF) => true,
            Some(_) => false,
            None => true,
        }
    }

    fn is_eol(&self) -> (r: bool)
        ensures
            r == (lexeme_at(self.lexemes(), self.idx as int) is Eol),
            self.token_stream@.len() <= usize::MAX,
    {
        match self.current() {
            Some(Token::EOL(_)) => true,
            _ => false,
        }
    }

    /// How many end-of-line tokens stand at the cursor.
    fn newlines_ahead(&self) -> (r: usize)
        ensures
            self.idx + r == skip_eols(self.lexemes(), self.idx as int),
            self.idx + r <= self.token_stream@.len() || r == 0,
    {
        let len = self.token_stream.len();
        let mut count: usize = 0;
        while self.ends_line(count)
            invariant
                len == self.token_stream@.len(),
                self.idx + count <= len || count == 0,
                skip_eols(self.lexemes(), self.idx as int) == skip_eols(
                    self.lexemes(),
                    self.idx + count,
                ),
            decreases len - count,
        {
            count += 1;
        }
        count
    }

    /// Whether the token `ahead` places after the cursor ends a line.
    fn ends_line(&self, ahead: usize) -> (r: bool)
        ensures
            r == (lexeme_at(self.lexemes(), self.idx + ahead) is Eol),
            r ==> self.idx + ahead < self.token_stream@.len() <= usize::MAX,
    {
        if self.token_stream.len() - self.idx.min(self.token_stream.len()) > ahead {
            match &self.token_stream[self.idx + ahead] {
                Token::EOL(_) => true,
                _ => false,
            }
        } else {
            false
        }
    }

    /// Moves the cursor over end-of-line tokens.
    pub fn eat_newlines(&mut self)
        ensures
            final(self).token_stream == old(self).token_stream,
            final(self).idx == skip_eols(old(self).lexemes(), old(self).idx as int),
    {
        while self.is_eol()
            invariant
                self.token_stream == old(self).token_stream,
                skip_eols(old(self).lexemes(), old(self).idx as int) == skip_eols(
                    self.lexemes(),
                    self.idx as int,
                ),
            decreases self.token_stream@.len() - self.idx,
        {
            self.advance(1);
        }
    }

    /// Reads a type: the name of a builtin type by itself, or pointer
    /// markers `*` and a path of names joined by `::`. The markers and all
    /// names but the last make the path of the type; the last is its name.
    /// An array type, which starts with `[`, is not read yet.
    pub fn parse_type_name(&mut self) -> (r: Result<ParsedType, ParseError>)
        ensures
            final(self).token_stream == old(self).token_stream,
            agrees(r, final(self).idx, parsed_type(old(self).lexemes(), old(self).idx as int)),
    {
        let ghost ts = self.lexemes();
        let ghost start = self.idx as int;
        let builtin: Option<PrimitiveType> = match self.current() {
            Some(Token::BuiltinType(_, primitive)) => Some(*primitive),
            _ => None,
        };
        match builtin {
            Some(primitive) => {
                let name = primitive.as_str().to_owned();
                let path: Vec<String> = Vec::new();
                self.advance(1);
                let parsed = ParsedType::Name(path, name);
                assert(texts(path@) =~= Seq::empty());
                return Ok(parsed);
            },
            None => {},
        }
        if self.is_punct(0, Punct::LSquare) {
            return Err(
                ParseError {
                    kind: ParseErrorKind::Unsupported(Unsupported::ArrayType),
                    at: self.idx,
                },
            );
        }
        let mut path: Vec<String> = Vec::new();
        assert(texts(path@) =~= Seq::empty());
        while self.is_punct(0, Punct::Star)
            invariant
                self.token_stream == old(self).token_stream,
                ts == self.lexemes(),
                start == old(self).idx,
                pointer_type(ts, start, Seq::empty()) == pointer_type(
                    ts,
                    self.idx as int,
                    texts(path@),
                ),
            decreases self.token_stream@.len() - self.idx,
        {
            let marker = "*".to_owned();
            proof {
                lemma_texts_push(path@, marker);
            }
            path.push(marker);
            self.advance(1);
        }
        loop
            invariant
                self.token_stream == old(self).token_stream,
                ts == self.lexemes(),
                start == old(self).idx,
                parsed_type(ts, start) == type_path(ts, self.idx as int, texts(path@)),
            decreases self.token_stream@.len() - self.idx,
        {
            match self.ident(0) {
                Some(name) => {
                    if self.is_punct(1, Punct::DoubleColon) {
                        let more = self.ident(2).is_some();
                        self.advance(2);
                        if !more {
                            return Err(
                                ParseError {
                                    kind: ParseErrorKind::IncompleteTypePath,
                                    at: self.idx,
                                },
                            );
                        }
                        proof {
                            lemma_texts_push(path@, name);
                        }
                        path.push(name);
                    } else {
                        self.advance(1);
                        return Ok(ParsedType::Name(path, name));
                    }
                },
                None => {
                    return Err(
                        ParseError { kind: ParseErrorKind::ExpectedTypeName, at: self.idx },
                    );
                },
            }
        }
    }
}

} // verus!
