//! The errors of the lexer and of the parser.
//!
//! Neither component recovers: the first error ends the pass, and the error
//! says what was wrong and where.

use vstd::prelude::*;

verus! {

/// What the lexer could not read.
#[derive(PartialEq, Eq, Debug, Clone, Copy)]
pub enum LexErrorKind {
    /// The input ended inside `/* ... */`.
    UnterminatedBlockComment,
    /// The input ended inside a string literal.
    UnterminatedString,
    /// A character literal is not one byte, or one escaped byte, between quotes.
    UnterminatedChar,
    /// A numeric literal starts with `0` followed by something that is neither
    /// a base prefix (`x`, `o`, `b`) nor `.`.
    MalformedBasePrefix,
    /// A numeric literal has a `.` after its exponent marker.
    DotAfterExponent,
    /// A byte that starts no token.
    UnknownByte,
}

/// A lexical error: its kind and the byte offset it is reported at.
#[derive(PartialEq, Eq, Debug, Clone, Copy)]
pub struct LexError {
    pub kind: LexErrorKind,
    pub at: usize,
}

/// A construct that the grammar names but this parser does not read yet.
#[derive(PartialEq, Eq, Debug, Clone, Copy)]
pub enum Unsupported {
    /// `#` at top level: directives and imports.
    Directive,
    /// `decl Name : enum`.
    EnumDeclaration,
    /// `decl NAME : Type`: a typed constant.
    ConstantDeclaration,
    /// A type that starts with `[`.
    ArrayType,
    /// `<` directly after an operand.
    Indexing,
    /// `match` where an operand is expected.
    MatchExpression,
}

/// What the parser found wrong at a token.
#[derive(PartialEq, Eq, Debug, Clone, Copy)]
pub enum ParseErrorKind {
    /// A token that cannot start a top-level item.
    ExpectedDeclaration,
    ExpectedIdentifier,
    ExpectedColon,
    /// After `decl Name :` comes `(`, `struct`, `enum` or a type.
    ExpectedDeclarationKind,
    /// After a parameter list comes `->` or `{`.
    ExpectedArrowOrBody,
    ExpectedLParen,
    ExpectedLCurly,
    ExpectedRCurly,
    /// In a parameter list: a parameter name or `)`.
    ExpectedParameter,
    /// In an argument list: an argument label or `)`.
    ExpectedArgument,
    /// In a struct body: a member name or `}`.
    ExpectedMember,
    ExpectedCommaOrRParen,
    ExpectedCommaOrRCurly,
    ExpectedTypeName,
    /// A type path that ends in `::`.
    IncompleteTypePath,
    /// In a `let`: `:=` or `:` after the name.
    ExpectedColonOrColonAssign,
    ExpectedAssign,
    ExpectedSemicolon,
    ExpectedIn,
    /// A range starts with `[` or `(`.
    ExpectedRangeStart,
    ExpectedDotDot,
    /// A range ends with `]` or `)`.
    ExpectedRangeEnd,
    /// A token that cannot start an operand.
    ExpectedOperand,
    /// An assignment operator where none may stand.
    AssignmentNotAllowed,
    /// A construct that is not read yet.
    Unsupported(Unsupported),
}

/// A syntax error: its kind and the index of the offending token.
#[derive(PartialEq, Eq, Debug, Clone, Copy)]
pub struct ParseError {
    pub kind: ParseErrorKind,
    pub at: usize,
}

} // verus!
