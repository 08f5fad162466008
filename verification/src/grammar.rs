//! The grammar, as functions on a sequence of lexemes.
//!
//! Each function reads one construct that starts at a position and says what
//! it is and where the next construct starts, or which error ends the parse
//! and at which token. Past the end of the sequence every position holds the
//! end-of-input marker.

use vstd::prelude::*;
use crate::error::{ParseErrorKind, Unsupported};
use crate::model::{builtin_type, Type};
use crate::token::{Lexeme, Punct};

pub mod declarations;
pub mod expressions;
pub mod statements;

verus! {

/// The outcome of reading one construct.
pub enum Parse<T> {
    /// The construct is `value`; the next one starts at `next`.
    Done { value: T, next: int },
    /// The token at `at` is in error.
    Failed { kind: ParseErrorKind, at: int },
}

/// The lexeme at position `i`.
pub open spec fn lexeme_at(ts: Seq<Lexeme>, i: int) -> Lexeme {
    if 0 <= i < ts.len() {
        ts[i]
    } else {
        Lexeme::Eof
    }
}

/// The first position at or after `i` that holds no end-of-line token.
pub open spec fn skip_eols(ts: Seq<Lexeme>, i: int) -> int
    decreases ts.len() - i,
{
    if lexeme_at(ts, i) is Eol {
        skip_eols(ts, i + 1)
    } else {
        i
    }
}

/// Skipping end-of-line tokens goes forward, not past the end of the
/// sequence, and stops at a token that ends no line.
pub proof fn lemma_skip_eols(ts: Seq<Lexeme>, i: int)
    ensures
        i <= skip_eols(ts, i),
        skip_eols(ts, i) == i || skip_eols(ts, i) <= ts.len(),
        !(lexeme_at(ts, skip_eols(ts, i)) is Eol),
    decreases ts.len() - i,
{
    if lexeme_at(ts, i) is Eol {
        lemma_skip_eols(ts, i + 1);
    }
}

/// A path of names joined by `::`, from the name at `i` on, after the
/// segments `path`. The last name is the name of the type.
pub open spec fn type_path(ts: Seq<Lexeme>, i: int, path: Seq<Seq<char>>) -> Parse<Type>
    decreases ts.len() - i,
{
    match lexeme_at(ts, i) {
        Lexeme::Ident(name) => if lexeme_at(ts, i + 1) == Lexeme::Punct(Punct::DoubleColon) {
            if lexeme_at(ts, i + 2) is Ident {
                type_path(ts, i + 2, path.push(name))
            } else {
                Parse::Failed { kind: ParseErrorKind::IncompleteTypePath, at: i + 2 }
            }
        } else {
            Parse::Done { value: Type::Name(path, name), next: i + 1 }
        },
        _ => Parse::Failed { kind: ParseErrorKind::ExpectedTypeName, at: i },
    }
}

/// A run of pointer markers `*` from `i` on, each a segment `"*"` of the
/// path, and the path of names after it.
pub open spec fn pointer_type(ts: Seq<Lexeme>, i: int, path: Seq<Seq<char>>) -> Parse<Type>
    decreases ts.len() - i,
{
    if lexeme_at(ts, i) == Lexeme::Punct(Punct::Star) {
        pointer_type(ts, i + 1, path.push("*"@))
    } else {
        type_path(ts, i, path)
    }
}

/// The type written at `i`: the name of a builtin type by itself, or pointer
/// markers and a path of names.
pub open spec fn parsed_type(ts: Seq<Lexeme>, i: int) -> Parse<Type> {
    match lexeme_at(ts, i) {
        Lexeme::Builtin(primitive) => Parse::Done { value: builtin_type(primitive), next: i + 1 },
        Lexeme::Punct(Punct::LSquare) => Parse::Failed {
            kind: ParseErrorKind::Unsupported(Unsupported::ArrayType),
            at: i,
        },
        _ => pointer_type(ts, i, Seq::empty()),
    }
}

/// What [`type_path`] reads takes at least one token, and none past the end.
pub proof fn lemma_type_path_advances(ts: Seq<Lexeme>, i: int, path: Seq<Seq<char>>)
    ensures
        type_path(ts, i, path) matches Parse::Done { next, .. } ==> i < next <= ts.len(),
    decreases ts.len() - i,
{
    match lexeme_at(ts, i) {
        Lexeme::Ident(name) => {
            if lexeme_at(ts, i + 1) == Lexeme::Punct(Punct::DoubleColon) && lexeme_at(ts, i + 2)
                is Ident {
                lemma_type_path_advances(ts, i + 2, path.push(name));
            }
        },
        _ => {},
    }
}

/// What [`pointer_type`] reads takes at least one token, and none past the end.
pub proof fn lemma_pointer_type_advances(ts: Seq<Lexeme>, i: int, path: Seq<Seq<char>>)
    ensures
        pointer_type(ts, i, path) matches Parse::Done { next, .. } ==> i < next <= ts.len(),
    decreases ts.len() - i,
{
    if lexeme_at(ts, i) == Lexeme::Punct(Punct::Star) {
        lemma_pointer_type_advances(ts, i + 1, path.push("*"@));
    } else {
        lemma_type_path_advances(ts, i, path);
    }
}

/// A type takes at least one token, and none past the end.
pub proof fn lemma_parsed_type_advances(ts: Seq<Lexeme>, i: int)
    ensures
        parsed_type(ts, i) matches Parse::Done { next, .. } ==> i < next <= ts.len(),
{
    lemma_pointer_type_advances(ts, i, Seq::empty());
}

} // verus!
