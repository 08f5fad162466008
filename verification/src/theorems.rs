//! What follows from the lexical grammar and the grammar, for every input.

use vstd::prelude::*;
use crate::error::{LexErrorKind, ParseErrorKind};
use crate::grammar::declarations::{member, members, parameter, parameters};
use crate::grammar::statements::{block, block_items, lemma_statement_advances, statement};
use crate::grammar::{lemma_parsed_type_advances, lemma_skip_eols, lexeme_at, skip_eols, Parse};
use crate::lex::{
    base_prefix,
    byte,
    is_digit,
    is_ident_byte,
    latin1,
    lemma_lex_step_advances,
    lemma_number_end_bounds,
    lex_all,
    lex_rest,
    lex_step,
    not_separator,
    number_end,
    punct1,
    punct2,
    punct3,
    punct_at,
    scanned_token,
    skip_trivia,
    spelling,
    token_at,
    Scan,
};
use crate::model::{Stmt, VarDecl};
use crate::token::{Lexeme, Numeric, Punct, TokenModel};

verus! {

/// Whether the bytes of `src` from `p` on begin with `word`.
pub open spec fn begins_with(src: Seq<u8>, p: int, word: Seq<u8>) -> bool {
    0 <= p && p + word.len() <= src.len() && src.subrange(p, p + word.len()) == word
}

/// No two punctuations are spelled alike.
pub proof fn lemma_spelling_is_injective(a: Punct, b: Punct)
    requires
        spelling(a) == spelling(b),
    ensures
        a == b,
{
    let s = spelling(a);
    let t = spelling(b);
    assert(s.len() == t.len());
    assert(s[0] == t[0]);
    if s.len() >= 2 {
        assert(s[1] == t[1]);
    }
}

/// Every punctuation is spelled with one, two or three bytes, and is the
/// entry of its spelling in the table of that length.
pub proof fn lemma_spelling_is_in_the_tables(k: Punct)
    ensures
        1 <= spelling(k).len() <= 3,
        spelling(k).len() == 1 ==> punct1(spelling(k)[0]) == Some(k),
        spelling(k).len() == 2 ==> punct2(spelling(k)[0], spelling(k)[1]) == Some(k),
        spelling(k).len() == 3 ==> punct3(spelling(k)[0], spelling(k)[1], spelling(k)[2]) == Some(
            k,
        ),
{
}

/// Every entry of the tables is spelled as the table says.
pub proof fn lemma_tables_are_spellings(a: u8, b: u8, c: u8)
    ensures
        punct1(a) matches Some(k) ==> spelling(k) == seq![a],
        punct2(a, b) matches Some(k) ==> spelling(k) == seq![a, b],
        punct3(a, b, c) matches Some(k) ==> spelling(k) == seq![a, b, c],
{
    match punct1(a) {
        Some(k) => {
            assert(spelling(k) =~= seq![a]);
        },
        None => {},
    }
    match punct2(a, b) {
        Some(k) => {
            assert(spelling(k) =~= seq![a, b]);
        },
        None => {},
    }
    match punct3(a, b, c) {
        Some(k) => {
            assert(spelling(k) =~= seq![a, b, c]);
        },
        None => {},
    }
}

/// The punctuation read at a position is spelled there.
pub proof fn lemma_punctuation_is_spelled(src: Seq<u8>, p: int)
    requires
        0 <= p < src.len(),
    ensures
        punct_at(src, p) matches Some(k) ==> begins_with(src, p, spelling(k)),
{
    match punct_at(src, p) {
        Some(k) => {
            if p + 2 < src.len() && punct3(src[p], src[p + 1], src[p + 2]) is Some {
                lemma_tables_are_spellings(src[p], src[p + 1], src[p + 2]);
                assert(src.subrange(p, p + 3) =~= seq![src[p], src[p + 1], src[p + 2]]);
            } else if p + 1 < src.len() && punct2(src[p], src[p + 1]) is Some {
                lemma_tables_are_spellings(src[p], src[p + 1], 0);
                assert(src.subrange(p, p + 2) =~= seq![src[p], src[p + 1]]);
            } else {
                lemma_tables_are_spellings(src[p], 0, 0);
                assert(src.subrange(p, p + 1) =~= seq![src[p]]);
            }
        },
        None => {},
    }
}

/// Maximal munch: where the input goes on with the spelling of a
/// punctuation, the punctuation read there is spelled at least as long.
/// With [`lemma_punctuation_is_spelled`] and [`lemma_spelling_is_injective`]
/// the punctuation read is the one with the longest spelling that the input
/// goes on with.
pub proof fn lemma_longest_punctuation_wins(src: Seq<u8>, p: int, k: Punct)
    requires
        begins_with(src, p, spelling(k)),
    ensures
        punct_at(src, p) matches Some(found) && spelling(found).len() >= spelling(k).len(),
        (forall|longer: Punct|
            begins_with(src, p, #[trigger] spelling(longer)) ==> spelling(longer).len() <= spelling(
                k,
            ).len()) ==> punct_at(src, p) == Some(k),
{
    lemma_spelling_is_in_the_tables(k);
    let word = spelling(k);
    let part = src.subrange(p, p + word.len());
    assert(part[0] == src[p]);
    if word.len() >= 2 {
        assert(part[1] == src[p + 1]);
    }
    if word.len() >= 3 {
        assert(part[2] == src[p + 2]);
    }
    lemma_punctuation_is_spelled(src, p);
    let found = punct_at(src, p)->0;
    if forall|longer: Punct|
        begins_with(src, p, #[trigger] spelling(longer)) ==> spelling(longer).len() <= spelling(
            k,
        ).len() {
        assert(begins_with(src, p, spelling(found)));
        assert(spelling(found).len() == word.len());
        assert(spelling(found) == word);
        lemma_spelling_is_injective(found, k);
    }
}

/// Where a token starts with the spelling of a punctuation, the token is a
/// punctuation that is spelled there at least as long, and its span covers
/// its spelling. Where the input goes on with no longer spelling, the token
/// is that punctuation.
pub proof fn lemma_punctuation_token(src: Seq<u8>, pos: int, in_comment: bool, k: Punct)
    requires
        skip_trivia(src, pos, in_comment) == (skip_trivia(src, pos, in_comment).0, false),
        begins_with(src, skip_trivia(src, pos, in_comment).0, spelling(k)),
    ensures
        ({
            let p = skip_trivia(src, pos, in_comment).0;
            let found = punct_at(src, p)->0;
            &&& punct_at(src, p) is Some
            &&& spelling(found).len() >= spelling(k).len()
            &&& begins_with(src, p, spelling(found))
            &&& lex_step(src, pos, in_comment) == (Scan::Token {
                lexeme: Lexeme::Punct(found),
                start: p,
                end: p + spelling(found).len(),
                in_comment: false,
            })
            &&& (forall|longer: Punct|
                begins_with(src, p, #[trigger] spelling(longer)) ==> spelling(longer).len()
                    <= spelling(k).len()) ==> found == k
        }),
{
    let p = skip_trivia(src, pos, in_comment).0;
    lemma_longest_punctuation_wins(src, p, k);
    lemma_punctuation_is_spelled(src, p);
    lemma_spelling_is_in_the_tables(k);
    let word = spelling(k);
    let part = src.subrange(p, p + word.len());
    assert(part[0] == src[p]);
    assert(punct1(src[p]) is Some);
}

/// `<<=` is one token wherever a token starts with it: never `<<` and `=`,
/// and never `<`, `<` and `=`.
pub proof fn lemma_left_shift_assign_is_one_token(src: Seq<u8>, pos: int, in_comment: bool)
    requires
        skip_trivia(src, pos, in_comment) == (skip_trivia(src, pos, in_comment).0, false),
        begins_with(src, skip_trivia(src, pos, in_comment).0, spelling(Punct::LShiftAssign)),
    ensures
        lex_step(src, pos, in_comment) == (Scan::Token {
            lexeme: Lexeme::Punct(Punct::LShiftAssign),
            start: skip_trivia(src, pos, in_comment).0,
            end: skip_trivia(src, pos, in_comment).0 + 3,
            in_comment: false,
        }),
{
    let p = skip_trivia(src, pos, in_comment).0;
    lemma_punctuation_token(src, pos, in_comment, Punct::LShiftAssign);
    assert forall|longer: Punct| begins_with(src, p, #[trigger] spelling(longer)) implies spelling(
        longer,
    ).len() <= 3 by {
        lemma_spelling_is_in_the_tables(longer);
    }
}

/// A punctuation spelled alone lexes to one token: that punctuation, with a
/// span over the whole input.
pub proof fn lemma_punctuation_alone(k: Punct)
    ensures
        lex_all(spelling(k)) == Ok::<Seq<TokenModel>, (LexErrorKind, int)>(
            seq![scanned_token(Lexeme::Punct(k), 0, spelling(k).len() as int)],
        ),
{
    let src = spelling(k);
    let n = src.len() as int;
    lemma_spelling_is_in_the_tables(k);
    assert(punct1(src[0]) is Some);
    assert(skip_trivia(src, 0, false) == (0int, false));
    assert(src.subrange(0, n) =~= src);
    assert(begins_with(src, 0, src));
    lemma_longest_punctuation_wins(src, 0, k);
    assert forall|longer: Punct| begins_with(src, 0, #[trigger] spelling(longer)) implies spelling(
        longer,
    ).len() <= n by {}
    assert(punct_at(src, 0) == Some(k));
    assert(lex_step(src, 0, false) == (Scan::Token {
        lexeme: Lexeme::Punct(k),
        start: 0,
        end: n,
        in_comment: false,
    }));
    lemma_end_is_stable(src);
    let one = Seq::<TokenModel>::empty().push(scanned_token(Lexeme::Punct(k), 0, n));
    assert(lex_rest(src, n, false, one).error is None);
    assert(lex_rest(src, n, false, one).tokens == one);
    assert(one =~= seq![scanned_token(Lexeme::Punct(k), 0, n)]);
}

/// At the end of the input, outside a comment, the lexer yields the end
/// marker and stays where it is: every later step yields the end marker
/// again.
pub proof fn lemma_end_is_stable(src: Seq<u8>)
    ensures
        lex_step(src, src.len() as int, false) == (Scan::Token {
            lexeme: Lexeme::Eof,
            start: src.len() as int,
            end: src.len() as int,
            in_comment: false,
        }),
{
}

/// Whether the tokens have spans inside `[0, limit)`, none of them empty,
/// each after the one before it.
pub open spec fn in_source_order(tokens: Seq<TokenModel>, limit: int) -> bool {
    &&& forall|i: int|
        0 <= i < tokens.len() ==> ((#[trigger] tokens[i]).span matches Some(span) && span.start
            < span.end <= limit)
    &&& forall|i: int, j: int|
        0 <= i < j < tokens.len() ==> (#[trigger] tokens[i]).span->0.end <= (
        #[trigger] tokens[j]).span->0.start
}

/// The tokens of a run come in the order of the source and do not overlap:
/// every token has a span that is not empty, inside the input, and at or
/// after the end of the token before it.
pub proof fn lemma_tokens_are_in_source_order(
    src: Seq<u8>,
    pos: int,
    in_comment: bool,
    seen: Seq<TokenModel>,
)
    requires
        0 <= pos <= src.len() <= usize::MAX,
        in_source_order(seen, pos),
    ensures
        in_source_order(lex_rest(src, pos, in_comment, seen).tokens, src.len() as int),
        pos <= lex_rest(src, pos, in_comment, seen).pos <= src.len(),
    decreases src.len() - pos,
{
    lemma_lex_step_advances(src, pos, in_comment);
    match lex_step(src, pos, in_comment) {
        Scan::Token { lexeme, start, end, in_comment: open } => {
            if !(lexeme is Eof) {
                let token = scanned_token(lexeme, start, end);
                let more = seen.push(token);
                assert(in_source_order(more, end)) by {
                    assert forall|i: int| 0 <= i < more.len() implies ((#[trigger] more[i]).span
                        matches Some(span) && span.start < span.end <= end) by {
                        if i < seen.len() {
                            assert(more[i] == seen[i]);
                        }
                    }
                    assert forall|i: int, j: int| 0 <= i < j < more.len() implies (
                    #[trigger] more[i]).span->0.end <= (#[trigger] more[j]).span->0.start by {
                        assert(more[i] == seen[i]);
                        if j < seen.len() {
                            assert(more[j] == seen[j]);
                        }
                    }
                }
                lemma_tokens_are_in_source_order(src, end, open, more);
            }
        },
        Scan::Failed { .. } => {},
    }
}

/// A numeric literal that starts with `0` and goes on with a byte that is
/// neither `x`, `o`, `b` nor `.` is an error at the `0`.
pub proof fn lemma_leading_zero_is_an_error(src: Seq<u8>, p: int, in_comment: bool)
    requires
        0 <= p,
        p + 1 < src.len(),
        src[p] == byte('0'),
        src[p + 1] != byte('x'),
        src[p + 1] != byte('o'),
        src[p + 1] != byte('b'),
        src[p + 1] != byte('.'),
    ensures
        token_at(src, p, in_comment) == (Scan::Failed {
            kind: LexErrorKind::MalformedBasePrefix,
            at: p,
        }),
{
}

/// The text of a numeric literal holds no separator.
pub proof fn lemma_number_text_has_no_separator(src: Seq<u8>, p: int, in_comment: bool)
    requires
        0 <= p < src.len(),
    ensures
        token_at(src, p, in_comment) matches Scan::Token { lexeme: Lexeme::Number(number), .. }
            ==> !(match number {
            Numeric::Integer(text, _) => text,
            Numeric::FloatingPoint(text, _) => text,
        }).contains('\''),
{
    if is_digit(src[p]) {
        match base_prefix(src, p) {
            Some((format, from)) => {
                lemma_number_end_bounds(src, from);
                let run = src.subrange(from, number_end(src, from));
                let digits = run.filter(not_separator());
                let text = latin1(digits);
                assert forall|i: int| 0 <= i < text.len() implies text[i] != '\'' by {
                    run.lemma_filter_pred(not_separator(), i);
                    assert(digits[i] != byte('\''));
                }
            },
            None => {},
        }
    } else if is_ident_byte(src[p]) {
    } else {
    }
}

/// A parameter with a name and no `:` after it is an error, whatever
/// follows.
pub proof fn lemma_parameter_needs_its_type(ts: Seq<Lexeme>, i: int, seen: Seq<VarDecl>)
    requires
        lexeme_at(ts, i) is Ident,
        lexeme_at(ts, i + 1) != Lexeme::Punct(Punct::Colon),
    ensures
        parameters(ts, i, seen) == (Parse::<Seq<VarDecl>>::Failed {
            kind: ParseErrorKind::ExpectedColon,
            at: i + 1,
        }),
{
    reveal(parameters);
}

/// The parameters of a procedure end with `)`: a parameter list that no `)`
/// closes is an error.
pub proof fn lemma_parameters_end_with_parenthesis(ts: Seq<Lexeme>, i: int, seen: Seq<VarDecl>)
    ensures
        parameters(ts, i, seen) matches Parse::Done { next, .. } ==> lexeme_at(ts, next - 1)
            == Lexeme::Punct(Punct::RParen),
    decreases ts.len() - i,
{
    reveal(parameters);
    if lexeme_at(ts, i) != Lexeme::Punct(Punct::RParen) {
        match parameter(ts, i) {
            Parse::Done { value, next } => {
                lemma_parsed_type_advances(ts, i + 2);
                if lexeme_at(ts, next) == Lexeme::Punct(Punct::Comma) {
                    lemma_parameters_end_with_parenthesis(ts, next + 1, seen.push(value));
                }
            },
            Parse::Failed { .. } => {},
        }
    }
}

/// The body of a struct ends with `}`: a body that no `}` closes is an
/// error.
pub proof fn lemma_members_end_with_brace(ts: Seq<Lexeme>, i: int, seen: Seq<VarDecl>)
    ensures
        members(ts, i, seen) matches Parse::Done { next, .. } ==> lexeme_at(ts, next - 1)
            == Lexeme::Punct(Punct::RCurly),
    decreases ts.len() - i,
{
    reveal(members);
    lemma_skip_eols(ts, i);
    let j = skip_eols(ts, i);
    if lexeme_at(ts, j) != Lexeme::Punct(Punct::RCurly) {
        match member(ts, j) {
            Parse::Done { value, next } => {
                crate::grammar::declarations::lemma_member_advances(ts, j);
                lemma_skip_eols(ts, next);
                let e = skip_eols(ts, next);
                if lexeme_at(ts, e) == Lexeme::Punct(Punct::Comma) {
                    lemma_members_end_with_brace(ts, e + 1, seen.push(value));
                }
            },
            Parse::Failed { .. } => {},
        }
    }
}

/// A block ends with `}`: a block that no `}` closes is an error.
pub proof fn lemma_block_ends_with_brace(ts: Seq<Lexeme>, i: int)
    ensures
        block(ts, i) matches Parse::Done { next, .. } ==> lexeme_at(ts, next - 1) == Lexeme::Punct(
            Punct::RCurly,
        ),
{
    reveal(block);
    reveal(block_items);
    lemma_skip_eols(ts, i);
    let j = skip_eols(ts, i);
    if lexeme_at(ts, j) == Lexeme::Punct(Punct::LCurly) {
        lemma_block_items_end_with_brace(ts, j + 1, Seq::empty());
    }
}

/// The statements of a block end with `}`.
pub proof fn lemma_block_items_end_with_brace(ts: Seq<Lexeme>, i: int, seen: Seq<Stmt>)
    ensures
        block_items(ts, i, seen) matches Parse::Done { next, .. } ==> lexeme_at(ts, next - 1)
            == Lexeme::Punct(Punct::RCurly),
    decreases ts.len() - i,
{
    reveal(block_items);
    reveal(statement);
    match lexeme_at(ts, i) {
        Lexeme::Punct(Punct::RCurly) => {},
        Lexeme::Eol => {
            lemma_block_items_end_with_brace(ts, i + 1, seen);
        },
        Lexeme::Eof => {},
        _ => {
            lemma_statement_advances(ts, i);
            match statement(ts, i) {
                Parse::Done { value, next } => {
                    lemma_block_items_end_with_brace(ts, next, seen.push(value));
                },
                Parse::Failed { .. } => {},
            }
        },
    }
}

} // verus!
