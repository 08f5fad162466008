//! Statements and blocks.

use vstd::prelude::*;
use crate::error::ParseErrorKind;
use crate::grammar::expressions::{
    expression,
    lemma_expression_advances,
    lemma_range_expression_advances,
    range_expression,
};
use crate::grammar::{
    lemma_parsed_type_advances,
    lemma_skip_eols,
    lexeme_at,
    parsed_type,
    skip_eols,
    Parse,
};
use crate::model::unwritten_type;

use crate::model::{Block, Expr, Stmt, Type, VarDecl};
use crate::token::{Keyword, Lexeme, Punct};

verus! {

/// The statement `value` that ends before `i`, where `;` has to stand.
pub open spec fn terminated(ts: Seq<Lexeme>, i: int, value: Stmt) -> Parse<Stmt> {
    if lexeme_at(ts, i) == Lexeme::Punct(Punct::Semicolon) {
        Parse::Done { value, next: i + 1 }
    } else {
        Parse::Failed { kind: ParseErrorKind::ExpectedSemicolon, at: i }
    }
}

/// The value of the variable `name` of type `declared` from `i` on, and the
/// `;` that ends the declaration. No assignment may stand in the value.
pub open spec fn variable_value(
    ts: Seq<Lexeme>,
    i: int,
    declared: Type,
    name: Seq<char>,
) -> Parse<Stmt> {
    match expression(ts, i, false, true) {
        Parse::Done { value, next } => terminated(
            ts,
            next,
            Stmt::VarDecl(VarDecl { parsed_type: declared, name, default_value: value }),
        ),
        Parse::Failed { kind, at } => Parse::Failed { kind, at },
    }
}

/// The declaration of a variable at the `let` at `i`: `let name := value;`,
/// which leaves the type unwritten, or `let name: Type = value;`.
pub open spec fn let_statement(ts: Seq<Lexeme>, i: int) -> Parse<Stmt> {
    match lexeme_at(ts, i + 1) {
        Lexeme::Ident(name) => match lexeme_at(ts, i + 2) {
            Lexeme::Punct(Punct::ColonAssign) => variable_value(ts, i + 3, unwritten_type(), name),
            Lexeme::Punct(Punct::Colon) => match parsed_type(ts, i + 3) {
                Parse::Done { value, next } => if lexeme_at(ts, next) == Lexeme::Punct(
                    Punct::Assign,
                ) {
                    variable_value(ts, next + 1, value, name)
                } else {
                    Parse::Failed { kind: ParseErrorKind::ExpectedAssign, at: next }
                },
                Parse::Failed { kind, at } => Parse::Failed { kind, at },
            },
            _ => Parse::Failed { kind: ParseErrorKind::ExpectedColonOrColonAssign, at: i + 2 },
        },
        _ => Parse::Failed { kind: ParseErrorKind::ExpectedIdentifier, at: i + 1 },
    }
}

/// `return value;` at the `return` at `i`. No assignment may stand in the
/// value.
pub open spec fn return_statement(ts: Seq<Lexeme>, i: int) -> Parse<Stmt> {
    match expression(ts, i + 1, false, true) {
        Parse::Done { value, next } => terminated(ts, next, Stmt::Return(value)),
        Parse::Failed { kind, at } => Parse::Failed { kind, at },
    }
}

/// An expression as a statement, from `i` on: `value;`. An assignment may
/// stand in it.
pub open spec fn expression_statement(ts: Seq<Lexeme>, i: int) -> Parse<Stmt> {
    match expression(ts, i, true, true) {
        Parse::Done { value, next } => terminated(ts, next, Stmt::Expr(value)),
        Parse::Failed { kind, at } => Parse::Failed { kind, at },
    }
}

/// The variable that a `for` loop declares: its type is unwritten and it has
/// no value.
pub open spec fn loop_variable(name: Seq<char>) -> VarDecl {
    VarDecl { parsed_type: unwritten_type(), name, default_value: Expr::Invalid }
}

/// The statement that starts at `i`, chosen by its first token: `let`, `if`,
/// `for`, `while`, `loop` with its block, `continue;`, `break;`, `return`,
/// or else an expression.
#[verifier::opaque]
pub open spec fn statement(ts: Seq<Lexeme>, i: int) -> Parse<Stmt>
    decreases ts.len() - i, 2int,
{
    match lexeme_at(ts, i) {
        Lexeme::Keyword(Keyword::Let) => let_statement(ts, i),
        Lexeme::Keyword(Keyword::If) => if_statement(ts, i),
        Lexeme::Keyword(Keyword::For) => for_statement(ts, i),
        Lexeme::Keyword(Keyword::While) => while_statement(ts, i),
        Lexeme::Keyword(Keyword::Loop) => match block(ts, i + 1) {
            Parse::Done { value, next } => Parse::Done { value: Stmt::InfiniteLoop(value), next },
            Parse::Failed { kind, at } => Parse::Failed { kind, at },
        },
        Lexeme::Keyword(Keyword::Continue) => terminated(ts, i + 1, Stmt::Continue),
        Lexeme::Keyword(Keyword::Break) => terminated(ts, i + 1, Stmt::Break),
        Lexeme::Keyword(Keyword::Return) => return_statement(ts, i),
        _ => expression_statement(ts, i),
    }
}

/// `if condition { .. }` at the `if` at `i`, and what follows its block. No
/// assignment may stand in the condition.
#[verifier::opaque]
pub open spec fn if_statement(ts: Seq<Lexeme>, i: int) -> Parse<Stmt>
    decreases ts.len() - i, 1int,
{
    match expression(ts, i + 1, false, true) {
        Parse::Done { value: condition, next } => {
            proof {
                lemma_expression_advances(ts, i + 1, false, true);
            }
            match block(ts, next) {
                Parse::Done { value: then_block, next } => if i < next <= ts.len() {
                    otherwise(ts, next, condition, then_block)
                } else {
                    arbitrary()
                },
                Parse::Failed { kind, at } => Parse::Failed { kind, at },
            }
        },
        Parse::Failed { kind, at } => Parse::Failed { kind, at },
    }
}

/// What follows the block of an `if` that ends before `i`: nothing, or,
/// after end-of-line tokens, `else` with another `if` or with a block.
/// Where no `else` follows, the end-of-line tokens are not taken.
#[verifier::opaque]
pub open spec fn otherwise(
    ts: Seq<Lexeme>,
    i: int,
    condition: Expr,
    then_block: Block,
) -> Parse<Stmt>
    decreases ts.len() - i, 0int,
{
    proof {
        lemma_skip_eols(ts, i);
    }
    let e = skip_eols(ts, i);
    if lexeme_at(ts, e) != Lexeme::Keyword(Keyword::Else) {
        Parse::Done { value: Stmt::If(condition, then_block, None), next: i }
    } else if lexeme_at(ts, e + 1) == Lexeme::Keyword(Keyword::If) {
        match if_statement(ts, e + 1) {
            Parse::Done { value, next } => Parse::Done {
                value: Stmt::If(condition, then_block, Some(Box::new(value))),
                next,
            },
            Parse::Failed { kind, at } => Parse::Failed { kind, at },
        }
    } else {
        match block(ts, e + 1) {
            Parse::Done { value, next } => Parse::Done {
                value: Stmt::If(condition, then_block, Some(Box::new(Stmt::Block(value)))),
                next,
            },
            Parse::Failed { kind, at } => Parse::Failed { kind, at },
        }
    }
}

/// `for name in range { .. }` at the `for` at `i`.
#[verifier::opaque]
pub open spec fn for_statement(ts: Seq<Lexeme>, i: int) -> Parse<Stmt>
    decreases ts.len() - i, 1int,
{
    match lexeme_at(ts, i + 1) {
        Lexeme::Ident(name) => if lexeme_at(ts, i + 2) != Lexeme::Keyword(Keyword::In) {
            Parse::Failed { kind: ParseErrorKind::ExpectedIn, at: i + 2 }
        } else {
            match range_expression(ts, i + 3) {
                Parse::Done { value: range, next } => {
                    proof {
                        lemma_range_expression_advances(ts, i + 3);
                    }
                    match block(ts, next) {
                        Parse::Done { value: body, next } => Parse::Done {
                            value: Stmt::ForLoop(loop_variable(name), range, body),
                            next,
                        },
                        Parse::Failed { kind, at } => Parse::Failed { kind, at },
                    }
                },
                Parse::Failed { kind, at } => Parse::Failed { kind, at },
            }
        },
        _ => Parse::Failed { kind: ParseErrorKind::ExpectedIdentifier, at: i + 1 },
    }
}

/// `while condition { .. }` at the `while` at `i`. No assignment may stand
/// in the condition.
#[verifier::opaque]
pub open spec fn while_statement(ts: Seq<Lexeme>, i: int) -> Parse<Stmt>
    decreases ts.len() - i, 1int,
{
    match expression(ts, i + 1, false, true) {
        Parse::Done { value: condition, next } => {
            proof {
                lemma_expression_advances(ts, i + 1, false, true);
            }
            match block(ts, next) {
                Parse::Done { value: body, next } => Parse::Done {
                    value: Stmt::WhileLoop(condition, body),
                    next,
                },
                Parse::Failed { kind, at } => Parse::Failed { kind, at },
            }
        },
        Parse::Failed { kind, at } => Parse::Failed { kind, at },
    }
}

/// A block from `i` on: end-of-line tokens, `{`, statements, `}`.
#[verifier::opaque]
pub open spec fn block(ts: Seq<Lexeme>, i: int) -> Parse<Block>
    decreases ts.len() - i, 0int,
{
    proof {
        lemma_skip_eols(ts, i);
    }
    let j = skip_eols(ts, i);
    if lexeme_at(ts, j) == Lexeme::Punct(Punct::LCurly) {
        block_items(ts, j + 1, Seq::empty())
    } else {
        Parse::Failed { kind: ParseErrorKind::ExpectedLCurly, at: j }
    }
}

/// The statements of a block from `i` on, after the statements `seen`, up
/// to the closing `}`. End-of-line tokens between statements mean nothing.
/// The input may not end inside the block.
#[verifier::opaque]
pub open spec fn block_items(ts: Seq<Lexeme>, i: int, seen: Seq<Stmt>) -> Parse<Block>
    decreases ts.len() - i, 3int,
{
    match lexeme_at(ts, i) {
        Lexeme::Punct(Punct::RCurly) => Parse::Done { value: Block { stmts: seen }, next: i + 1 },
        Lexeme::Eol => block_items(ts, i + 1, seen),
        Lexeme::Eof => Parse::Failed { kind: ParseErrorKind::ExpectedRCurly, at: i },
        _ => match statement(ts, i) {
            Parse::Done { value, next } => if i < next <= ts.len() {
                block_items(ts, next, seen.push(value))
            } else {
                arbitrary()
            },
            Parse::Failed { kind, at } => Parse::Failed { kind, at },
        },
    }
}

/// A `let` takes at least one token, and none past the end.
pub proof fn lemma_let_statement_advances(ts: Seq<Lexeme>, i: int)
    requires
        lexeme_at(ts, i) == Lexeme::Keyword(Keyword::Let),
    ensures
        let_statement(ts, i) matches Parse::Done { next, .. } ==> i < next <= ts.len(),
{
    lemma_expression_advances(ts, i + 3, false, true);
    lemma_parsed_type_advances(ts, i + 3);
    match parsed_type(ts, i + 3) {
        Parse::Done { next, .. } => {
            lemma_expression_advances(ts, next + 1, false, true);
        },
        Parse::Failed { .. } => {},
    }
}

/// A statement takes at least one token, and none past the end.
pub proof fn lemma_statement_advances(ts: Seq<Lexeme>, i: int)
    ensures
        statement(ts, i) matches Parse::Done { next, .. } ==> i < next <= ts.len(),
    decreases ts.len() - i, 2int,
{
    reveal(statement);
    reveal(if_statement);
    reveal(for_statement);
    reveal(while_statement);
    reveal(block);
    match lexeme_at(ts, i) {
        Lexeme::Keyword(Keyword::Let) => {
            lemma_let_statement_advances(ts, i);
        },
        Lexeme::Keyword(Keyword::If) => {
            lemma_if_statement_advances(ts, i);
        },
        Lexeme::Keyword(Keyword::For) => {
            lemma_range_expression_advances(ts, i + 3);
            match range_expression(ts, i + 3) {
                Parse::Done { next, .. } => {
                    lemma_block_advances(ts, next);
                },
                Parse::Failed { .. } => {},
            }
        },
        Lexeme::Keyword(Keyword::While) => {
            lemma_expression_advances(ts, i + 1, false, true);
            match expression(ts, i + 1, false, true) {
                Parse::Done { next, .. } => {
                    lemma_block_advances(ts, next);
                },
                Parse::Failed { .. } => {},
            }
        },
        Lexeme::Keyword(Keyword::Loop) => {
            lemma_block_advances(ts, i + 1);
        },
        Lexeme::Keyword(Keyword::Continue) => {},
        Lexeme::Keyword(Keyword::Break) => {},
        Lexeme::Keyword(Keyword::Return) => {
            lemma_expression_advances(ts, i + 1, false, true);
        },
        _ => {
            lemma_expression_advances(ts, i, true, true);
        },
    }
}

/// An `if` takes at least one token, and none past the end.
pub proof fn lemma_if_statement_advances(ts: Seq<Lexeme>, i: int)
    ensures
        if_statement(ts, i) matches Parse::Done { next, .. } ==> i < next <= ts.len(),
    decreases ts.len() - i, 1int,
{
    reveal(if_statement);
    reveal(block);
    reveal(otherwise);
    lemma_expression_advances(ts, i + 1, false, true);
    match expression(ts, i + 1, false, true) {
        Parse::Done { value: condition, next } => {
            lemma_block_advances(ts, next);
            match block(ts, next) {
                Parse::Done { value: then_block, next } => {
                    lemma_otherwise_advances(ts, next, condition, then_block);
                },
                Parse::Failed { .. } => {},
            }
        },
        Parse::Failed { .. } => {},
    }
}

/// What [`otherwise`] reads takes no token before `i`, and none past the end.
pub proof fn lemma_otherwise_advances(
    ts: Seq<Lexeme>,
    i: int,
    condition: Expr,
    then_block: Block,
)
    requires
        i <= ts.len(),
    ensures
        otherwise(ts, i, condition, then_block) matches Parse::Done { next, .. } ==> i <= next
            <= ts.len(),
    decreases ts.len() - i, 0int,
{
    reveal(otherwise);
    reveal(if_statement);
    reveal(block);
    lemma_skip_eols(ts, i);
    let e = skip_eols(ts, i);
    if lexeme_at(ts, e) != Lexeme::Keyword(Keyword::Else) {
    } else if lexeme_at(ts, e + 1) == Lexeme::Keyword(Keyword::If) {
        lemma_if_statement_advances(ts, e + 1);
    } else {
        lemma_block_advances(ts, e + 1);
    }
}

/// A block takes at least one token, and none past the end.
pub proof fn lemma_block_advances(ts: Seq<Lexeme>, i: int)
    ensures
        block(ts, i) matches Parse::Done { next, .. } ==> i < next <= ts.len(),
    decreases ts.len() - i, 0int,
{
    reveal(block);
    reveal(block_items);
    lemma_skip_eols(ts, i);
    let j = skip_eols(ts, i);
    if lexeme_at(ts, j) == Lexeme::Punct(Punct::LCurly) {
        lemma_block_items_advance(ts, j + 1, Seq::empty());
    }
}

/// What [`block_items`] reads takes at least one token, and none past the end.
pub proof fn lemma_block_items_advance(ts: Seq<Lexeme>, i: int, seen: Seq<Stmt>)
    ensures
        block_items(ts, i, seen) matches Parse::Done { next, .. } ==> i < next <= ts.len(),
    decreases ts.len() - i, 3int,
{
    reveal(block_items);
    reveal(statement);
    match lexeme_at(ts, i) {
        Lexeme::Punct(Punct::RCurly) => {},
        Lexeme::Eol => {
            lemma_block_items_advance(ts, i + 1, seen);
        },
        Lexeme::Eof => {},
        _ => {
            lemma_statement_advances(ts, i);
            match statement(ts, i) {
                Parse::Done { value, next } => {
                    lemma_block_items_advance(ts, next, seen.push(value));
                },
                Parse::Failed { .. } => {},
            }
        },
    }
}

} // verus!
