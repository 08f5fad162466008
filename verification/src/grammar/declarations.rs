//! Declarations and modules.

use vstd::prelude::*;
use crate::error::{ParseErrorKind, Unsupported};
use crate::grammar::statements::{block, lemma_block_advances};
use crate::grammar::{
    lemma_parsed_type_advances,
    lemma_skip_eols,
    lexeme_at,
    parsed_type,
    skip_eols,
    Parse,
};
use crate::model::builtin_type;

use crate::ast::ComplexType;
use crate::model::{Declaration, Expr, Module, ProcDecl, StructDecl, Type, VarDecl};
use crate::token::{Keyword, Lexeme, PrimitiveType, Punct};

verus! {

/// One parameter of a procedure at `i`: `name: Type`.
pub open spec fn parameter(ts: Seq<Lexeme>, i: int) -> Parse<VarDecl> {
    match lexeme_at(ts, i) {
        Lexeme::Ident(name) => if lexeme_at(ts, i + 1) != Lexeme::Punct(Punct::Colon) {
            Parse::Failed { kind: ParseErrorKind::ExpectedColon, at: i + 1 }
        } else {
            match parsed_type(ts, i + 2) {
                Parse::Done { value, next } => Parse::Done {
                    value: VarDecl { parsed_type: value, name, default_value: Expr::Invalid },
                    next,
                },
                Parse::Failed { kind, at } => Parse::Failed { kind, at },
            }
        },
        _ => Parse::Failed { kind: ParseErrorKind::ExpectedParameter, at: i },
    }
}

/// What [`parameter`] reads takes at least one token, and none past the end.
pub proof fn lemma_parameter_advances(ts: Seq<Lexeme>, i: int)
    ensures
        parameter(ts, i) matches Parse::Done { next, .. } ==> i < next <= ts.len(),
{
    lemma_parsed_type_advances(ts, i + 2);
}

/// The parameters of a procedure from `i` on, after the opening parenthesis
/// and the parameters `seen`, up to the closing parenthesis. Commas separate
/// the parameters, and one may stand before the closing parenthesis.
#[verifier::opaque]
pub open spec fn parameters(ts: Seq<Lexeme>, i: int, seen: Seq<VarDecl>) -> Parse<Seq<VarDecl>>
    decreases ts.len() - i,
{
    if lexeme_at(ts, i) == Lexeme::Punct(Punct::RParen) {
        Parse::Done { value: seen, next: i + 1 }
    } else {
        match parameter(ts, i) {
            Parse::Done { value, next } => {
                proof {
                    lemma_parameter_advances(ts, i);
                }
                match lexeme_at(ts, next) {
                    Lexeme::Punct(Punct::Comma) => parameters(ts, next + 1, seen.push(value)),
                    Lexeme::Punct(Punct::RParen) => Parse::Done {
                        value: seen.push(value),
                        next: next + 1,
                    },
                    _ => Parse::Failed { kind: ParseErrorKind::ExpectedCommaOrRParen, at: next },
                }
            },
            Parse::Failed { kind, at } => Parse::Failed { kind, at },
        }
    }
}

/// The parameters of a procedure, from the opening parenthesis at `i` on.
pub open spec fn parameter_list(ts: Seq<Lexeme>, i: int) -> Parse<Seq<VarDecl>> {
    if lexeme_at(ts, i) == Lexeme::Punct(Punct::LParen) {
        parameters(ts, i + 1, Seq::empty())
    } else {
        Parse::Failed { kind: ParseErrorKind::ExpectedLParen, at: i }
    }
}

/// What [`parameters`] reads takes at least one token, and none past the end.
pub proof fn lemma_parameters_advance(ts: Seq<Lexeme>, i: int, seen: Seq<VarDecl>)
    ensures
        parameters(ts, i, seen) matches Parse::Done { next, .. } ==> i < next <= ts.len(),
    decreases ts.len() - i,
{
    reveal(parameters);
    if lexeme_at(ts, i) != Lexeme::Punct(Punct::RParen) {
        lemma_parameter_advances(ts, i);
        match parameter(ts, i) {
            Parse::Done { value, next } => {
                if lexeme_at(ts, next) == Lexeme::Punct(Punct::Comma) {
                    lemma_parameters_advance(ts, next + 1, seen.push(value));
                }
            },
            Parse::Failed { .. } => {},
        }
    }
}

/// One member of a struct at `i`: `name: Type`, where end-of-line tokens
/// may stand before and after the colon.
pub open spec fn member(ts: Seq<Lexeme>, i: int) -> Parse<VarDecl> {
    match lexeme_at(ts, i) {
        Lexeme::Ident(name) => {
            let c = skip_eols(ts, i + 1);
            if lexeme_at(ts, c) != Lexeme::Punct(Punct::Colon) {
                Parse::Failed { kind: ParseErrorKind::ExpectedColon, at: c }
            } else {
                match parsed_type(ts, skip_eols(ts, c + 1)) {
                    Parse::Done { value, next } => Parse::Done {
                        value: VarDecl { parsed_type: value, name, default_value: Expr::Invalid },
                        next,
                    },
                    Parse::Failed { kind, at } => Parse::Failed { kind, at },
                }
            }
        },
        _ => Parse::Failed { kind: ParseErrorKind::ExpectedMember, at: i },
    }
}

/// What [`member`] reads takes at least one token, and none past the end.
pub proof fn lemma_member_advances(ts: Seq<Lexeme>, i: int)
    ensures
        member(ts, i) matches Parse::Done { next, .. } ==> i < next <= ts.len(),
{
    lemma_skip_eols(ts, i + 1);
    let c = skip_eols(ts, i + 1);
    lemma_skip_eols(ts, c + 1);
    lemma_parsed_type_advances(ts, skip_eols(ts, c + 1));
}

/// The members of a struct from `i` on, after the opening `{` and the
/// members `seen`, up to the closing `}`. Commas separate the members, and
/// one may stand before the closing `}`. End-of-line tokens may stand
/// before and after every member.
#[verifier::opaque]
pub open spec fn members(ts: Seq<Lexeme>, i: int, seen: Seq<VarDecl>) -> Parse<Seq<VarDecl>>
    decreases ts.len() - i,
{
    proof {
        lemma_skip_eols(ts, i);
    }
    let j = skip_eols(ts, i);
    if lexeme_at(ts, j) == Lexeme::Punct(Punct::RCurly) {
        Parse::Done { value: seen, next: j + 1 }
    } else {
        match member(ts, j) {
            Parse::Done { value, next } => {
                proof {
                    lemma_member_advances(ts, j);
                    lemma_skip_eols(ts, next);
                }
                let e = skip_eols(ts, next);
                match lexeme_at(ts, e) {
                    Lexeme::Punct(Punct::Comma) => members(ts, e + 1, seen.push(value)),
                    Lexeme::Punct(Punct::RCurly) => Parse::Done {
                        value: seen.push(value),
                        next: e + 1,
                    },
                    _ => Parse::Failed { kind: ParseErrorKind::ExpectedCommaOrRCurly, at: e },
                }
            },
            Parse::Failed { kind, at } => Parse::Failed { kind, at },
        }
    }
}

/// What [`members`] reads takes at least one token, and none past the end.
pub proof fn lemma_members_advance(ts: Seq<Lexeme>, i: int, seen: Seq<VarDecl>)
    ensures
        members(ts, i, seen) matches Parse::Done { next, .. } ==> i < next <= ts.len(),
    decreases ts.len() - i,
{
    reveal(members);
    lemma_skip_eols(ts, i);
    let j = skip_eols(ts, i);
    if lexeme_at(ts, j) != Lexeme::Punct(Punct::RCurly) {
        lemma_member_advances(ts, j);
        match member(ts, j) {
            Parse::Done { value, next } => {
                lemma_skip_eols(ts, next);
                let e = skip_eols(ts, next);
                if lexeme_at(ts, e) == Lexeme::Punct(Punct::Comma) {
                    lemma_members_advance(ts, e + 1, seen.push(value));
                }
            },
            Parse::Failed { .. } => {},
        }
    }
}

/// The body of a struct, from the opening `{` at `i` on.
pub open spec fn member_list(ts: Seq<Lexeme>, i: int) -> Parse<Seq<VarDecl>> {
    if lexeme_at(ts, i) == Lexeme::Punct(Punct::LCurly) {
        members(ts, i + 1, Seq::empty())
    } else {
        Parse::Failed { kind: ParseErrorKind::ExpectedLCurly, at: i }
    }
}

/// The procedure `name` from the opening parenthesis at `i` on: the
/// parameters, then `-> Type` or nothing, which stands for the type
/// `nothing`, then the body. End-of-line tokens may stand after the
/// parameters.
pub open spec fn procedure(ts: Seq<Lexeme>, i: int, name: Seq<char>) -> Parse<ProcDecl> {
    match parameter_list(ts, i) {
        Parse::Done { value: parameters, next } => match return_type(ts, skip_eols(ts, next)) {
            Parse::Done { value: parsed_return_type, next } => match block(ts, next) {
                Parse::Done { value: body, next } => Parse::Done {
                    value: ProcDecl { name, parameters, parsed_return_type, body },
                    next,
                },
                Parse::Failed { kind, at } => Parse::Failed { kind, at },
            },
            Parse::Failed { kind, at } => Parse::Failed { kind, at },
        },
        Parse::Failed { kind, at } => Parse::Failed { kind, at },
    }
}

/// The type that a procedure returns, from `i` on: `-> Type`, or nothing
/// before the `{` of the body, which stands for the type `nothing`.
pub open spec fn return_type(ts: Seq<Lexeme>, i: int) -> Parse<Type> {
    match lexeme_at(ts, i) {
        Lexeme::Punct(Punct::ThinArrow) => parsed_type(ts, i + 1),
        Lexeme::Punct(Punct::LCurly) => Parse::Done {
            value: builtin_type(PrimitiveType::Nothing),
            next: i,
        },
        _ => Parse::Failed { kind: ParseErrorKind::ExpectedArrowOrBody, at: i },
    }
}

/// The struct `name` from the opening `{` at `i` on.
pub open spec fn structure(ts: Seq<Lexeme>, i: int, name: Seq<char>) -> Parse<StructDecl> {
    match member_list(ts, i) {
        Parse::Done { value, next } => Parse::Done {
            value: StructDecl { name, data_members: value },
            next,
        },
        Parse::Failed { kind, at } => Parse::Failed { kind, at },
    }
}

/// What the token after `decl name :` makes of the declaration: `(` a
/// procedure, `struct` a struct, `enum` an enum, and a type a constant.
pub open spec fn complex_type(lexeme: Lexeme) -> Option<ComplexType> {
    match lexeme {
        Lexeme::Punct(Punct::LParen) => Some(ComplexType::Procedure),
        Lexeme::Keyword(Keyword::Struct) => Some(ComplexType::Struct),
        Lexeme::Keyword(Keyword::Enum) => Some(ComplexType::Enum),
        Lexeme::Ident(_) | Lexeme::Builtin(_) => Some(ComplexType::Constant),
        _ => None,
    }
}

/// What follows `decl name :` at `i`: a procedure from its parameter list
/// on, or `struct` and its body. An enum and a constant are not read yet.
pub open spec fn declared(ts: Seq<Lexeme>, i: int, name: Seq<char>) -> Parse<Declaration> {
    match complex_type(lexeme_at(ts, i)) {
        Some(ComplexType::Procedure) => match procedure(ts, i, name) {
            Parse::Done { value, next } => Parse::Done {
                value: Declaration::Procedure(value),
                next,
            },
            Parse::Failed { kind, at } => Parse::Failed { kind, at },
        },
        Some(ComplexType::Struct) => match structure(ts, i + 1, name) {
            Parse::Done { value, next } => Parse::Done { value: Declaration::Struct(value), next },
            Parse::Failed { kind, at } => Parse::Failed { kind, at },
        },
        Some(ComplexType::Enum) => Parse::Failed {
            kind: ParseErrorKind::Unsupported(Unsupported::EnumDeclaration),
            at: i,
        },
        Some(ComplexType::Constant) => Parse::Failed {
            kind: ParseErrorKind::Unsupported(Unsupported::ConstantDeclaration),
            at: i,
        },
        None => Parse::Failed { kind: ParseErrorKind::ExpectedDeclarationKind, at: i },
    }
}

/// The declaration at `i`: `decl name :` and what it declares.
pub open spec fn declaration(ts: Seq<Lexeme>, i: int) -> Parse<Declaration> {
    if lexeme_at(ts, i) != Lexeme::Keyword(Keyword::Decl) {
        Parse::Failed { kind: ParseErrorKind::ExpectedDeclaration, at: i }
    } else {
        match lexeme_at(ts, i + 1) {
            Lexeme::Ident(name) => if lexeme_at(ts, i + 2) != Lexeme::Punct(Punct::Colon) {
                Parse::Failed { kind: ParseErrorKind::ExpectedColon, at: i + 2 }
            } else {
                declared(ts, i + 3, name)
            },
            _ => Parse::Failed { kind: ParseErrorKind::ExpectedIdentifier, at: i + 1 },
        }
    }
}

/// A declaration takes at least one token, and none past the end.
pub proof fn lemma_declaration_advances(ts: Seq<Lexeme>, i: int)
    ensures
        declaration(ts, i) matches Parse::Done { next, .. } ==> i < next <= ts.len(),
{
    lemma_members_advance(ts, i + 5, Seq::empty());
    lemma_parameters_advance(ts, i + 4, Seq::empty());
    match parameter_list(ts, i + 3) {
        Parse::Done { next, .. } => {
            lemma_skip_eols(ts, next);
            let k = skip_eols(ts, next);
            lemma_parsed_type_advances(ts, k + 1);
            lemma_block_advances(ts, k);
            match return_type(ts, k) {
                Parse::Done { next, .. } => {
                    lemma_block_advances(ts, next);
                },
                Parse::Failed { .. } => {},
            }
        },
        Parse::Failed { .. } => {},
    }
}

/// The module `module` with one more declaration at the end of its kind.
pub open spec fn with_declaration(module: Module, declaration: Declaration) -> Module {
    match declaration {
        Declaration::Procedure(procedure) => Module {
            procs: module.procs.push(procedure),
            ..module
        },
        Declaration::Struct(structure) => Module {
            structs: module.structs.push(structure),
            ..module
        },
    }
}

/// The top-level items from `i` on, after those of `module`, up to the end
/// of the input. Only `decl` starts an item; end-of-line tokens between
/// items mean nothing; `#` would start a directive, which is not read yet.
#[verifier::opaque]
pub open spec fn module_items(ts: Seq<Lexeme>, i: int, module: Module) -> Parse<Module>
    decreases ts.len() - i,
{
    match lexeme_at(ts, i) {
        Lexeme::Eof => Parse::Done { value: module, next: i },
        Lexeme::Eol => module_items(ts, i + 1, module),
        Lexeme::Punct(Punct::Hash) => Parse::Failed {
            kind: ParseErrorKind::Unsupported(Unsupported::Directive),
            at: i,
        },
        Lexeme::Keyword(Keyword::Decl) => match declaration(ts, i) {
            Parse::Done { value, next } => {
                proof {
                    lemma_declaration_advances(ts, i);
                }
                module_items(ts, next, with_declaration(module, value))
            },
            Parse::Failed { kind, at } => Parse::Failed { kind, at },
        },
        _ => Parse::Failed { kind: ParseErrorKind::ExpectedDeclaration, at: i },
    }
}

/// The module `name` without declarations.
pub open spec fn empty_module(name: Seq<char>) -> Module {
    Module {
        name,
        imports: Seq::empty(),
        structs: Seq::empty(),
        enums: Seq::empty(),
        procs: Seq::empty(),
    }
}

/// The module that the tokens from `i` on declare. Its name is `main`.
pub open spec fn module(ts: Seq<Lexeme>, i: int) -> Parse<Module> {
    module_items(ts, i, empty_module("main"@))
}

} // verus!
