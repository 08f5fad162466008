//! A finished tree holds no bare operator.
//!
//! The expression type has a variant for an operator by itself, which the
//! expression parser hands out where it reads one operator. No tree that the
//! grammar yields holds it: not an expression, a statement, a block, a
//! declaration or a module.

use vstd::prelude::*;
use crate::ast::BinaryOperator;
use crate::grammar::declarations::{
    declaration,
    member,
    members,
    module,
    module_items,
    parameter,
    parameter_list,
    parameters,
    procedure,
    return_type,
    structure,
    with_declaration,
    empty_module,
    lemma_member_advances,
    lemma_parameter_advances,
    lemma_declaration_advances,
};
use crate::grammar::expressions::{
    argument,
    argument_list,
    arguments,
    binary_operator,
    expression,
    expression_tail,
    lemma_argument_advances,
    lemma_operand_advances,
    operand,
    operand_postfix,
    operand_prefix,
    prefix_operator,
    proc_call,
    range_expression,
};
use crate::grammar::statements::{
    block,
    block_items,
    for_statement,
    if_statement,
    lemma_block_advances,
    lemma_statement_advances,
    let_statement,
    otherwise,
    statement,
    variable_value,
    while_statement,
};
use crate::grammar::expressions::{lemma_expression_advances, lemma_range_expression_advances};
use crate::grammar::{lemma_skip_eols, lexeme_at, parsed_type, pointer_type, skip_eols, type_path, Parse};
use crate::model::{
    Block,
    Declaration,
    Expr,
    MatchBody,
    MatchCase,
    Module,
    ProcCall,
    ProcDecl,
    Stmt,
    StructDecl,
    Type,
    UnaryOp,
    VarDecl,
};
use crate::precedence::{
    lemma_split_point,
    split_point,
    tree,
};
use crate::token::{Keyword, Lexeme, Punct};

verus! {

/// Whether no bare operator stands anywhere in the type.
pub open spec fn finished_type(t: Type) -> bool
    decreases t,
{
    match t {
        Type::Name(_, _) => true,
        Type::Array(element, size) => finished_type(*element) && finished_expr(*size),
    }
}

/// Whether no bare operator stands anywhere in the unary operator.
pub open spec fn finished_unary(op: UnaryOp) -> bool
    decreases op,
{
    match op {
        UnaryOp::TypeCast(target) => finished_type(target),
        _ => true,
    }
}

/// Whether no bare operator stands anywhere in the declaration of a variable.
pub open spec fn finished_var_decl(d: VarDecl) -> bool
    decreases d,
{
    finished_type(d.parsed_type) && finished_expr(d.default_value)
}

/// Whether no bare operator stands anywhere in the declarations.
pub open spec fn finished_var_decls(ds: Seq<VarDecl>) -> bool
    decreases ds,
{
    forall|i: int| 0 <= i < ds.len() ==> finished_var_decl(#[trigger] ds[i])
}

/// Whether no bare operator stands anywhere in the body of a case.
pub open spec fn finished_match_body(b: MatchBody) -> bool
    decreases b,
{
    match b {
        MatchBody::Expr(value) => finished_expr(value),
        MatchBody::Block(block) => finished_block(block),
    }
}

/// Whether no bare operator stands anywhere in the case.
pub open spec fn finished_match_case(c: MatchCase) -> bool
    decreases c,
{
    match c {
        MatchCase::Expr(pattern, body) => finished_expr(pattern) && finished_match_body(body),
        MatchCase::EnumVariant(_, body) => finished_match_body(body),
        MatchCase::Fallback(body) => finished_match_body(body),
    }
}

/// Whether no bare operator stands anywhere in the expression.
pub open spec fn finished_expr(e: Expr) -> bool
    decreases e,
{
    match e {
        Expr::Operator(_) => false,
        Expr::Range(_, start, end, _) => finished_expr(*start) && finished_expr(*end),
        Expr::Match(scrutinee, cases) => finished_expr(*scrutinee) && forall|i: int|
            0 <= i < cases.len() ==> finished_match_case(#[trigger] cases[i]),
        Expr::UnaryOperation(operand, op) => finished_expr(*operand) && finished_unary(op),
        Expr::BinaryOperation(lhs, _, rhs) => finished_expr(*lhs) && finished_expr(*rhs),
        Expr::ProcCall(call) => finished_var_decls(call.passed_parameters),
        _ => true,
    }
}

/// Whether no bare operator stands anywhere in the statement.
pub open spec fn finished_stmt(s: Stmt) -> bool
    decreases s,
{
    match s {
        Stmt::Expr(value) => finished_expr(value),
        Stmt::VarDecl(declaration) => finished_var_decl(declaration),
        Stmt::VarAssign(_, _, value) => finished_expr(value),
        Stmt::If(condition, then_block, otherwise) => finished_expr(condition) && finished_block(
            then_block,
        ) && match otherwise {
            Some(branch) => finished_stmt(*branch),
            None => true,
        },
        Stmt::Block(block) => finished_block(block),
        Stmt::ForLoop(variable, range, body) => finished_var_decl(variable) && finished_expr(range)
            && finished_block(body),
        Stmt::WhileLoop(condition, body) => finished_expr(condition) && finished_block(body),
        Stmt::InfiniteLoop(body) => finished_block(body),
        Stmt::Continue => true,
        Stmt::Break => true,
        Stmt::Return(value) => finished_expr(value),
    }
}

/// Whether no bare operator stands anywhere in the statements.
pub open spec fn finished_stmts(stmts: Seq<Stmt>) -> bool
    decreases stmts,
{
    forall|i: int| 0 <= i < stmts.len() ==> finished_stmt(#[trigger] stmts[i])
}

/// Whether no bare operator stands anywhere in the block.
pub open spec fn finished_block(b: Block) -> bool
    decreases b,
{
    finished_stmts(b.stmts)
}

/// Whether no bare operator stands anywhere in the procedure.
pub open spec fn finished_procedure(p: ProcDecl) -> bool {
    finished_var_decls(p.parameters) && finished_type(p.parsed_return_type) && finished_block(
        p.body,
    )
}

/// Whether no bare operator stands anywhere in the struct.
pub open spec fn finished_struct(s: StructDecl) -> bool {
    finished_var_decls(s.data_members)
}

/// Whether no bare operator stands anywhere in the declaration.
pub open spec fn finished_declaration(d: Declaration) -> bool {
    match d {
        Declaration::Procedure(procedure) => finished_procedure(procedure),
        Declaration::Struct(structure) => finished_struct(structure),
    }
}

/// Whether no bare operator stands anywhere in the procedures and structs
/// of the module.
pub open spec fn finished_module(m: Module) -> bool {
    &&& forall|i: int| 0 <= i < m.procs.len() ==> finished_procedure(#[trigger] m.procs[i])
    &&& forall|i: int| 0 <= i < m.structs.len() ==> finished_struct(#[trigger] m.structs[i])
}

/// The tree of finished operands is finished.
pub proof fn lemma_tree_is_finished(
    operands: Seq<Expr>,
    ops: Seq<BinaryOperator>,
    lo: int,
    hi: int,
)
    requires
        0 <= lo <= hi < operands.len(),
        forall|i: int| 0 <= i < operands.len() ==> finished_expr(#[trigger] operands[i]),
    ensures
        finished_expr(tree(operands, ops, lo, hi)),
    decreases hi - lo,
{
    if hi > lo {
        lemma_split_point(ops, lo, hi);
        let k = split_point(ops, lo, hi);
        lemma_tree_is_finished(operands, ops, lo, k);
        lemma_tree_is_finished(operands, ops, k + 1, hi);
    }
}

/// A written path of names is a named type: it holds no expression.
pub proof fn lemma_type_path_is_finished(ts: Seq<Lexeme>, i: int, path: Seq<Seq<char>>)
    ensures
        type_path(ts, i, path) matches Parse::Done { value, .. } ==> value is Name,
    decreases ts.len() - i,
{
    match lexeme_at(ts, i) {
        Lexeme::Ident(name) => {
            if lexeme_at(ts, i + 1) == Lexeme::Punct(Punct::DoubleColon) && lexeme_at(ts, i + 2)
                is Ident {
                lemma_type_path_is_finished(ts, i + 2, path.push(name));
            }
        },
        _ => {},
    }
}

/// A written type with pointer markers is a named type.
pub proof fn lemma_pointer_type_is_finished(ts: Seq<Lexeme>, i: int, path: Seq<Seq<char>>)
    ensures
        pointer_type(ts, i, path) matches Parse::Done { value, .. } ==> value is Name,
    decreases ts.len() - i,
{
    if lexeme_at(ts, i) == Lexeme::Punct(Punct::Star) {
        lemma_pointer_type_is_finished(ts, i + 1, path.push("*"@));
    } else {
        lemma_type_path_is_finished(ts, i, path);
    }
}

/// What [`parsed_type`] reads holds no bare operator.
pub proof fn lemma_parsed_type_is_finished(ts: Seq<Lexeme>, i: int)
    ensures
        parsed_type(ts, i) matches Parse::Done { value, .. } ==> finished_type(value),
{
    lemma_pointer_type_is_finished(ts, i, Seq::empty());
}

/// What [`operand_postfix`] reads holds no bare operator.
pub proof fn lemma_operand_postfix_is_finished(ts: Seq<Lexeme>, i: int, base: Expr)
    requires
        finished_expr(base),
    ensures
        operand_postfix(ts, i, base) matches Parse::Done { value, .. } ==> finished_expr(value),
{
    lemma_parsed_type_is_finished(ts, i + 1);
    match operand_postfix(ts, i, base) {
        Parse::Done { value, .. } => {
            match value {
                Expr::UnaryOperation(operand, op) => {
                    if lexeme_at(ts, i) == Lexeme::Keyword(Keyword::As) {
                        assert(finished_unary(op));
                    } else if lexeme_at(ts, i) == Lexeme::Punct(Punct::PlusPlus) {
                        assert(finished_unary(op));
                    } else if lexeme_at(ts, i) == Lexeme::Punct(Punct::MinusMinus) {
                        assert(finished_unary(op));
                    }
                },
                _ => {},
            }
        },
        Parse::Failed { .. } => {},
    }
}

/// An operand holds no bare operator.
pub proof fn lemma_operand_is_finished(ts: Seq<Lexeme>, i: int)
    ensures
        operand(ts, i) matches Parse::Done { value, .. } ==> finished_expr(value),
    decreases ts.len() - i, 2int,
{
    reveal(operand);
    reveal(operand_prefix);
    lemma_skip_eols(ts, i);
    let j = skip_eols(ts, i);
    lemma_operand_prefix_is_finished(ts, j);
    match operand_prefix(ts, j) {
        Parse::Done { value, next } => {
            lemma_operand_postfix_is_finished(ts, next, value);
        },
        Parse::Failed { .. } => {},
    }
}

/// What [`operand_prefix`] reads holds no bare operator.
pub proof fn lemma_operand_prefix_is_finished(ts: Seq<Lexeme>, i: int)
    ensures
        operand_prefix(ts, i) matches Parse::Done { value, .. } ==> finished_expr(value),
    decreases ts.len() - i, 1int,
{
    reveal(operand_prefix);
    reveal(operand);
    reveal(proc_call);
    match prefix_operator(lexeme_at(ts, i)) {
        Some(op) => {
            lemma_operand_is_finished(ts, i + 1);
            assert(finished_unary(op));
        },
        None => {
            if lexeme_at(ts, i) is Ident && lexeme_at(ts, i + 1) == Lexeme::Punct(Punct::LParen) {
                lemma_proc_call_is_finished(ts, i);
            }
        },
    }
}

/// What [`proc_call`] reads holds no bare operator.
pub proof fn lemma_proc_call_is_finished(ts: Seq<Lexeme>, i: int)
    ensures
        proc_call(ts, i) matches Parse::Done { value, .. } ==> finished_var_decls(
            value.passed_parameters,
        ),
    decreases ts.len() - i, 0int,
{
    reveal(proc_call);
    reveal(argument_list);
    if lexeme_at(ts, i) is Ident {
        lemma_argument_list_is_finished(ts, i + 1);
    }
}

/// What [`argument_list`] reads holds no bare operator.
pub proof fn lemma_argument_list_is_finished(ts: Seq<Lexeme>, i: int)
    ensures
        argument_list(ts, i) matches Parse::Done { value, .. } ==> finished_var_decls(value),
    decreases ts.len() - i, 0int,
{
    reveal(argument_list);
    reveal(arguments);
    if lexeme_at(ts, i) == Lexeme::Punct(Punct::LParen) {
        lemma_arguments_are_finished(ts, i + 1, Seq::empty());
    }
}

/// What [`argument`] reads holds no bare operator.
pub proof fn lemma_argument_is_finished(ts: Seq<Lexeme>, i: int)
    ensures
        argument(ts, i) matches Parse::Done { value, .. } ==> finished_var_decl(value),
    decreases ts.len() - i, 0int,
{
    reveal(argument);
    reveal(expression);
    if lexeme_at(ts, i) is Ident && lexeme_at(ts, i + 1) == Lexeme::Punct(Punct::Colon) {
        if lexeme_at(ts, i + 2) == Lexeme::Punct(Punct::Comma) || lexeme_at(ts, i + 2)
            == Lexeme::Punct(Punct::RParen) {
        } else {
            lemma_expression_is_finished(ts, i + 2, false, true);
        }
    }
}

/// What [`arguments`] reads holds no bare operator.
pub proof fn lemma_arguments_are_finished(ts: Seq<Lexeme>, i: int, seen: Seq<VarDecl>)
    requires
        finished_var_decls(seen),
    ensures
        arguments(ts, i, seen) matches Parse::Done { value, .. } ==> finished_var_decls(value),
    decreases ts.len() - i, 1int,
{
    reveal(arguments);
    reveal(argument);
    if lexeme_at(ts, i) != Lexeme::Punct(Punct::RParen) {
        lemma_argument_is_finished(ts, i);
        lemma_argument_advances(ts, i);
        match argument(ts, i) {
            Parse::Done { value, next } => {
                if lexeme_at(ts, next) == Lexeme::Punct(Punct::Comma) {
                    lemma_arguments_are_finished(ts, next + 1, seen.push(value));
                }
            },
            Parse::Failed { .. } => {},
        }
    }
}

/// An expression holds no bare operator.
pub proof fn lemma_expression_is_finished(
    ts: Seq<Lexeme>,
    i: int,
    can_assign: bool,
    allow_newlines: bool,
)
    ensures
        expression(ts, i, can_assign, allow_newlines) matches Parse::Done { value, .. }
            ==> finished_expr(value),
    decreases ts.len() - i, 3int,
{
    reveal(expression);
    reveal(operand);
    reveal(expression_tail);
    lemma_operand_is_finished(ts, i);
    lemma_operand_advances(ts, i);
    match operand(ts, i) {
        Parse::Done { value, next } => {
            lemma_expression_tail_is_finished(
                ts,
                next,
                can_assign,
                allow_newlines,
                seq![value],
                Seq::empty(),
            );
        },
        Parse::Failed { .. } => {},
    }
}

/// What [`expression_tail`] reads holds no bare operator.
pub proof fn lemma_expression_tail_is_finished(
    ts: Seq<Lexeme>,
    i: int,
    can_assign: bool,
    allow_newlines: bool,
    operands: Seq<Expr>,
    ops: Seq<BinaryOperator>,
)
    requires
        i <= ts.len(),
        operands.len() == ops.len() + 1,
        forall|k: int| 0 <= k < operands.len() ==> finished_expr(#[trigger] operands[k]),
    ensures
        expression_tail(ts, i, can_assign, allow_newlines, operands, ops) matches Parse::Done {
            value,
            ..
        } ==> finished_expr(value),
    decreases ts.len() - i, 3int,
{
    reveal(expression_tail);
    reveal(operand);
    lemma_tree_is_finished(operands, ops, 0, ops.len() as int);
    lemma_skip_eols(ts, i);
    let j = skip_eols(ts, i);
    match binary_operator(lexeme_at(ts, j)) {
        None => {},
        Some(op) => {
            lemma_operand_is_finished(ts, j + 1);
            lemma_operand_advances(ts, j + 1);
            match operand(ts, j + 1) {
                Parse::Done { value, next } => {
                    lemma_expression_tail_is_finished(
                        ts,
                        next,
                        can_assign,
                        allow_newlines,
                        operands.push(value),
                        ops.push(op),
                    );
                },
                Parse::Failed { .. } => {},
            }
        },
    }
}

/// A range holds no bare operator.
pub proof fn lemma_range_expression_is_finished(ts: Seq<Lexeme>, i: int)
    ensures
        range_expression(ts, i) matches Parse::Done { value, .. } ==> finished_expr(value),
{
    let j = skip_eols(ts, i);
    lemma_expression_is_finished(ts, j + 1, false, true);
    match expression(ts, j + 1, false, true) {
        Parse::Done { value, next } => {
            lemma_expression_is_finished(ts, next + 1, false, true);
        },
        Parse::Failed { .. } => {},
    }
}

/// What [`variable_value`] reads holds no bare operator.
pub proof fn lemma_variable_value_is_finished(
    ts: Seq<Lexeme>,
    i: int,
    declared: Type,
    name: Seq<char>,
)
    requires
        finished_type(declared),
    ensures
        variable_value(ts, i, declared, name) matches Parse::Done { value, .. } ==> finished_stmt(
            value,
        ),
{
    lemma_expression_is_finished(ts, i, false, true);
    match expression(ts, i, false, true) {
        Parse::Done { value, .. } => {
            assert(finished_var_decl(
                VarDecl { parsed_type: declared, name, default_value: value },
            ));
        },
        Parse::Failed { .. } => {},
    }
}

/// What [`let_statement`] reads holds no bare operator.
pub proof fn lemma_let_statement_is_finished(ts: Seq<Lexeme>, i: int)
    ensures
        let_statement(ts, i) matches Parse::Done { value, .. } ==> finished_stmt(value),
{
    match lexeme_at(ts, i + 1) {
        Lexeme::Ident(name) => {
            lemma_variable_value_is_finished(ts, i + 3, crate::model::unwritten_type(), name);
            lemma_parsed_type_is_finished(ts, i + 3);
            match parsed_type(ts, i + 3) {
                Parse::Done { value, next } => {
                    lemma_variable_value_is_finished(ts, next + 1, value, name);
                },
                Parse::Failed { .. } => {},
            }
        },
        _ => {},
    }
}

/// A statement holds no bare operator.
pub proof fn lemma_statement_is_finished(ts: Seq<Lexeme>, i: int)
    ensures
        statement(ts, i) matches Parse::Done { value, .. } ==> finished_stmt(value),
    decreases ts.len() - i, 2int,
{
    reveal(statement);
    reveal(if_statement);
    reveal(for_statement);
    reveal(while_statement);
    reveal(block);
    match lexeme_at(ts, i) {
        Lexeme::Keyword(Keyword::Let) => {
            lemma_let_statement_is_finished(ts, i);
        },
        Lexeme::Keyword(Keyword::If) => {
            lemma_if_statement_is_finished(ts, i);
        },
        Lexeme::Keyword(Keyword::For) => {
            lemma_range_expression_is_finished(ts, i + 3);
            lemma_range_expression_advances(ts, i + 3);
            match range_expression(ts, i + 3) {
                Parse::Done { next, .. } => {
                    lemma_block_is_finished(ts, next);
                    match lexeme_at(ts, i + 1) {
                        Lexeme::Ident(name) => {
                            assert(finished_var_decl(crate::grammar::statements::loop_variable(name)));
                        },
                        _ => {},
                    }
                },
                Parse::Failed { .. } => {},
            }
        },
        Lexeme::Keyword(Keyword::While) => {
            lemma_expression_is_finished(ts, i + 1, false, true);
            lemma_expression_advances(ts, i + 1, false, true);
            match expression(ts, i + 1, false, true) {
                Parse::Done { next, .. } => {
                    lemma_block_is_finished(ts, next);
                },
                Parse::Failed { .. } => {},
            }
        },
        Lexeme::Keyword(Keyword::Loop) => {
            lemma_block_is_finished(ts, i + 1);
        },
        Lexeme::Keyword(Keyword::Continue) => {},
        Lexeme::Keyword(Keyword::Break) => {},
        Lexeme::Keyword(Keyword::Return) => {
            lemma_expression_is_finished(ts, i + 1, false, true);
        },
        _ => {
            lemma_expression_is_finished(ts, i, true, true);
        },
    }
}

/// What [`if_statement`] reads holds no bare operator.
pub proof fn lemma_if_statement_is_finished(ts: Seq<Lexeme>, i: int)
    ensures
        if_statement(ts, i) matches Parse::Done { value, .. } ==> finished_stmt(value),
    decreases ts.len() - i, 1int,
{
    reveal(if_statement);
    reveal(block);
    reveal(otherwise);
    lemma_expression_is_finished(ts, i + 1, false, true);
    lemma_expression_advances(ts, i + 1, false, true);
    match expression(ts, i + 1, false, true) {
        Parse::Done { value: condition, next } => {
            lemma_block_is_finished(ts, next);
            lemma_block_advances(ts, next);
            match block(ts, next) {
                Parse::Done { value: then_block, next } => {
                    lemma_otherwise_is_finished(ts, next, condition, then_block);
                },
                Parse::Failed { .. } => {},
            }
        },
        Parse::Failed { .. } => {},
    }
}

/// What [`otherwise`] reads holds no bare operator.
pub proof fn lemma_otherwise_is_finished(
    ts: Seq<Lexeme>,
    i: int,
    condition: Expr,
    then_block: Block,
)
    requires
        i <= ts.len(),
        finished_expr(condition),
        finished_block(then_block),
    ensures
        otherwise(ts, i, condition, then_block) matches Parse::Done { value, .. } ==> finished_stmt(
            value,
        ),
    decreases ts.len() - i, 0int,
{
    reveal(otherwise);
    reveal(if_statement);
    reveal(block);
    lemma_skip_eols(ts, i);
    let e = skip_eols(ts, i);
    if lexeme_at(ts, e) != Lexeme::Keyword(Keyword::Else) {
    } else if lexeme_at(ts, e + 1) == Lexeme::Keyword(Keyword::If) {
        lemma_if_statement_is_finished(ts, e + 1);
    } else {
        lemma_block_is_finished(ts, e + 1);
        match block(ts, e + 1) {
            Parse::Done { value, .. } => {
                assert(finished_stmt(Stmt::Block(value)));
            },
            Parse::Failed { .. } => {},
        }
    }
}

/// A block holds no bare operator.
pub proof fn lemma_block_is_finished(ts: Seq<Lexeme>, i: int)
    ensures
        block(ts, i) matches Parse::Done { value, .. } ==> finished_block(value),
    decreases ts.len() - i, 0int,
{
    reveal(block);
    reveal(block_items);
    lemma_skip_eols(ts, i);
    let j = skip_eols(ts, i);
    if lexeme_at(ts, j) == Lexeme::Punct(Punct::LCurly) {
        lemma_block_items_are_finished(ts, j + 1, Seq::empty());
    }
}

/// What [`block_items`] reads holds no bare operator.
pub proof fn lemma_block_items_are_finished(ts: Seq<Lexeme>, i: int, seen: Seq<Stmt>)
    requires
        finished_stmts(seen),
    ensures
        block_items(ts, i, seen) matches Parse::Done { value, .. } ==> finished_block(value),
    decreases ts.len() - i, 3int,
{
    reveal(block_items);
    reveal(statement);
    match lexeme_at(ts, i) {
        Lexeme::Punct(Punct::RCurly) => {},
        Lexeme::Eol => {
            lemma_block_items_are_finished(ts, i + 1, seen);
        },
        Lexeme::Eof => {},
        _ => {
            lemma_statement_is_finished(ts, i);
            lemma_statement_advances(ts, i);
            match statement(ts, i) {
                Parse::Done { value, next } => {
                    lemma_block_items_are_finished(ts, next, seen.push(value));
                },
                Parse::Failed { .. } => {},
            }
        },
    }
}

/// What [`parameter`] reads holds no bare operator.
pub proof fn lemma_parameter_is_finished(ts: Seq<Lexeme>, i: int)
    ensures
        parameter(ts, i) matches Parse::Done { value, .. } ==> finished_var_decl(value),
{
    lemma_parsed_type_is_finished(ts, i + 2);
}

/// What [`parameters`] reads holds no bare operator.
pub proof fn lemma_parameters_are_finished(ts: Seq<Lexeme>, i: int, seen: Seq<VarDecl>)
    requires
        finished_var_decls(seen),
    ensures
        parameters(ts, i, seen) matches Parse::Done { value, .. } ==> finished_var_decls(value),
    decreases ts.len() - i,
{
    reveal(parameters);
    if lexeme_at(ts, i) != Lexeme::Punct(Punct::RParen) {
        lemma_parameter_is_finished(ts, i);
        lemma_parameter_advances(ts, i);
        match parameter(ts, i) {
            Parse::Done { value, next } => {
                if lexeme_at(ts, next) == Lexeme::Punct(Punct::Comma) {
                    lemma_parameters_are_finished(ts, next + 1, seen.push(value));
                }
            },
            Parse::Failed { .. } => {},
        }
    }
}

/// What [`member`] reads holds no bare operator.
pub proof fn lemma_member_is_finished(ts: Seq<Lexeme>, i: int)
    ensures
        member(ts, i) matches Parse::Done { value, .. } ==> finished_var_decl(value),
{
    let c = skip_eols(ts, i + 1);
    lemma_parsed_type_is_finished(ts, skip_eols(ts, c + 1));
}

/// What [`members`] reads holds no bare operator.
pub proof fn lemma_members_are_finished(ts: Seq<Lexeme>, i: int, seen: Seq<VarDecl>)
    requires
        finished_var_decls(seen),
    ensures
        members(ts, i, seen) matches Parse::Done { value, .. } ==> finished_var_decls(value),
    decreases ts.len() - i,
{
    reveal(members);
    lemma_skip_eols(ts, i);
    let j = skip_eols(ts, i);
    if lexeme_at(ts, j) != Lexeme::Punct(Punct::RCurly) {
        lemma_member_is_finished(ts, j);
        lemma_member_advances(ts, j);
        match member(ts, j) {
            Parse::Done { value, next } => {
                lemma_skip_eols(ts, next);
                let e = skip_eols(ts, next);
                if lexeme_at(ts, e) == Lexeme::Punct(Punct::Comma) {
                    lemma_members_are_finished(ts, e + 1, seen.push(value));
                }
            },
            Parse::Failed { .. } => {},
        }
    }
}

/// A declaration holds no bare operator.
pub proof fn lemma_declaration_is_finished(ts: Seq<Lexeme>, i: int)
    ensures
        declaration(ts, i) matches Parse::Done { value, .. } ==> finished_declaration(value),
{
    lemma_members_are_finished(ts, i + 5, Seq::empty());
    lemma_parameters_are_finished(ts, i + 4, Seq::empty());
    match parameter_list(ts, i + 3) {
        Parse::Done { next, .. } => {
            let k = skip_eols(ts, next);
            lemma_parsed_type_is_finished(ts, k + 1);
            match return_type(ts, k) {
                Parse::Done { next, .. } => {
                    lemma_block_is_finished(ts, next);
                },
                Parse::Failed { .. } => {},
            }
        },
        Parse::Failed { .. } => {},
    }
}

/// What [`module_items`] reads holds no bare operator.
pub proof fn lemma_module_items_are_finished(ts: Seq<Lexeme>, i: int, seen: Module)
    requires
        finished_module(seen),
    ensures
        module_items(ts, i, seen) matches Parse::Done { value, .. } ==> finished_module(value),
    decreases ts.len() - i,
{
    reveal(module_items);
    match lexeme_at(ts, i) {
        Lexeme::Eol => {
            lemma_module_items_are_finished(ts, i + 1, seen);
        },
        Lexeme::Keyword(Keyword::Decl) => {
            lemma_declaration_is_finished(ts, i);
            lemma_declaration_advances(ts, i);
            match declaration(ts, i) {
                Parse::Done { value, next } => {
                    lemma_module_items_are_finished(ts, next, with_declaration(seen, value));
                },
                Parse::Failed { .. } => {},
            }
        },
        _ => {},
    }
}

/// A module that parses holds no bare operator: not in a procedure and not
/// in a struct.
pub proof fn lemma_module_is_finished(ts: Seq<Lexeme>, i: int)
    ensures
        module(ts, i) matches Parse::Done { value, .. } ==> finished_module(value),
{
    lemma_module_items_are_finished(ts, i, empty_module("main"@));
}

} // verus!
