//! Copies of syntax trees: a copy has the model of what it was copied from.

use vstd::prelude::*;
use crate::ast::{
    MatchExprBody,
    MatchExprCase,
    ParsedBlock,
    ParsedExpression,
    ParsedProcCall,
    ParsedStatement,
    ParsedType,
    ParsedVarDecl,
    UnaryOperator,
};
use crate::model::{lemma_block_model, lemma_proc_call_model, texts, views};

verus! {

/// A copy of a list of names.
pub fn copy_names(names: &Vec<String>) -> (r: Vec<String>)
    ensures
        texts(r@) == texts(names@),
{
    let mut copy: Vec<String> = Vec::new();
    let mut i: usize = 0;
    while i < names.len()
        invariant
            i <= names@.len(),
            copy@.len() == i,
            forall|k: int| 0 <= k < i ==> copy@[k]@ == names@[k]@,
        decreases names@.len() - i,
    {
        copy.push(names[i].clone());
        i += 1;
    }
    assert(texts(copy@) =~= texts(names@));
    copy
}

/// A copy of the type.
pub fn copy_type(t: &ParsedType) -> (r: ParsedType)
    ensures
        r@ == t@,
    decreases t,
{
    match t {
        ParsedType::Name(path, name) => ParsedType::Name(copy_names(path), name.clone()),
        ParsedType::Array(element, size) => ParsedType::Array(
            Box::new(copy_type(element)),
            copy_expression(size),
        ),
    }
}

/// A copy of the unary operator.
pub fn copy_unary(op: &UnaryOperator) -> (r: UnaryOperator)
    ensures
        r@ == op@,
    decreases op,
{
    match op {
        UnaryOperator::PreIncrement => UnaryOperator::PreIncrement,
        UnaryOperator::PostIncrement => UnaryOperator::PostIncrement,
        UnaryOperator::PreDecrement => UnaryOperator::PreDecrement,
        UnaryOperator::PostDecrement => UnaryOperator::PostDecrement,
        UnaryOperator::LogicalNot => UnaryOperator::LogicalNot,
        UnaryOperator::BitwiseNot => UnaryOperator::BitwiseNot,
        UnaryOperator::AddressOf => UnaryOperator::AddressOf,
        UnaryOperator::Dereference => UnaryOperator::Dereference,
        UnaryOperator::TypeCast(target) => UnaryOperator::TypeCast(Box::new(copy_type(target))),
    }
}

/// A copy of the declaration of a variable.
pub fn copy_var_decl(d: &ParsedVarDecl) -> (r: ParsedVarDecl)
    ensures
        r@ == d@,
    decreases d,
{
    ParsedVarDecl {
        parsed_type: copy_type(&d.parsed_type),
        name: d.name.clone(),
        default_value: copy_expression(&d.default_value),
    }
}

/// A copy of the call.
pub fn copy_call(c: &ParsedProcCall) -> (r: ParsedProcCall)
    ensures
        r@ == c@,
    decreases c,
{
    let mut arguments: Vec<ParsedVarDecl> = Vec::new();
    let mut i: usize = 0;
    while i < c.passed_parameters.len()
        invariant
            i <= c.passed_parameters@.len(),
            arguments@.len() == i,
            forall|k: int| 0 <= k < i ==> arguments@[k]@ == c.passed_parameters@[k]@,
            forall|k: int|
                0 <= k < c.passed_parameters@.len() ==> decreases_to!(c => #[trigger] c.passed_parameters@[k]),
        decreases c.passed_parameters@.len() - i,
    {
        arguments.push(copy_var_decl(&c.passed_parameters[i]));
        i += 1;
    }
    let copy = ParsedProcCall { name: c.name.clone(), passed_parameters: arguments };
    proof {
        lemma_proc_call_model(copy);
        lemma_proc_call_model(*c);
        assert(views(copy.passed_parameters@) =~= views(c.passed_parameters@));
    }
    copy
}

/// A copy of the body of a case.
pub fn copy_match_body(b: &MatchExprBody) -> (r: MatchExprBody)
    ensures
        r@ == b@,
    decreases b,
{
    match b {
        MatchExprBody::Expr(value) => MatchExprBody::Expr(copy_expression(value)),
        MatchExprBody::Block(block) => MatchExprBody::Block(copy_block(block)),
    }
}

/// A copy of the case.
pub fn copy_match_case(c: &MatchExprCase) -> (r: MatchExprCase)
    ensures
        r@ == c@,
    decreases c,
{
    match c {
        MatchExprCase::Expr(pattern, body) => MatchExprCase::Expr(
            copy_expression(pattern),
            copy_match_body(body),
        ),
        MatchExprCase::EnumVariant(tag, body) => MatchExprCase::EnumVariant(
            tag.clone(),
            copy_match_body(body),
        ),
        MatchExprCase::Fallback(body) => MatchExprCase::Fallback(copy_match_body(body)),
    }
}

/// A copy of the cases of the `match` expression `whole`.
fn copy_cases(whole: &ParsedExpression, cases: &Vec<MatchExprCase>) -> (r: Vec<MatchExprCase>)
    requires
        forall|k: int| 0 <= k < cases@.len() ==> decreases_to!(whole => #[trigger] cases@[k]),
    ensures
        views(r@) == views(cases@),
    decreases whole, 0int,
{
    let mut copy: Vec<MatchExprCase> = Vec::new();
    let mut i: usize = 0;
    while i < cases.len()
        invariant
            i <= cases@.len(),
            copy@.len() == i,
            forall|k: int| 0 <= k < i ==> copy@[k]@ == cases@[k]@,
            forall|k: int| 0 <= k < cases@.len() ==> decreases_to!(whole => #[trigger] cases@[k]),
        decreases cases@.len() - i,
    {
        copy.push(copy_match_case(&cases[i]));
        i += 1;
    }
    assert(views(copy@) =~= views(cases@));
    copy
}

/// A copy of the expression.
pub fn copy_expression(e: &ParsedExpression) -> (r: ParsedExpression)
    ensures
        r@ == e@,
    decreases e, 1int,
{
    match e {
        ParsedExpression::Bool(value) => ParsedExpression::Bool(*value),
        ParsedExpression::NumericConstant(constant) => ParsedExpression::NumericConstant(
            constant.duplicate(),
        ),
        ParsedExpression::StringLiteral(text) => ParsedExpression::StringLiteral(text.clone()),
        ParsedExpression::CharLiteral(value) => ParsedExpression::CharLiteral(*value),
        ParsedExpression::Var(name) => ParsedExpression::Var(name.clone()),
        ParsedExpression::NamespacedVar(path, name) => ParsedExpression::NamespacedVar(
            copy_names(path),
            name.clone(),
        ),
        ParsedExpression::Range(lower, start, end, upper) => ParsedExpression::Range(
            *lower,
            Box::new(copy_expression(start)),
            Box::new(copy_expression(end)),
            *upper,
        ),
        ParsedExpression::Match(scrutinee, cases) => {
            let copy = ParsedExpression::Match(
                Box::new(copy_expression(scrutinee)),
                copy_cases(e, cases),
            );
            assert(copy@->Match_1 =~= views(cases@));
            assert(e@->Match_1 =~= views(cases@));
            copy
        },
        ParsedExpression::Operator(op) => ParsedExpression::Operator(*op),
        ParsedExpression::UnaryOperation(operand, op) => ParsedExpression::UnaryOperation(
            Box::new(copy_expression(operand)),
            copy_unary(op),
        ),
        ParsedExpression::BinaryOperation(lhs, op, rhs) => ParsedExpression::BinaryOperation(
            Box::new(copy_expression(lhs)),
            *op,
            Box::new(copy_expression(rhs)),
        ),
        ParsedExpression::ProcCall(call) => ParsedExpression::ProcCall(copy_call(call)),
        ParsedExpression::Invalid => ParsedExpression::Invalid,
    }
}

/// A copy of the statement.
pub fn copy_statement(s: &ParsedStatement) -> (r: ParsedStatement)
    ensures
        r@ == s@,
    decreases s,
{
    match s {
        ParsedStatement::Expr(value) => ParsedStatement::Expr(copy_expression(value)),
        ParsedStatement::VarDecl(declaration) => ParsedStatement::VarDecl(
            copy_var_decl(declaration),
        ),
        ParsedStatement::VarAssign(name, op, value) => ParsedStatement::VarAssign(
            name.clone(),
            *op,
            copy_expression(value),
        ),
        ParsedStatement::If(condition, then_block, otherwise) => ParsedStatement::If(
            copy_expression(condition),
            copy_block(then_block),
            match otherwise {
                Some(branch) => Some(Box::new(copy_statement(branch))),
                None => None,
            },
        ),
        ParsedStatement::Block(block) => ParsedStatement::Block(copy_block(block)),
        ParsedStatement::ForLoop(variable, range, body) => ParsedStatement::ForLoop(
            copy_var_decl(variable),
            copy_expression(range),
            copy_block(body),
        ),
        ParsedStatement::WhileLoop(condition, body) => ParsedStatement::WhileLoop(
            copy_expression(condition),
            copy_block(body),
        ),
        ParsedStatement::InfiniteLoop(body) => ParsedStatement::InfiniteLoop(copy_block(body)),
        ParsedStatement::Continue => ParsedStatement::Continue,
        ParsedStatement::Break => ParsedStatement::Break,
        ParsedStatement::Return(value) => ParsedStatement::Return(copy_expression(value)),
    }
}

/// A copy of the block.
pub fn copy_block(b: &ParsedBlock) -> (r: ParsedBlock)
    ensures
        r@ == b@,
    decreases b,
{
    let mut stmts: Vec<ParsedStatement> = Vec::new();
    let mut i: usize = 0;
    while i < b.stmts.len()
        invariant
            i <= b.stmts@.len(),
            stmts@.len() == i,
            forall|k: int| 0 <= k < i ==> stmts@[k]@ == b.stmts@[k]@,
            forall|k: int| 0 <= k < b.stmts@.len() ==> decreases_to!(b => #[trigger] b.stmts@[k]),
        decreases b.stmts@.len() - i,
    {
        stmts.push(copy_statement(&b.stmts[i]));
        i += 1;
    }
    let copy = ParsedBlock { stmts };
    proof {
        lemma_block_model(copy);
        lemma_block_model(*b);
        assert(views(copy.stmts@) =~= views(b.stmts@));
    }
    copy
}

impl Clone for ParsedType {
    fn clone(&self) -> (r: Self)
        ensures
            r@ == self@,
    {
        copy_type(self)
    }
}

impl Clone for UnaryOperator {
    fn clone(&self) -> (r: Self)
        ensures
            r@ == self@,
    {
        copy_unary(self)
    }
}

impl Clone for ParsedVarDecl {
    fn clone(&self) -> (r: Self)
        ensures
            r@ == self@,
    {
        copy_var_decl(self)
    }
}

impl Clone for ParsedProcCall {
    fn clone(&self) -> (r: Self)
        ensures
            r@ == self@,
    {
        copy_call(self)
    }
}

impl Clone for MatchExprBody {
    fn clone(&self) -> (r: Self)
        ensures
            r@ == self@,
    {
        copy_match_body(self)
    }
}

impl Clone for MatchExprCase {
    fn clone(&self) -> (r: Self)
        ensures
            r@ == self@,
    {
        copy_match_case(self)
    }
}

impl Clone for ParsedExpression {
    fn clone(&self) -> (r: Self)
        ensures
            r@ == self@,
    {
        copy_expression(self)
    }
}

impl Clone for ParsedStatement {
    fn clone(&self) -> (r: Self)
        ensures
            r@ == self@,
    {
        copy_statement(self)
    }
}

impl Clone for ParsedBlock {
    fn clone(&self) -> (r: Self)
        ensures
            r@ == self@,
    {
        copy_block(self)
    }
}

} // verus!
