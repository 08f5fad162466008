//! Equality of syntax trees: two trees are equal where their models are.

use vstd::prelude::*;
use vstd::std_specs::cmp::PartialEqSpecImpl;
use crate::ast::{
    MatchExprBody,
    MatchExprCase,
    ParsedBlock,
    ParsedExpression,
    ParsedProcCall,
    ParsedStatement,
    ParsedType,
    ParsedVarDecl,
    UnaryOperator,
};
use crate::model::{lemma_block_model, lemma_proc_call_model, texts, views};
use crate::token::NumericConstant;

verus! {

/// Whether two lists of names hold the same texts.
pub fn same_names(a: &Vec<String>, b: &Vec<String>) -> (r: bool)
    ensures
        r == (texts(a@) == texts(b@)),
{
    if a.len() != b.len() {
        assert(texts(a@).len() != texts(b@).len());
        return false;
    }
    let mut i: usize = 0;
    while i < a.len()
        invariant
            i <= a@.len() == b@.len(),
            forall|k: int| 0 <= k < i ==> a@[k]@ == b@[k]@,
        decreases a@.len() - i,
    {
        if a[i] != b[i] {
            assert(texts(a@)[i as int] != texts(b@)[i as int]);
            return false;
        }
        i += 1;
    }
    assert(texts(a@) =~= texts(b@));
    true
}

/// Whether two numeric literals hold the same text in the same format.
pub fn same_numeric(a: &NumericConstant, b: &NumericConstant) -> (r: bool)
    ensures
        r == (a@ == b@),
{
    match (a, b) {
        (NumericConstant::Integer(text, format), NumericConstant::Integer(other, other_format)) => {
            *text == *other && *format == *other_format
        },
        (
            NumericConstant::FloatingPoint(text, format),
            NumericConstant::FloatingPoint(other, other_format),
        ) => *text == *other && *format == *other_format,
        _ => false,
    }
}

/// Whether the two types have equal models.
pub fn same_type(a: &ParsedType, b: &ParsedType) -> (r: bool)
    ensures
        r == (a@ == b@),
    decreases a,
{
    match (a, b) {
        (ParsedType::Name(path, name), ParsedType::Name(other_path, other_name)) => {
            same_names(path, other_path) && *name == *other_name
        },
        (ParsedType::Array(element, size), ParsedType::Array(other_element, other_size)) => {
            same_type(element, other_element) && same_expression(size, other_size)
        },
        _ => false,
    }
}

/// Whether the two unary operators have equal models.
pub fn same_unary(a: &UnaryOperator, b: &UnaryOperator) -> (r: bool)
    ensures
        r == (a@ == b@),
    decreases a,
{
    match (a, b) {
        (UnaryOperator::PreIncrement, UnaryOperator::PreIncrement) => true,
        (UnaryOperator::PostIncrement, UnaryOperator::PostIncrement) => true,
        (UnaryOperator::PreDecrement, UnaryOperator::PreDecrement) => true,
        (UnaryOperator::PostDecrement, UnaryOperator::PostDecrement) => true,
        (UnaryOperator::LogicalNot, UnaryOperator::LogicalNot) => true,
        (UnaryOperator::BitwiseNot, UnaryOperator::BitwiseNot) => true,
        (UnaryOperator::AddressOf, UnaryOperator::AddressOf) => true,
        (UnaryOperator::Dereference, UnaryOperator::Dereference) => true,
        (UnaryOperator::TypeCast(target), UnaryOperator::TypeCast(other)) => same_type(
            target,
            other,
        ),
        _ => false,
    }
}

/// Whether the two declaration of a variables have equal models.
pub fn same_var_decl(a: &ParsedVarDecl, b: &ParsedVarDecl) -> (r: bool)
    ensures
        r == (a@ == b@),
    decreases a,
{
    same_type(&a.parsed_type, &b.parsed_type) && a.name == b.name && same_expression(
        &a.default_value,
        &b.default_value,
    )
}

/// Whether the two calls have equal models.
pub fn same_call(a: &ParsedProcCall, b: &ParsedProcCall) -> (r: bool)
    ensures
        r == (a@ == b@),
    decreases a,
{
    proof {
        lemma_proc_call_model(*a);
        lemma_proc_call_model(*b);
    }
    if a.name != b.name {
        return false;
    }
    if a.passed_parameters.len() != b.passed_parameters.len() {
        assert(views(a.passed_parameters@).len() != views(b.passed_parameters@).len());
        return false;
    }
    let mut i: usize = 0;
    while i < a.passed_parameters.len()
        invariant
            i <= a.passed_parameters@.len() == b.passed_parameters@.len(),
            forall|k: int| 0 <= k < i ==> a.passed_parameters@[k]@ == b.passed_parameters@[k]@,
            forall|k: int|
                0 <= k < a.passed_parameters@.len() ==> decreases_to!(a => #[trigger] a.passed_parameters@[k]),
        decreases a.passed_parameters@.len() - i,
    {
        if !same_var_decl(&a.passed_parameters[i], &b.passed_parameters[i]) {
            proof {
                lemma_proc_call_model(*a);
                lemma_proc_call_model(*b);
            }
            assert(views(a.passed_parameters@)[i as int] != views(b.passed_parameters@)[i as int]);
            return false;
        }
        i += 1;
    }
    assert(views(a.passed_parameters@) =~= views(b.passed_parameters@));
    true
}

/// Whether the two body of a cases have equal models.
pub fn same_match_body(a: &MatchExprBody, b: &MatchExprBody) -> (r: bool)
    ensures
        r == (a@ == b@),
    decreases a,
{
    match (a, b) {
        (MatchExprBody::Expr(value), MatchExprBody::Expr(other)) => same_expression(value, other),
        (MatchExprBody::Block(block), MatchExprBody::Block(other)) => same_block(block, other),
        _ => false,
    }
}

/// Whether the two cases have equal models.
pub fn same_match_case(a: &MatchExprCase, b: &MatchExprCase) -> (r: bool)
    ensures
        r == (a@ == b@),
    decreases a,
{
    match (a, b) {
        (MatchExprCase::Expr(pattern, body), MatchExprCase::Expr(other_pattern, other_body)) => {
            same_expression(pattern, other_pattern) && same_match_body(body, other_body)
        },
        (MatchExprCase::EnumVariant(tag, body), MatchExprCase::EnumVariant(other_tag, other_body)) => {
            *tag == *other_tag && same_match_body(body, other_body)
        },
        (MatchExprCase::Fallback(body), MatchExprCase::Fallback(other_body)) => same_match_body(
            body,
            other_body,
        ),
        _ => false,
    }
}

/// Whether two lists of cases have equal models.
fn same_cases(
    whole: &ParsedExpression,
    a: &Vec<MatchExprCase>,
    b: &Vec<MatchExprCase>,
) -> (r: bool)
    requires
        forall|k: int| 0 <= k < a@.len() ==> decreases_to!(whole => #[trigger] a@[k]),
    ensures
        r == (views(a@) == views(b@)),
    decreases whole, 0int,
{
    if a.len() != b.len() {
        assert(views(a@).len() != views(b@).len());
        return false;
    }
    let mut i: usize = 0;
    while i < a.len()
        invariant
            i <= a@.len() == b@.len(),
            forall|k: int| 0 <= k < i ==> a@[k]@ == b@[k]@,
            forall|k: int| 0 <= k < a@.len() ==> decreases_to!(whole => #[trigger] a@[k]),
        decreases a@.len() - i,
    {
        if !same_match_case(&a[i], &b[i]) {
            assert(views(a@)[i as int] != views(b@)[i as int]);
            return false;
        }
        i += 1;
    }
    assert(views(a@) =~= views(b@));
    true
}

/// Whether the two expressions have equal models.
pub fn same_expression(a: &ParsedExpression, b: &ParsedExpression) -> (r: bool)
    ensures
        r == (a@ == b@),
    decreases a, 1int,
{
    match (a, b) {
        (ParsedExpression::Bool(value), ParsedExpression::Bool(other)) => *value == *other,
        (ParsedExpression::NumericConstant(value), ParsedExpression::NumericConstant(other)) => {
            same_numeric(value, other)
        },
        (ParsedExpression::StringLiteral(value), ParsedExpression::StringLiteral(other)) => *value
            == *other,
        (ParsedExpression::CharLiteral(value), ParsedExpression::CharLiteral(other)) => *value
            == *other,
        (ParsedExpression::Var(name), ParsedExpression::Var(other)) => *name == *other,
        (
            ParsedExpression::NamespacedVar(path, name),
            ParsedExpression::NamespacedVar(other_path, other_name),
        ) => same_names(path, other_path) && *name == *other_name,
        (
            ParsedExpression::Range(lower, start, end, upper),
            ParsedExpression::Range(other_lower, other_start, other_end, other_upper),
        ) => {
            *lower == *other_lower && same_expression(start, other_start) && same_expression(
                end,
                other_end,
            ) && *upper == *other_upper
        },
        (
            ParsedExpression::Match(scrutinee, cases),
            ParsedExpression::Match(other_scrutinee, other_cases),
        ) => {
            assert(a@->Match_1 =~= views(cases@));
            assert(b@->Match_1 =~= views(other_cases@));
            same_expression(scrutinee, other_scrutinee) && same_cases(a, cases, other_cases)
        },
        (ParsedExpression::Operator(op), ParsedExpression::Operator(other)) => *op == *other,
        (
            ParsedExpression::UnaryOperation(operand, op),
            ParsedExpression::UnaryOperation(other_operand, other_op),
        ) => same_expression(operand, other_operand) && same_unary(op, other_op),
        (
            ParsedExpression::BinaryOperation(lhs, op, rhs),
            ParsedExpression::BinaryOperation(other_lhs, other_op, other_rhs),
        ) => {
            same_expression(lhs, other_lhs) && *op == *other_op && same_expression(rhs, other_rhs)
        },
        (ParsedExpression::ProcCall(call), ParsedExpression::ProcCall(other)) => same_call(
            call,
            other,
        ),
        (ParsedExpression::Invalid, ParsedExpression::Invalid) => true,
        _ => false,
    }
}

/// Whether the two statements have equal models.
pub fn same_statement(a: &ParsedStatement, b: &ParsedStatement) -> (r: bool)
    ensures
        r == (a@ == b@),
    decreases a,
{
    match (a, b) {
        (ParsedStatement::Expr(value), ParsedStatement::Expr(other)) => same_expression(
            value,
            other,
        ),
        (ParsedStatement::VarDecl(declaration), ParsedStatement::VarDecl(other)) => same_var_decl(
            declaration,
            other,
        ),
        (
            ParsedStatement::VarAssign(name, op, value),
            ParsedStatement::VarAssign(other_name, other_op, other_value),
        ) => *name == *other_name && *op == *other_op && same_expression(value, other_value),
        (
            ParsedStatement::If(condition, then_block, otherwise),
            ParsedStatement::If(other_condition, other_then, other_otherwise),
        ) => {
            same_expression(condition, other_condition) && same_block(then_block, other_then)
                && match (otherwise, other_otherwise) {
                (Some(branch), Some(other_branch)) => same_statement(branch, other_branch),
                (None, None) => true,
                _ => false,
            }
        },
        (ParsedStatement::Block(block), ParsedStatement::Block(other)) => same_block(block, other),
        (
            ParsedStatement::ForLoop(variable, range, body),
            ParsedStatement::ForLoop(other_variable, other_range, other_body),
        ) => {
            same_var_decl(variable, other_variable) && same_expression(range, other_range)
                && same_block(body, other_body)
        },
        (
            ParsedStatement::WhileLoop(condition, body),
            ParsedStatement::WhileLoop(other_condition, other_body),
        ) => same_expression(condition, other_condition) && same_block(body, other_body),
        (ParsedStatement::InfiniteLoop(body), ParsedStatement::InfiniteLoop(other_body)) => {
            same_block(body, other_body)
        },
        (ParsedStatement::Continue, ParsedStatement::Continue) => true,
        (ParsedStatement::Break, ParsedStatement::Break) => true,
        (ParsedStatement::Return(value), ParsedStatement::Return(other)) => same_expression(
            value,
            other,
        ),
        _ => false,
    }
}

/// Whether the two blocks have equal models.
pub fn same_block(a: &ParsedBlock, b: &ParsedBlock) -> (r: bool)
    ensures
        r == (a@ == b@),
    decreases a,
{
    proof {
        lemma_block_model(*a);
        lemma_block_model(*b);
    }
    if a.stmts.len() != b.stmts.len() {
        assert(views(a.stmts@).len() != views(b.stmts@).len());
        return false;
    }
    let mut i: usize = 0;
    while i < a.stmts.len()
        invariant
            i <= a.stmts@.len() == b.stmts@.len(),
            forall|k: int| 0 <= k < i ==> a.stmts@[k]@ == b.stmts@[k]@,
            forall|k: int| 0 <= k < a.stmts@.len() ==> decreases_to!(a => #[trigger] a.stmts@[k]),
        decreases a.stmts@.len() - i,
    {
        if !same_statement(&a.stmts[i], &b.stmts[i]) {
            proof {
                lemma_block_model(*a);
                lemma_block_model(*b);
            }
            assert(views(a.stmts@)[i as int] != views(b.stmts@)[i as int]);
            return false;
        }
        i += 1;
    }
    assert(views(a.stmts@) =~= views(b.stmts@));
    true
}

impl PartialEq for ParsedType {
    fn eq(&self, other: &Self) -> (r: bool) {
        same_type(self, other)
    }
}

impl PartialEqSpecImpl for ParsedType {
    open spec fn obeys_eq_spec() -> bool {
        true
    }

    open spec fn eq_spec(&self, other: &Self) -> bool {
        self@ == other@
    }
}

impl PartialEq for UnaryOperator {
    fn eq(&self, other: &Self) -> (r: bool) {
        same_unary(self, other)
    }
}

impl PartialEqSpecImpl for UnaryOperator {
    open spec fn obeys_eq_spec() -> bool {
        true
    }

    open spec fn eq_spec(&self, other: &Self) -> bool {
        self@ == other@
    }
}

impl PartialEq for ParsedVarDecl {
    fn eq(&self, other: &Self) -> (r: bool) {
        same_var_decl(self, other)
    }
}

impl PartialEqSpecImpl for ParsedVarDecl {
    open spec fn obeys_eq_spec() -> bool {
        true
    }

    open spec fn eq_spec(&self, other: &Self) -> bool {
        self@ == other@
    }
}

impl PartialEq for ParsedProcCall {
    fn eq(&self, other: &Self) -> (r: bool) {
        same_call(self, other)
    }
}

impl PartialEqSpecImpl for ParsedProcCall {
    open spec fn obeys_eq_spec() -> bool {
        true
    }

    open spec fn eq_spec(&self, other: &Self) -> bool {
        self@ == other@
    }
}

impl PartialEq for MatchExprBody {
    fn eq(&self, other: &Self) -> (r: bool) {
        same_match_body(self, other)
    }
}

impl PartialEqSpecImpl for MatchExprBody {
    open spec fn obeys_eq_spec() -> bool {
        true
    }

    open spec fn eq_spec(&self, other: &Self) -> bool {
        self@ == other@
    }
}

impl PartialEq for MatchExprCase {
    fn eq(&self, other: &Self) -> (r: bool) {
        same_match_case(self, other)
    }
}

impl PartialEqSpecImpl for MatchExprCase {
    open spec fn obeys_eq_spec() -> bool {
        true
    }

    open spec fn eq_spec(&self, other: &Self) -> bool {
        self@ == other@
    }
}

impl PartialEq for ParsedExpression {
    fn eq(&self, other: &Self) -> (r: bool) {
        same_expression(self, other)
    }
}

impl PartialEqSpecImpl for ParsedExpression {
    open spec fn obeys_eq_spec() -> bool {
        true
    }

    open spec fn eq_spec(&self, other: &Self) -> bool {
        self@ == other@
    }
}

impl PartialEq for ParsedStatement {
    fn eq(&self, other: &Self) -> (r: bool) {
        same_statement(self, other)
    }
}

impl PartialEqSpecImpl for ParsedStatement {
    open spec fn obeys_eq_spec() -> bool {
        true
    }

    open spec fn eq_spec(&self, other: &Self) -> bool {
        self@ == other@
    }
}

impl PartialEq for ParsedBlock {
    fn eq(&self, other: &Self) -> (r: bool) {
        same_block(self, other)
    }
}

impl PartialEqSpecImpl for ParsedBlock {
    open spec fn obeys_eq_spec() -> bool {
        true
    }

    open spec fn eq_spec(&self, other: &Self) -> bool {
        self@ == other@
    }
}

} // verus!
