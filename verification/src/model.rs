//! The mathematical model of the syntax tree.
//!
//! Each type of [`crate::ast`] has a model here: the same shape, with text as
//! a sequence of characters and lists as sequences. The view `@` of a node is
//! its model.

use vstd::prelude::*;
use crate::ast::{
    BinaryOperator,
    MatchExprBody,
    MatchExprCase,
    ParsedBlock,
    ParsedDeclaration,
    ParsedEnumDecl,
    ParsedEnumVariant,
    ParsedExpression,
    ParsedImport,
    ParsedModule,
    ParsedProcCall,
    ParsedProcDecl,
    ParsedStatement,
    ParsedStructDecl,
    ParsedType,
    ParsedVarDecl,
    RangeExprBound,
    UnaryOperator,
};
use crate::token::{Numeric, PrimitiveType};

verus! {

/// The model of a [`ParsedType`].
pub enum Type {
    Name(Seq<Seq<char>>, Seq<char>),
    Array(Box<Type>, Box<Expr>),
}

/// The model of a [`UnaryOperator`].
pub enum UnaryOp {
    PreIncrement,
    PostIncrement,
    PreDecrement,
    PostDecrement,
    LogicalNot,
    BitwiseNot,
    AddressOf,
    Dereference,
    TypeCast(Type),
}

/// The model of a [`ParsedVarDecl`].
pub struct VarDecl {
    pub parsed_type: Type,
    pub name: Seq<char>,
    pub default_value: Expr,
}

/// The model of a [`ParsedProcCall`].
pub struct ProcCall {
    pub name: Seq<char>,
    pub passed_parameters: Seq<VarDecl>,
}

/// The model of a [`MatchExprBody`].
pub enum MatchBody {
    Expr(Expr),
    Block(Block),
}

/// The model of a [`MatchExprCase`].
pub enum MatchCase {
    Expr(Expr, MatchBody),
    EnumVariant(Seq<char>, MatchBody),
    Fallback(MatchBody),
}

/// The model of a [`ParsedExpression`].
pub enum Expr {
    Bool(bool),
    NumericConstant(Numeric),
    StringLiteral(Seq<char>),
    CharLiteral(u8),
    Var(Seq<char>),
    NamespacedVar(Seq<Seq<char>>, Seq<char>),
    Range(RangeExprBound, Box<Expr>, Box<Expr>, RangeExprBound),
    Match(Box<Expr>, Seq<MatchCase>),
    Operator(BinaryOperator),
    UnaryOperation(Box<Expr>, UnaryOp),
    BinaryOperation(Box<Expr>, BinaryOperator, Box<Expr>),
    ProcCall(ProcCall),
    Invalid,
}

/// The model of a [`ParsedStatement`].
pub enum Stmt {
    Expr(Expr),
    VarDecl(VarDecl),
    VarAssign(Seq<char>, BinaryOperator, Expr),
    If(Expr, Block, Option<Box<Stmt>>),
    Block(Block),
    ForLoop(VarDecl, Expr, Block),
    WhileLoop(Expr, Block),
    InfiniteLoop(Block),
    Continue,
    Break,
    Return(Expr),
}

/// The model of a [`ParsedBlock`].
pub struct Block {
    pub stmts: Seq<Stmt>,
}

/// The model of a [`ParsedProcDecl`].
pub struct ProcDecl {
    pub name: Seq<char>,
    pub parameters: Seq<VarDecl>,
    pub parsed_return_type: Type,
    pub body: Block,
}

/// The model of a [`ParsedStructDecl`].
pub struct StructDecl {
    pub name: Seq<char>,
    pub data_members: Seq<VarDecl>,
}

/// The model of a [`ParsedEnumVariant`].
pub enum EnumVariant {
    Untyped(Seq<char>),
    UnlabeledTypes(Seq<char>, Seq<Type>),
    LabeledTypes(Seq<char>, Seq<VarDecl>),
}

/// The model of a [`ParsedEnumDecl`].
pub struct EnumDecl {
    pub name: Seq<char>,
    pub variants: Seq<EnumVariant>,
}

/// The model of a [`ParsedImport`].
pub struct Import {
    pub current_module_path: Seq<char>,
    pub path: Seq<char>,
}

/// What a top-level `decl` declares.
pub enum Declaration {
    Procedure(ProcDecl),
    Struct(StructDecl),
}

/// The model of a [`ParsedModule`].
pub struct Module {
    pub name: Seq<char>,
    pub imports: Seq<Import>,
    pub structs: Seq<StructDecl>,
    pub enums: Seq<EnumDecl>,
    pub procs: Seq<ProcDecl>,
}

/// The type that stands where none is written: no path and an empty name.
pub open spec fn unwritten_type() -> Type {
    Type::Name(Seq::empty(), Seq::empty())
}

/// The type that a builtin names.
pub open spec fn builtin_type(primitive: PrimitiveType) -> Type {
    Type::Name(Seq::empty(), primitive.name())
}

/// The texts of a list of strings.
pub open spec fn texts(names: Seq<String>) -> Seq<Seq<char>> {
    Seq::new(names.len(), |i: int| names[i]@)
}

/// The models of a list of nodes.
pub open spec fn views<T: View>(nodes: Seq<T>) -> Seq<T::V> {
    Seq::new(nodes.len(), |i: int| nodes[i]@)
}

/// The model of a type.
pub open spec fn type_model(t: ParsedType) -> Type
    decreases t,
{
    match t {
        ParsedType::Name(path, name) => Type::Name(texts(path@), name@),
        ParsedType::Array(element, size) => Type::Array(
            Box::new(type_model(*element)),
            Box::new(expr_model(size)),
        ),
    }
}

/// The model of a unary operator.
pub open spec fn unary_model(op: UnaryOperator) -> UnaryOp
    decreases op,
{
    match op {
        UnaryOperator::PreIncrement => UnaryOp::PreIncrement,
        UnaryOperator::PostIncrement => UnaryOp::PostIncrement,
        UnaryOperator::PreDecrement => UnaryOp::PreDecrement,
        UnaryOperator::PostDecrement => UnaryOp::PostDecrement,
        UnaryOperator::LogicalNot => UnaryOp::LogicalNot,
        UnaryOperator::BitwiseNot => UnaryOp::BitwiseNot,
        UnaryOperator::AddressOf => UnaryOp::AddressOf,
        UnaryOperator::Dereference => UnaryOp::Dereference,
        UnaryOperator::TypeCast(target) => UnaryOp::TypeCast(type_model(*target)),
    }
}

/// The model of the declaration of a variable.
pub open spec fn var_decl_model(d: ParsedVarDecl) -> VarDecl
    decreases d,
{
    VarDecl {
        parsed_type: type_model(d.parsed_type),
        name: d.name@,
        default_value: expr_model(d.default_value),
    }
}

/// The model of a call.
pub open spec fn proc_call_model(c: ParsedProcCall) -> ProcCall
    decreases c,
{
    ProcCall {
        name: c.name@,
        passed_parameters: Seq::new(
            c.passed_parameters@.len(),
            |i: int|
                if 0 <= i < c.passed_parameters@.len() {
                    var_decl_model(c.passed_parameters@[i])
                } else {
                    arbitrary()
                },
        ),
    }
}

/// The model of the body of a case.
pub open spec fn match_body_model(b: MatchExprBody) -> MatchBody
    decreases b,
{
    match b {
        MatchExprBody::Expr(e) => MatchBody::Expr(expr_model(e)),
        MatchExprBody::Block(block) => MatchBody::Block(block_model(block)),
    }
}

/// The model of a case.
pub open spec fn match_case_model(c: MatchExprCase) -> MatchCase
    decreases c,
{
    match c {
        MatchExprCase::Expr(pattern, body) => MatchCase::Expr(
            expr_model(pattern),
            match_body_model(body),
        ),
        MatchExprCase::EnumVariant(tag, body) => MatchCase::EnumVariant(
            tag@,
            match_body_model(body),
        ),
        MatchExprCase::Fallback(body) => MatchCase::Fallback(match_body_model(body)),
    }
}

/// The model of an expression.
pub open spec fn expr_model(e: ParsedExpression) -> Expr
    decreases e,
{
    match e {
        ParsedExpression::Bool(value) => Expr::Bool(value),
        ParsedExpression::NumericConstant(constant) => Expr::NumericConstant(constant@),
        ParsedExpression::StringLiteral(text) => Expr::StringLiteral(text@),
        ParsedExpression::CharLiteral(value) => Expr::CharLiteral(value),
        ParsedExpression::Var(name) => Expr::Var(name@),
        ParsedExpression::NamespacedVar(path, name) => Expr::NamespacedVar(texts(path@), name@),
        ParsedExpression::Range(lower, start, end, upper) => Expr::Range(
            lower,
            Box::new(expr_model(*start)),
            Box::new(expr_model(*end)),
            upper,
        ),
        ParsedExpression::Match(scrutinee, cases) => Expr::Match(
            Box::new(expr_model(*scrutinee)),
            Seq::new(
                cases@.len(),
                |i: int|
                    if 0 <= i < cases@.len() {
                        match_case_model(cases@[i])
                    } else {
                        arbitrary()
                    },
            ),
        ),
        ParsedExpression::Operator(op) => Expr::Operator(op),
        ParsedExpression::UnaryOperation(operand, op) => Expr::UnaryOperation(
            Box::new(expr_model(*operand)),
            unary_model(op),
        ),
        ParsedExpression::BinaryOperation(lhs, op, rhs) => Expr::BinaryOperation(
            Box::new(expr_model(*lhs)),
            op,
            Box::new(expr_model(*rhs)),
        ),
        ParsedExpression::ProcCall(call) => Expr::ProcCall(proc_call_model(call)),
        ParsedExpression::Invalid => Expr::Invalid,
    }
}

/// The model of a statement.
pub open spec fn stmt_model(s: ParsedStatement) -> Stmt
    decreases s,
{
    match s {
        ParsedStatement::Expr(e) => Stmt::Expr(expr_model(e)),
        ParsedStatement::VarDecl(d) => Stmt::VarDecl(var_decl_model(d)),
        ParsedStatement::VarAssign(name, op, value) => Stmt::VarAssign(
            name@,
            op,
            expr_model(value),
        ),
        ParsedStatement::If(condition, then_block, otherwise) => Stmt::If(
            expr_model(condition),
            block_model(then_block),
            match otherwise {
                Some(statement) => Some(Box::new(stmt_model(*statement))),
                None => None,
            },
        ),
        ParsedStatement::Block(block) => Stmt::Block(block_model(block)),
        ParsedStatement::ForLoop(variable, range, body) => Stmt::ForLoop(
            var_decl_model(variable),
            expr_model(range),
            block_model(body),
        ),
        ParsedStatement::WhileLoop(condition, body) => Stmt::WhileLoop(
            expr_model(condition),
            block_model(body),
        ),
        ParsedStatement::InfiniteLoop(body) => Stmt::InfiniteLoop(block_model(body)),
        ParsedStatement::Continue => Stmt::Continue,
        ParsedStatement::Break => Stmt::Break,
        ParsedStatement::Return(e) => Stmt::Return(expr_model(e)),
    }
}

/// The model of a block.
pub open spec fn block_model(b: ParsedBlock) -> Block
    decreases b,
{
    Block {
        stmts: Seq::new(
            b.stmts@.len(),
            |i: int|
                if 0 <= i < b.stmts@.len() {
                    stmt_model(b.stmts@[i])
                } else {
                    arbitrary()
                },
        ),
    }
}

impl View for ParsedType {
    type V = Type;

    open spec fn view(&self) -> Type {
        type_model(*self)
    }
}

impl View for UnaryOperator {
    type V = UnaryOp;

    open spec fn view(&self) -> UnaryOp {
        unary_model(*self)
    }
}

impl View for ParsedVarDecl {
    type V = VarDecl;

    open spec fn view(&self) -> VarDecl {
        var_decl_model(*self)
    }
}

impl View for ParsedProcCall {
    type V = ProcCall;

    open spec fn view(&self) -> ProcCall {
        proc_call_model(*self)
    }
}

impl View for MatchExprBody {
    type V = MatchBody;

    open spec fn view(&self) -> MatchBody {
        match_body_model(*self)
    }
}

impl View for MatchExprCase {
    type V = MatchCase;

    open spec fn view(&self) -> MatchCase {
        match_case_model(*self)
    }
}

impl View for ParsedExpression {
    type V = Expr;

    open spec fn view(&self) -> Expr {
        expr_model(*self)
    }
}

impl View for ParsedStatement {
    type V = Stmt;

    open spec fn view(&self) -> Stmt {
        stmt_model(*self)
    }
}

impl View for ParsedBlock {
    type V = Block;

    open spec fn view(&self) -> Block {
        block_model(*self)
    }
}

impl View for ParsedProcDecl {
    type V = ProcDecl;

    open spec fn view(&self) -> ProcDecl {
        ProcDecl {
            name: self.name@,
            parameters: views(self.parameters@),
            parsed_return_type: self.parsed_return_type@,
            body: self.body@,
        }
    }
}

impl View for ParsedStructDecl {
    type V = StructDecl;

    open spec fn view(&self) -> StructDecl {
        StructDecl { name: self.name@, data_members: views(self.data_members@) }
    }
}

impl View for ParsedEnumVariant {
    type V = EnumVariant;

    open spec fn view(&self) -> EnumVariant {
        match self {
            ParsedEnumVariant::Untyped(tag) => EnumVariant::Untyped(tag@),
            ParsedEnumVariant::UnlabeledTypes(tag, types) => EnumVariant::UnlabeledTypes(
                tag@,
                views(types@),
            ),
            ParsedEnumVariant::LabeledTypes(tag, fields) => EnumVariant::LabeledTypes(
                tag@,
                views(fields@),
            ),
        }
    }
}

impl View for ParsedEnumDecl {
    type V = EnumDecl;

    open spec fn view(&self) -> EnumDecl {
        EnumDecl { name: self.name@, variants: views(self.variants@) }
    }
}

impl View for ParsedImport {
    type V = Import;

    open spec fn view(&self) -> Import {
        Import { current_module_path: self.current_module_path@, path: self.path@ }
    }
}

impl View for ParsedDeclaration {
    type V = Declaration;

    open spec fn view(&self) -> Declaration {
        match self {
            ParsedDeclaration::Procedure(procedure) => Declaration::Procedure(procedure@),
            ParsedDeclaration::Struct(structure) => Declaration::Struct(structure@),
        }
    }
}

impl View for ParsedModule {
    type V = Module;

    open spec fn view(&self) -> Module {
        Module {
            name: self.name@,
            imports: views(self.imports@),
            structs: views(self.structs@),
            enums: views(self.enums@),
            procs: views(self.procs@),
        }
    }
}

/// The model of a call lists the models of its arguments.
pub proof fn lemma_proc_call_model(c: ParsedProcCall)
    ensures
        c@.passed_parameters == views(c.passed_parameters@),
{
    assert(c@.passed_parameters =~= views(c.passed_parameters@));
}

/// The model of a block lists the models of its statements.
pub proof fn lemma_block_model(b: ParsedBlock)
    ensures
        b@.stmts == views(b.stmts@),
{
    assert(b@.stmts =~= views(b.stmts@));
}

/// Appending a node appends its model.
pub proof fn lemma_views_push<T: View>(nodes: Seq<T>, node: T)
    ensures
        views(nodes.push(node)) == views(nodes).push(node@),
{
    assert(views(nodes.push(node)) =~= views(nodes).push(node@));
}

/// Appending a string appends its text.
pub proof fn lemma_texts_push(names: Seq<String>, name: String)
    ensures
        texts(names.push(name)) == texts(names).push(name@),
{
    assert(texts(names.push(name)) =~= texts(names).push(name@));
}

impl ParsedType {
    /// The named type `name` in `path`.
    pub fn named(path: Vec<String>, name: String) -> (r: ParsedType)
        ensures
            r@ == Type::Name(texts(path@), name@),
    {
        ParsedType::Name(path, name)
    }
}

impl ParsedType {
    /// The type that stands where none is written.
    pub fn unwritten() -> (r: ParsedType)
        ensures
            r@ == unwritten_type(),
    {
        let path: Vec<String> = Vec::new();
        assert(texts(path@) =~= Seq::empty());
        ParsedType::named(path, String::new())
    }

    /// The type that a builtin names.
    pub fn builtin(primitive: PrimitiveType) -> (r: ParsedType)
        ensures
            r@ == builtin_type(primitive),
    {
        let path: Vec<String> = Vec::new();
        assert(texts(path@) =~= Seq::empty());
        ParsedType::named(path, primitive.as_str().to_owned())
    }
}

impl UnaryOperator {
    /// The cast to the type `target`.
    pub fn type_cast(target: ParsedType) -> (r: UnaryOperator)
        ensures
            r@ == UnaryOp::TypeCast(target@),
    {
        UnaryOperator::TypeCast(Box::new(target))
    }
}

impl ParsedVarDecl {
    /// The declaration of `name` with the type `parsed_type` and the value
    /// `default_value`.
    pub fn new(parsed_type: ParsedType, name: String, default_value: ParsedExpression) -> (r:
        ParsedVarDecl)
        ensures
            r@ == (VarDecl {
                parsed_type: parsed_type@,
                name: name@,
                default_value: default_value@,
            }),
    {
        ParsedVarDecl { parsed_type, name, default_value }
    }
}

impl ParsedProcCall {
    /// The call of `name` with the arguments `passed_parameters`.
    pub fn new(name: String, passed_parameters: Vec<ParsedVarDecl>) -> (r: ParsedProcCall)
        ensures
            r@ == (ProcCall { name: name@, passed_parameters: views(passed_parameters@) }),
    {
        let call = ParsedProcCall { name, passed_parameters };
        proof {
            lemma_proc_call_model(call);
        }
        call
    }
}

impl ParsedExpression {
    /// The operation `op` on `operand`.
    pub fn unary(operand: ParsedExpression, op: UnaryOperator) -> (r: ParsedExpression)
        ensures
            r@ == Expr::UnaryOperation(Box::new(operand@), op@),
    {
        ParsedExpression::UnaryOperation(Box::new(operand), op)
    }

    /// The operation `op` on `lhs` and `rhs`.
    pub fn binary(lhs: ParsedExpression, op: BinaryOperator, rhs: ParsedExpression) -> (r:
        ParsedExpression)
        ensures
            r@ == Expr::BinaryOperation(Box::new(lhs@), op, Box::new(rhs@)),
    {
        ParsedExpression::BinaryOperation(Box::new(lhs), op, Box::new(rhs))
    }

    /// The range from `start` to `end` with the bounds `lower` and `upper`.
    pub fn range(
        lower: RangeExprBound,
        start: ParsedExpression,
        end: ParsedExpression,
        upper: RangeExprBound,
    ) -> (r: ParsedExpression)
        ensures
            r@ == Expr::Range(lower, Box::new(start@), Box::new(end@), upper),
    {
        ParsedExpression::Range(lower, Box::new(start), Box::new(end), upper)
    }

    /// The call `call` as an expression.
    pub fn call(call: ParsedProcCall) -> (r: ParsedExpression)
        ensures
            r@ == Expr::ProcCall(call@),
    {
        ParsedExpression::ProcCall(call)
    }
}

impl ParsedBlock {
    /// The block without statements.
    pub fn new() -> (r: ParsedBlock)
        ensures
            r@ == (Block { stmts: Seq::empty() }),
    {
        let stmts: Vec<ParsedStatement> = Vec::new();
        assert(views(stmts@) =~= Seq::empty());
        ParsedBlock::of(stmts)
    }

    /// The block of the statements `stmts`.
    pub fn of(stmts: Vec<ParsedStatement>) -> (r: ParsedBlock)
        ensures
            r@ == (Block { stmts: views(stmts@) }),
    {
        let block = ParsedBlock { stmts };
        proof {
            lemma_block_model(block);
        }
        block
    }
}

impl ParsedStatement {
    /// The conditional with the branch `otherwise`, if there is one.
    pub fn conditional(
        condition: ParsedExpression,
        then_block: ParsedBlock,
        otherwise: Option<ParsedStatement>,
    ) -> (r: ParsedStatement)
        ensures
            r@ == Stmt::If(
                condition@,
                then_block@,
                match otherwise {
                    Some(statement) => Some(Box::new(statement@)),
                    None => None,
                },
            ),
    {
        match otherwise {
            Some(statement) => ParsedStatement::If(condition, then_block, Some(Box::new(statement))),
            None => ParsedStatement::If(condition, then_block, None),
        }
    }

    /// The declaration `declaration` as a statement.
    pub fn declare(declaration: ParsedVarDecl) -> (r: ParsedStatement)
        ensures
            r@ == Stmt::VarDecl(declaration@),
    {
        ParsedStatement::VarDecl(declaration)
    }

    /// The loop over `range` with the variable `variable`.
    pub fn for_loop(variable: ParsedVarDecl, range: ParsedExpression, body: ParsedBlock) -> (r:
        ParsedStatement)
        ensures
            r@ == Stmt::ForLoop(variable@, range@, body@),
    {
        ParsedStatement::ForLoop(variable, range, body)
    }
}

impl ParsedModule {
    /// The module `name` without declarations.
    pub fn new(name: &str) -> (r: ParsedModule)
        ensures
            r@ == (Module {
                name: name@,
                imports: Seq::empty(),
                structs: Seq::empty(),
                enums: Seq::empty(),
                procs: Seq::empty(),
            }),
    {
        let module = ParsedModule {
            name: name.to_owned(),
            imports: Vec::new(),
            structs: Vec::new(),
            enums: Vec::new(),
            procs: Vec::new(),
        };
        assert(views(module.imports@) =~= Seq::empty());
        assert(views(module.structs@) =~= Seq::empty());
        assert(views(module.enums@) =~= Seq::empty());
        assert(views(module.procs@) =~= Seq::empty());
        module
    }
}

} // verus!
