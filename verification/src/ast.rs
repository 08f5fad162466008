//! The syntax tree that the parser builds.
//!
//! Every node owns its children. The model of each type, which contracts
//! speak of, is in [`crate::model`].

use vstd::prelude::*;
use crate::token::NumericConstant;

pub mod duplicate;
pub mod equality;

verus! {

/// What a top-level `decl` declares.
#[derive(Debug, PartialEq, Eq, Structural, Clone, Copy)]
pub enum ComplexType {
    Procedure,
    Struct,
    Enum,
    Constant,
}

/// A type as it is written in source text.
///
/// A named type carries its module path and its name; pointer markers `*`
/// stand at the front of the path.
#[derive(Debug)]
pub enum ParsedType {
    Name(Vec<String>, String),
    Array(Box<ParsedType>, ParsedExpression),
}

/// An operator that has one operand.
#[derive(Debug)]
pub enum UnaryOperator {
    PreIncrement,
    PostIncrement,
    PreDecrement,
    PostDecrement,
    LogicalNot,
    BitwiseNot,
    AddressOf,
    Dereference,
    TypeCast(Box<ParsedType>),
}

/// An operator that has two operands.
#[derive(Debug, PartialEq, Eq, Structural, Clone, Copy)]
pub enum BinaryOperator {
    Invalid,
    Add,
    Subtract,
    Multiply,
    Divide,
    Modulo,
    LogicalAnd,
    LogicalOr,
    LogicalXOR,
    NEQ,
    EQ,
    LT,
    GT,
    LEQ,
    GEQ,
    BitwiseAnd,
    BitwiseOr,
    BitwiseXOR,
    BitwiseLeftShift,
    BitwiseRightShift,
    Assign,
    AddAssign,
    SubtractAssign,
    MultiplyAssign,
    DivideAssign,
    ModuloAssign,
    AndAssign,
    OrAssign,
    XORAssign,
    LeftShiftAssign,
    RightShiftAssign,
}

impl BinaryOperator {
    /// Whether the operator stores into its left operand.
    #[verifier::when_used_as_spec(spec_is_assignment)]
    pub fn is_assignment(&self) -> (r: bool)
        ensures
            r == self.spec_is_assignment(),
    {
        match self {
            BinaryOperator::Assign
            | BinaryOperator::AddAssign
            | BinaryOperator::SubtractAssign
            | BinaryOperator::MultiplyAssign
            | BinaryOperator::DivideAssign
            | BinaryOperator::ModuloAssign
            | BinaryOperator::AndAssign
            | BinaryOperator::OrAssign
            | BinaryOperator::XORAssign
            | BinaryOperator::LeftShiftAssign
            | BinaryOperator::RightShiftAssign => true,
            _ => false,
        }
    }

    /// Whether the operator stores into its left operand.
    pub open spec fn spec_is_assignment(&self) -> bool {
        match self {
            BinaryOperator::Assign
            | BinaryOperator::AddAssign
            | BinaryOperator::SubtractAssign
            | BinaryOperator::MultiplyAssign
            | BinaryOperator::DivideAssign
            | BinaryOperator::ModuloAssign
            | BinaryOperator::AndAssign
            | BinaryOperator::OrAssign
            | BinaryOperator::XORAssign
            | BinaryOperator::LeftShiftAssign
            | BinaryOperator::RightShiftAssign => true,
            _ => false,
        }
    }

    /// How tightly the operator binds: a higher number binds tighter.
    /// `Invalid` has the priority -1.
    #[verifier::when_used_as_spec(spec_priority)]
    pub fn priority(&self) -> (r: i32)
        ensures
            r == self.spec_priority(),
    {
        match self {
            BinaryOperator::Invalid => -1,
            BinaryOperator::Multiply | BinaryOperator::Divide | BinaryOperator::Modulo => 12,
            BinaryOperator::Add | BinaryOperator::Subtract => 11,
            BinaryOperator::BitwiseLeftShift | BinaryOperator::BitwiseRightShift => 10,
            BinaryOperator::LT
            | BinaryOperator::GT
            | BinaryOperator::LEQ
            | BinaryOperator::GEQ => 9,
            BinaryOperator::NEQ | BinaryOperator::EQ => 8,
            BinaryOperator::BitwiseAnd => 7,
            BinaryOperator::BitwiseXOR => 6,
            BinaryOperator::BitwiseOr => 5,
            BinaryOperator::LogicalAnd => 4,
            BinaryOperator::LogicalXOR => 3,
            BinaryOperator::LogicalOr => 2,
            BinaryOperator::Assign
            | BinaryOperator::AddAssign
            | BinaryOperator::SubtractAssign
            | BinaryOperator::MultiplyAssign
            | BinaryOperator::DivideAssign
            | BinaryOperator::ModuloAssign
            | BinaryOperator::AndAssign
            | BinaryOperator::OrAssign
            | BinaryOperator::XORAssign
            | BinaryOperator::LeftShiftAssign
            | BinaryOperator::RightShiftAssign => 1,
        }
    }

    /// How tightly the operator binds: a higher number binds tighter.
    pub open spec fn spec_priority(&self) -> i32 {
        match self {
            BinaryOperator::Invalid => -1i32,
            BinaryOperator::Multiply | BinaryOperator::Divide | BinaryOperator::Modulo => 12i32,
            BinaryOperator::Add | BinaryOperator::Subtract => 11i32,
            BinaryOperator::BitwiseLeftShift | BinaryOperator::BitwiseRightShift => 10i32,
            BinaryOperator::LT
            | BinaryOperator::GT
            | BinaryOperator::LEQ
            | BinaryOperator::GEQ => 9i32,
            BinaryOperator::NEQ | BinaryOperator::EQ => 8i32,
            BinaryOperator::BitwiseAnd => 7i32,
            BinaryOperator::BitwiseXOR => 6i32,
            BinaryOperator::BitwiseOr => 5i32,
            BinaryOperator::LogicalAnd => 4i32,
            BinaryOperator::LogicalXOR => 3i32,
            BinaryOperator::LogicalOr => 2i32,
            BinaryOperator::Assign
            | BinaryOperator::AddAssign
            | BinaryOperator::SubtractAssign
            | BinaryOperator::MultiplyAssign
            | BinaryOperator::DivideAssign
            | BinaryOperator::ModuloAssign
            | BinaryOperator::AndAssign
            | BinaryOperator::OrAssign
            | BinaryOperator::XORAssign
            | BinaryOperator::LeftShiftAssign
            | BinaryOperator::RightShiftAssign => 1i32,
        }
    }
}

/// The declaration of a variable: a `let` binding, a parameter, a struct
/// member or a labelled argument.
#[derive(Debug)]
pub struct ParsedVarDecl {
    pub parsed_type: ParsedType,
    pub name: String,
    pub default_value: ParsedExpression,
}

/// The declaration of a procedure.
#[derive(Debug, PartialEq, Clone)]
pub struct ParsedProcDecl {
    pub name: String,
    pub parameters: Vec<ParsedVarDecl>,
    pub parsed_return_type: ParsedType,
    pub body: ParsedBlock,
}

/// A call of a procedure. Every argument carries the name of its parameter.
#[derive(Debug)]
pub struct ParsedProcCall {
    pub name: String,
    pub passed_parameters: Vec<ParsedVarDecl>,
}

/// Whether a bound of a range belongs to the range.
#[derive(Debug, PartialEq, Eq, Structural, Clone, Copy)]
pub enum RangeExprBound {
    Inclusive,
    Exclusive,
}

/// The body of one case of a `match`: an expression, or a block that ends in
/// one.
#[derive(Debug)]
pub enum MatchExprBody {
    Expr(ParsedExpression),
    Block(ParsedBlock),
}

/// One case of a `match`.
#[derive(Debug)]
pub enum MatchExprCase {
    Expr(ParsedExpression, MatchExprBody),
    EnumVariant(String, MatchExprBody),
    Fallback(MatchExprBody),
}

/// An expression.
///
/// `Operator` is a bare operator. The expression parser uses it for its
/// result where no operator stands; no tree that a parse returns holds one.
/// `Invalid` fills the place of a value that was left out.
#[derive(Debug)]
pub enum ParsedExpression {
    Bool(bool),
    NumericConstant(NumericConstant),
    StringLiteral(String),
    CharLiteral(u8),
    Var(String),
    NamespacedVar(Vec<String>, String),
    Range(RangeExprBound, Box<ParsedExpression>, Box<ParsedExpression>, RangeExprBound),
    Match(Box<ParsedExpression>, Vec<MatchExprCase>),
    Operator(BinaryOperator),
    UnaryOperation(Box<ParsedExpression>, UnaryOperator),
    BinaryOperation(Box<ParsedExpression>, BinaryOperator, Box<ParsedExpression>),
    ProcCall(ParsedProcCall),
    Invalid,
}

impl ParsedExpression {
    /// The priority of a bare operator; -1 for every other expression.
    pub fn priority(&self) -> (r: i32)
        ensures
            r == (match *self {
                ParsedExpression::Operator(op) => op.spec_priority(),
                _ => -1i32,
            }),
    {
        match self {
            ParsedExpression::Operator(op) => op.priority(),
            _ => -1,
        }
    }

    /// Whether the expression names a place that can be assigned to: a
    /// variable or the result of a unary operation.
    pub fn is_assignable(&self) -> (r: bool)
        ensures
            r == (*self is Var || *self is NamespacedVar || *self is UnaryOperation),
    {
        match self {
            ParsedExpression::Var(_)
            | ParsedExpression::NamespacedVar(_, _)
            | ParsedExpression::UnaryOperation(_, _) => true,
            _ => false,
        }
    }
}

/// A statement.
#[derive(Debug)]
pub enum ParsedStatement {
    Expr(ParsedExpression),
    VarDecl(ParsedVarDecl),
    VarAssign(String, BinaryOperator, ParsedExpression),
    If(ParsedExpression, ParsedBlock, Option<Box<ParsedStatement>>),
    Block(ParsedBlock),
    ForLoop(ParsedVarDecl, ParsedExpression, ParsedBlock),
    WhileLoop(ParsedExpression, ParsedBlock),
    InfiniteLoop(ParsedBlock),
    Continue,
    Break,
    Return(ParsedExpression),
}

/// An import: the path of the importing module and the path that is imported.
#[derive(Debug, PartialEq, Clone)]
pub struct ParsedImport {
    pub current_module_path: String,
    pub path: String,
}

/// The declaration of a struct: its name and its members in order.
#[derive(Debug, PartialEq, Clone)]
pub struct ParsedStructDecl {
    pub name: String,
    pub data_members: Vec<ParsedVarDecl>,
}

/// A variant of an enum: a tag alone, a tag with types, or a tag with named
/// fields.
#[derive(Debug, PartialEq, Clone)]
pub enum ParsedEnumVariant {
    Untyped(String),
    UnlabeledTypes(String, Vec<ParsedType>),
    LabeledTypes(String, Vec<ParsedVarDecl>),
}

/// The declaration of an enum: its name and its variants in order.
#[derive(Debug, PartialEq, Clone)]
pub struct ParsedEnumDecl {
    pub name: String,
    pub variants: Vec<ParsedEnumVariant>,
}

/// What a top-level `decl` declares.
#[derive(Debug, PartialEq, Clone)]
pub enum ParsedDeclaration {
    Procedure(ParsedProcDecl),
    Struct(ParsedStructDecl),
}

/// A block of statements between `{` and `}`: one lexical scope.
#[derive(Debug)]
pub struct ParsedBlock {
    pub stmts: Vec<ParsedStatement>,
}

/// A module: the declarations of one source file.
#[derive(Debug, PartialEq, Clone)]
pub struct ParsedModule {
    pub name: String,
    pub imports: Vec<ParsedImport>,
    pub structs: Vec<ParsedStructDecl>,
    pub enums: Vec<ParsedEnumDecl>,
    pub procs: Vec<ParsedProcDecl>,
}

} // verus!
