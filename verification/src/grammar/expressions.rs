//! Operands, operators and expressions.

use vstd::prelude::*;
use crate::ast::{BinaryOperator, RangeExprBound};
use crate::error::{ParseErrorKind, Unsupported};
use crate::grammar::{
    lemma_parsed_type_advances,
    lemma_skip_eols,
    lexeme_at,
    parsed_type,
    skip_eols,
    Parse,
};
use crate::model::unwritten_type;

use crate::model::{Expr, ProcCall, UnaryOp, VarDecl};
use crate::precedence::resolve;
use crate::token::{Keyword, Lexeme, Punct};

verus! {

/// The binary operator that a lexeme stands for, if any.
pub open spec fn binary_operator(lexeme: Lexeme) -> Option<BinaryOperator> {
    match lexeme {
        Lexeme::Punct(Punct::Plus) => Some(BinaryOperator::Add),
        Lexeme::Punct(Punct::Minus) => Some(BinaryOperator::Subtract),
        Lexeme::Punct(Punct::Star) => Some(BinaryOperator::Multiply),
        Lexeme::Punct(Punct::Slash) => Some(BinaryOperator::Divide),
        Lexeme::Punct(Punct::Percent) => Some(BinaryOperator::Modulo),
        Lexeme::Punct(Punct::DoubleAmpersand) => Some(BinaryOperator::LogicalAnd),
        Lexeme::Punct(Punct::DoublePipe) => Some(BinaryOperator::LogicalOr),
        Lexeme::Punct(Punct::DoubleCaret) => Some(BinaryOperator::LogicalXOR),
        Lexeme::Punct(Punct::NEQ) => Some(BinaryOperator::NEQ),
        Lexeme::Punct(Punct::EQ) => Some(BinaryOperator::EQ),
        Lexeme::Punct(Punct::LAngle) => Some(BinaryOperator::LT),
        Lexeme::Punct(Punct::RAngle) => Some(BinaryOperator::GT),
        Lexeme::Punct(Punct::LEQ) => Some(BinaryOperator::LEQ),
        Lexeme::Punct(Punct::GEQ) => Some(BinaryOperator::GEQ),
        Lexeme::Punct(Punct::Ampersand) => Some(BinaryOperator::BitwiseAnd),
        Lexeme::Punct(Punct::Pipe) => Some(BinaryOperator::BitwiseOr),
        Lexeme::Punct(Punct::Caret) => Some(BinaryOperator::BitwiseXOR),
        Lexeme::Punct(Punct::LShift) => Some(BinaryOperator::BitwiseLeftShift),
        Lexeme::Punct(Punct::RShift) => Some(BinaryOperator::BitwiseRightShift),
        Lexeme::Punct(Punct::Assign) => Some(BinaryOperator::Assign),
        Lexeme::Punct(Punct::PlusAssign) => Some(BinaryOperator::AddAssign),
        Lexeme::Punct(Punct::MinusAssign) => Some(BinaryOperator::SubtractAssign),
        Lexeme::Punct(Punct::StarAssign) => Some(BinaryOperator::MultiplyAssign),
        Lexeme::Punct(Punct::SlashAssign) => Some(BinaryOperator::DivideAssign),
        Lexeme::Punct(Punct::PercentAssign) => Some(BinaryOperator::ModuloAssign),
        Lexeme::Punct(Punct::AmpersandAssign) => Some(BinaryOperator::AndAssign),
        Lexeme::Punct(Punct::PipeAssign) => Some(BinaryOperator::OrAssign),
        Lexeme::Punct(Punct::CaretAssign) => Some(BinaryOperator::XORAssign),
        Lexeme::Punct(Punct::LShiftAssign) => Some(BinaryOperator::LeftShiftAssign),
        Lexeme::Punct(Punct::RShiftAssign) => Some(BinaryOperator::RightShiftAssign),
        _ => None,
    }
}

/// The prefix operator that a lexeme stands for where an operand is
/// expected, if any. There `<` dereferences.
pub open spec fn prefix_operator(lexeme: Lexeme) -> Option<UnaryOp> {
    match lexeme {
        Lexeme::Punct(Punct::LAngle) => Some(UnaryOp::Dereference),
        Lexeme::Punct(Punct::Ampersand) => Some(UnaryOp::AddressOf),
        Lexeme::Punct(Punct::Bang) => Some(UnaryOp::LogicalNot),
        Lexeme::Punct(Punct::Tilde) => Some(UnaryOp::BitwiseNot),
        Lexeme::Punct(Punct::PlusPlus) => Some(UnaryOp::PreIncrement),
        Lexeme::Punct(Punct::MinusMinus) => Some(UnaryOp::PreDecrement),
        _ => None,
    }
}

/// What may follow the operand `base` that ends before `i`: `++`, `--` or
/// `as` and a type. `<` there is kept for indexing, which is not read yet.
pub open spec fn operand_postfix(ts: Seq<Lexeme>, i: int, base: Expr) -> Parse<Expr> {
    match lexeme_at(ts, i) {
        Lexeme::Punct(Punct::PlusPlus) => Parse::Done {
            value: Expr::UnaryOperation(Box::new(base), UnaryOp::PostIncrement),
            next: i + 1,
        },
        Lexeme::Punct(Punct::MinusMinus) => Parse::Done {
            value: Expr::UnaryOperation(Box::new(base), UnaryOp::PostDecrement),
            next: i + 1,
        },
        Lexeme::Keyword(Keyword::As) => match parsed_type(ts, i + 1) {
            Parse::Done { value, next } => Parse::Done {
                value: Expr::UnaryOperation(Box::new(base), UnaryOp::TypeCast(value)),
                next,
            },
            Parse::Failed { kind, at } => Parse::Failed { kind, at },
        },
        Lexeme::Punct(Punct::LAngle) => Parse::Failed {
            kind: ParseErrorKind::Unsupported(Unsupported::Indexing),
            at: i,
        },
        _ => Parse::Done { value: base, next: i },
    }
}

/// One operand from `i` on: end-of-line tokens, then prefix operators and
/// an atom, then what may follow it.
#[verifier::opaque]
pub open spec fn operand(ts: Seq<Lexeme>, i: int) -> Parse<Expr>
    decreases ts.len() - i, 2int,
{
    proof {
        lemma_skip_eols(ts, i);
    }
    match operand_prefix(ts, skip_eols(ts, i)) {
        Parse::Done { value, next } => operand_postfix(ts, next, value),
        Parse::Failed { kind, at } => Parse::Failed { kind, at },
    }
}

/// A prefix operator and the operand it applies to, or an atom: a literal,
/// a call, or a variable.
#[verifier::opaque]
pub open spec fn operand_prefix(ts: Seq<Lexeme>, i: int) -> Parse<Expr>
    decreases ts.len() - i, 1int,
{
    match prefix_operator(lexeme_at(ts, i)) {
        Some(op) => match operand(ts, i + 1) {
            Parse::Done { value, next } => Parse::Done {
                value: Expr::UnaryOperation(Box::new(value), op),
                next,
            },
            Parse::Failed { kind, at } => Parse::Failed { kind, at },
        },
        None => match lexeme_at(ts, i) {
            Lexeme::Str(text) => Parse::Done { value: Expr::StringLiteral(text), next: i + 1 },
            Lexeme::Char(value) => Parse::Done { value: Expr::CharLiteral(value), next: i + 1 },
            Lexeme::Bool(value) => Parse::Done { value: Expr::Bool(value), next: i + 1 },
            Lexeme::Number(constant) => Parse::Done {
                value: Expr::NumericConstant(constant),
                next: i + 1,
            },
            Lexeme::Ident(name) => if lexeme_at(ts, i + 1) == Lexeme::Punct(Punct::LParen) {
                match proc_call(ts, i) {
                    Parse::Done { value, next } => Parse::Done {
                        value: Expr::ProcCall(value),
                        next,
                    },
                    Parse::Failed { kind, at } => Parse::Failed { kind, at },
                }
            } else {
                Parse::Done { value: Expr::Var(name), next: i + 1 }
            },
            Lexeme::Keyword(Keyword::Match) => Parse::Failed {
                kind: ParseErrorKind::Unsupported(Unsupported::MatchExpression),
                at: i,
            },
            _ => Parse::Failed { kind: ParseErrorKind::ExpectedOperand, at: i },
        },
    }
}

/// A call: the name of a procedure at `i` and its arguments in parentheses.
#[verifier::opaque]
pub open spec fn proc_call(ts: Seq<Lexeme>, i: int) -> Parse<ProcCall>
    decreases ts.len() - i, 0int,
{
    match lexeme_at(ts, i) {
        Lexeme::Ident(name) => match argument_list(ts, i + 1) {
            Parse::Done { value, next } => Parse::Done {
                value: ProcCall { name, passed_parameters: value },
                next,
            },
            Parse::Failed { kind, at } => Parse::Failed { kind, at },
        },
        _ => Parse::Failed { kind: ParseErrorKind::ExpectedIdentifier, at: i },
    }
}

/// The arguments of a call, from the opening parenthesis at `i` on.
#[verifier::opaque]
pub open spec fn argument_list(ts: Seq<Lexeme>, i: int) -> Parse<Seq<VarDecl>>
    decreases ts.len() - i, 0int,
{
    if lexeme_at(ts, i) == Lexeme::Punct(Punct::LParen) {
        arguments(ts, i + 1, Seq::empty())
    } else {
        Parse::Failed { kind: ParseErrorKind::ExpectedLParen, at: i }
    }
}

/// One argument of a call at `i`: `label: value`, or `label:` before a comma
/// or the closing parenthesis, which passes `Invalid`. No argument carries a
/// type.
#[verifier::opaque]
pub open spec fn argument(ts: Seq<Lexeme>, i: int) -> Parse<VarDecl>
    decreases ts.len() - i, 0int,
{
    match lexeme_at(ts, i) {
        Lexeme::Ident(label) => if lexeme_at(ts, i + 1) != Lexeme::Punct(Punct::Colon) {
            Parse::Failed { kind: ParseErrorKind::ExpectedColon, at: i + 1 }
        } else if lexeme_at(ts, i + 2) == Lexeme::Punct(Punct::Comma) || lexeme_at(ts, i + 2)
            == Lexeme::Punct(Punct::RParen) {
            Parse::Done {
                value: VarDecl {
                    parsed_type: unwritten_type(),
                    name: label,
                    default_value: Expr::Invalid,
                },
                next: i + 2,
            }
        } else {
            match expression(ts, i + 2, false, true) {
                Parse::Done { value, next } => Parse::Done {
                    value: VarDecl {
                        parsed_type: unwritten_type(),
                        name: label,
                        default_value: value,
                    },
                    next,
                },
                Parse::Failed { kind, at } => Parse::Failed { kind, at },
            }
        },
        _ => Parse::Failed { kind: ParseErrorKind::ExpectedArgument, at: i },
    }
}

/// The arguments of a call from `i` on, after the opening parenthesis and
/// the arguments `seen`, up to the closing parenthesis. Commas separate the
/// arguments, and one may stand before the closing parenthesis.
#[verifier::opaque]
pub open spec fn arguments(ts: Seq<Lexeme>, i: int, seen: Seq<VarDecl>) -> Parse<Seq<VarDecl>>
    decreases ts.len() - i, 1int,
{
    if lexeme_at(ts, i) == Lexeme::Punct(Punct::RParen) {
        Parse::Done { value: seen, next: i + 1 }
    } else {
        match argument(ts, i) {
            Parse::Done { value, next } => match lexeme_at(ts, next) {
                Lexeme::Punct(Punct::Comma) => if i < next {
                    arguments(ts, next + 1, seen.push(value))
                } else {
                    arbitrary()
                },
                Lexeme::Punct(Punct::RParen) => Parse::Done {
                    value: seen.push(value),
                    next: next + 1,
                },
                _ => Parse::Failed { kind: ParseErrorKind::ExpectedCommaOrRParen, at: next },
            },
            Parse::Failed { kind, at } => Parse::Failed { kind, at },
        }
    }
}

/// The binary operator from `i` on, after end-of-line tokens, as a bare
/// operator. Where no binary operator stands there, the operator is
/// `Invalid` and no token is taken.
pub open spec fn operator(ts: Seq<Lexeme>, i: int, can_assign: bool) -> Parse<Expr> {
    let j = skip_eols(ts, i);
    match binary_operator(lexeme_at(ts, j)) {
        None => Parse::Done { value: Expr::Operator(BinaryOperator::Invalid), next: j },
        Some(op) => if op.spec_is_assignment() && !can_assign {
            Parse::Failed { kind: ParseErrorKind::AssignmentNotAllowed, at: j }
        } else {
            Parse::Done { value: Expr::Operator(op), next: j + 1 }
        },
    }
}

/// An expression from `i` on: operands with binary operators between them,
/// grouped by priority.
///
/// `can_assign` says whether an assignment operator may stand in it.
/// `allow_newlines` says whether it may go on after the end of a line.
#[verifier::opaque]
pub open spec fn expression(
    ts: Seq<Lexeme>,
    i: int,
    can_assign: bool,
    allow_newlines: bool,
) -> Parse<Expr>
    decreases ts.len() - i, 3int,
{
    match operand(ts, i) {
        Parse::Done { value, next } => if i < next <= ts.len() {
            expression_tail(ts, next, can_assign, allow_newlines, seq![value], Seq::empty())
        } else {
            arbitrary()
        },
        Parse::Failed { kind, at } => Parse::Failed { kind, at },
    }
}

/// The rest of an expression from `i` on, after the operands `operands` and
/// the operators `ops` between them.
///
/// Where newlines are allowed the expression ends at the end of the input
/// and before `{`, and goes on over end-of-line tokens otherwise; where they
/// are not, it ends at the end of the line. It ends before every token that
/// is no binary operator.
#[verifier::opaque]
pub open spec fn expression_tail(
    ts: Seq<Lexeme>,
    i: int,
    can_assign: bool,
    allow_newlines: bool,
    operands: Seq<Expr>,
    ops: Seq<BinaryOperator>,
) -> Parse<Expr>
    decreases ts.len() - i, 3int,
{
    if allow_newlines && (lexeme_at(ts, i) is Eof || lexeme_at(ts, i) == Lexeme::Punct(
        Punct::LCurly,
    )) {
        Parse::Done { value: resolve(operands, ops), next: i }
    } else if !allow_newlines && lexeme_at(ts, i) is Eol {
        Parse::Done { value: resolve(operands, ops), next: i }
    } else {
        proof {
            lemma_skip_eols(ts, i);
        }
        let j = skip_eols(ts, i);
        match binary_operator(lexeme_at(ts, j)) {
            None => Parse::Done { value: resolve(operands, ops), next: j },
            Some(op) => if op.spec_is_assignment() && !can_assign {
                Parse::Failed { kind: ParseErrorKind::AssignmentNotAllowed, at: j }
            } else {
                match operand(ts, j + 1) {
                    Parse::Done { value, next } => if j < next <= ts.len() {
                        expression_tail(
                            ts,
                            next,
                            can_assign,
                            allow_newlines,
                            operands.push(value),
                            ops.push(op),
                        )
                    } else {
                        arbitrary()
                    },
                    Parse::Failed { kind, at } => Parse::Failed { kind, at },
                }
            },
        }
    }
}

/// What follows an operand takes no token before `i` and none past the end.
pub proof fn lemma_operand_postfix_advances(ts: Seq<Lexeme>, i: int, base: Expr)
    requires
        i <= ts.len(),
    ensures
        operand_postfix(ts, i, base) matches Parse::Done { next, .. } ==> i <= next <= ts.len(),
{
    lemma_parsed_type_advances(ts, i + 1);
}

/// An operand takes at least one token, and none past the end.
pub proof fn lemma_operand_advances(ts: Seq<Lexeme>, i: int)
    ensures
        operand(ts, i) matches Parse::Done { next, .. } ==> i < next <= ts.len(),
    decreases ts.len() - i, 2int,
{
    reveal(operand);
    reveal(operand_prefix);
    lemma_skip_eols(ts, i);
    let j = skip_eols(ts, i);
    lemma_operand_prefix_advances(ts, j);
    match operand_prefix(ts, j) {
        Parse::Done { value, next } => {
            lemma_operand_postfix_advances(ts, next, value);
        },
        Parse::Failed { .. } => {},
    }
}

/// What [`operand_prefix`] reads takes at least one token, and none past the end.
pub proof fn lemma_operand_prefix_advances(ts: Seq<Lexeme>, i: int)
    ensures
        operand_prefix(ts, i) matches Parse::Done { next, .. } ==> i < next <= ts.len(),
    decreases ts.len() - i, 1int,
{
    reveal(operand_prefix);
    reveal(operand);
    reveal(proc_call);
    match prefix_operator(lexeme_at(ts, i)) {
        Some(_) => {
            lemma_operand_advances(ts, i + 1);
        },
        None => {
            if lexeme_at(ts, i) is Ident && lexeme_at(ts, i + 1) == Lexeme::Punct(Punct::LParen) {
                lemma_proc_call_advances(ts, i);
            }
        },
    }
}

/// A call takes at least one token, and none past the end.
pub proof fn lemma_proc_call_advances(ts: Seq<Lexeme>, i: int)
    ensures
        proc_call(ts, i) matches Parse::Done { next, .. } ==> i < next <= ts.len(),
    decreases ts.len() - i, 0int,
{
    reveal(proc_call);
    reveal(argument_list);
    if lexeme_at(ts, i) is Ident {
        lemma_argument_list_advances(ts, i + 1);
    }
}

/// What [`argument_list`] reads takes at least one token, and none past the end.
pub proof fn lemma_argument_list_advances(ts: Seq<Lexeme>, i: int)
    ensures
        argument_list(ts, i) matches Parse::Done { next, .. } ==> i < next <= ts.len(),
    decreases ts.len() - i, 0int,
{
    reveal(argument_list);
    reveal(arguments);
    if lexeme_at(ts, i) == Lexeme::Punct(Punct::LParen) {
        lemma_arguments_advance(ts, i + 1, Seq::empty());
    }
}

/// What [`argument`] reads takes at least one token, and none past the end.
pub proof fn lemma_argument_advances(ts: Seq<Lexeme>, i: int)
    ensures
        argument(ts, i) matches Parse::Done { next, .. } ==> i < next <= ts.len(),
    decreases ts.len() - i, 0int,
{
    reveal(argument);
    reveal(expression);
    if lexeme_at(ts, i) is Ident && lexeme_at(ts, i + 1) == Lexeme::Punct(Punct::Colon) {
        if lexeme_at(ts, i + 2) == Lexeme::Punct(Punct::Comma) || lexeme_at(ts, i + 2)
            == Lexeme::Punct(Punct::RParen) {
        } else {
            lemma_expression_advances(ts, i + 2, false, true);
        }
    }
}

/// What [`arguments`] reads takes at least one token, and none past the end.
pub proof fn lemma_arguments_advance(ts: Seq<Lexeme>, i: int, seen: Seq<VarDecl>)
    ensures
        arguments(ts, i, seen) matches Parse::Done { next, .. } ==> i < next <= ts.len(),
    decreases ts.len() - i, 1int,
{
    reveal(arguments);
    reveal(argument);
    if lexeme_at(ts, i) != Lexeme::Punct(Punct::RParen) {
        lemma_argument_advances(ts, i);
        match argument(ts, i) {
            Parse::Done { value, next } => {
                if lexeme_at(ts, next) == Lexeme::Punct(Punct::Comma) {
                    lemma_arguments_advance(ts, next + 1, seen.push(value));
                }
            },
            Parse::Failed { .. } => {},
        }
    }
}

/// An expression takes at least one token, and none past the end.
pub proof fn lemma_expression_advances(
    ts: Seq<Lexeme>,
    i: int,
    can_assign: bool,
    allow_newlines: bool,
)
    ensures
        expression(ts, i, can_assign, allow_newlines) matches Parse::Done { next, .. } ==> i < next
            <= ts.len(),
    decreases ts.len() - i, 3int,
{
    reveal(expression);
    reveal(operand);
    reveal(expression_tail);
    lemma_operand_advances(ts, i);
    match operand(ts, i) {
        Parse::Done { value, next } => {
            lemma_expression_tail_advances(
                ts,
                next,
                can_assign,
                allow_newlines,
                seq![value],
                Seq::empty(),
            );
        },
        Parse::Failed { .. } => {},
    }
}

/// What [`expression_tail`] reads takes no token before `i`, and none past the end.
pub proof fn lemma_expression_tail_advances(
    ts: Seq<Lexeme>,
    i: int,
    can_assign: bool,
    allow_newlines: bool,
    operands: Seq<Expr>,
    ops: Seq<BinaryOperator>,
)
    requires
        i <= ts.len(),
    ensures
        expression_tail(ts, i, can_assign, allow_newlines, operands, ops) matches Parse::Done {
            next,
            ..
        } ==> i <= next <= ts.len(),
    decreases ts.len() - i, 3int,
{
    reveal(expression_tail);
    reveal(operand);
    lemma_skip_eols(ts, i);
    let j = skip_eols(ts, i);
    match binary_operator(lexeme_at(ts, j)) {
        None => {},
        Some(op) => {
            lemma_operand_advances(ts, j + 1);
            match operand(ts, j + 1) {
                Parse::Done { value, next } => {
                    lemma_expression_tail_advances(
                        ts,
                        next,
                        can_assign,
                        allow_newlines,
                        operands.push(value),
                        ops.push(op),
                    );
                },
                Parse::Failed { .. } => {},
            }
        },
    }
}

/// The bound that an opening bracket sets: a square bracket includes it, a
/// parenthesis excludes it.
pub open spec fn lower_bound(lexeme: Lexeme) -> Option<RangeExprBound> {
    match lexeme {
        Lexeme::Punct(Punct::LSquare) => Some(RangeExprBound::Inclusive),
        Lexeme::Punct(Punct::LParen) => Some(RangeExprBound::Exclusive),
        _ => None,
    }
}

/// The bound that a closing bracket sets.
pub open spec fn upper_bound(lexeme: Lexeme) -> Option<RangeExprBound> {
    match lexeme {
        Lexeme::Punct(Punct::RSquare) => Some(RangeExprBound::Inclusive),
        Lexeme::Punct(Punct::RParen) => Some(RangeExprBound::Exclusive),
        _ => None,
    }
}

/// The rest of a range from `i` on, after its opening bracket and its first
/// value: `..`, the last value, and the closing bracket.
pub open spec fn range_end(
    ts: Seq<Lexeme>,
    i: int,
    lower: RangeExprBound,
    start: Expr,
) -> Parse<Expr> {
    if lexeme_at(ts, i) != Lexeme::Punct(Punct::DotDot) {
        Parse::Failed { kind: ParseErrorKind::ExpectedDotDot, at: i }
    } else {
        match expression(ts, i + 1, false, true) {
            Parse::Done { value, next } => match upper_bound(lexeme_at(ts, next)) {
                Some(upper) => Parse::Done {
                    value: Expr::Range(lower, Box::new(start), Box::new(value), upper),
                    next: next + 1,
                },
                None => Parse::Failed { kind: ParseErrorKind::ExpectedRangeEnd, at: next },
            },
            Parse::Failed { kind, at } => Parse::Failed { kind, at },
        }
    }
}

/// A range from `i` on, after end-of-line tokens: `[` or `(`, the first
/// value, `..`, the last value, `]` or `)`.
pub open spec fn range_expression(ts: Seq<Lexeme>, i: int) -> Parse<Expr> {
    let j = skip_eols(ts, i);
    match lower_bound(lexeme_at(ts, j)) {
        Some(lower) => match expression(ts, j + 1, false, true) {
            Parse::Done { value, next } => range_end(ts, next, lower, value),
            Parse::Failed { kind, at } => Parse::Failed { kind, at },
        },
        None => Parse::Failed { kind: ParseErrorKind::ExpectedRangeStart, at: j },
    }
}

/// A range takes at least one token, and none past the end.
pub proof fn lemma_range_expression_advances(ts: Seq<Lexeme>, i: int)
    ensures
        range_expression(ts, i) matches Parse::Done { next, .. } ==> i < next <= ts.len(),
{
    lemma_skip_eols(ts, i);
    let j = skip_eols(ts, i);
    lemma_expression_advances(ts, j + 1, false, true);
    match expression(ts, j + 1, false, true) {
        Parse::Done { next: k, .. } => {
            lemma_expression_advances(ts, k + 1, false, true);
        },
        Parse::Failed { .. } => {},
    }
}

} // verus!
