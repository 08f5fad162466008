//! Operands, operators and expressions.

use vstd::prelude::*;
use crate::ast::{
    BinaryOperator,
    ParsedExpression,
    ParsedProcCall,
    ParsedType,
    ParsedVarDecl,
    RangeExprBound,
    UnaryOperator,
};
use crate::error::{ParseError, ParseErrorKind, Unsupported};
use crate::grammar::expressions::{
    argument,
    argument_list,
    arguments,
    binary_operator,
    expression,
    expression_tail,
    lemma_argument_advances,
    lemma_operand_advances,
    operand,
    operand_postfix,
    operand_prefix,
    operator,
    prefix_operator,
    proc_call,
    range_end,
    range_expression,
};
use crate::grammar::{lemma_skip_eols, lexeme_at, skip_eols, Parse};

use crate::model::{
    lemma_views_push,
    views,
    Expr,
};
use crate::parser::{agrees, lists, Parser};
use crate::precedence::{
    all_at_least,
    lemma_fold,
    lemma_push,
    lemma_stacked_one,
    resolve,
    stacked,
};
use crate::token::{Keyword, Lexeme, Punct, Token};

verus! {

/// The binary operator that a punctuation stands for, if any.
fn operator_of(punct: Punct) -> (r: Option<BinaryOperator>)
    ensures
        r == binary_operator(Lexeme::Punct(punct)),
{
    match punct {
        Punct::Plus => Some(BinaryOperator::Add),
        Punct::Minus => Some(BinaryOperator::Subtract),
        Punct::Star => Some(BinaryOperator::Multiply),
        Punct::Slash => Some(BinaryOperator::Divide),
        Punct::Percent => Some(BinaryOperator::Modulo),
        Punct::DoubleAmpersand => Some(BinaryOperator::LogicalAnd),
        Punct::DoublePipe => Some(BinaryOperator::LogicalOr),
        Punct::DoubleCaret => Some(BinaryOperator::LogicalXOR),
        Punct::NEQ => Some(BinaryOperator::NEQ),
        Punct::EQ => Some(BinaryOperator::EQ),
        Punct::LAngle => Some(BinaryOperator::LT),
        Punct::RAngle => Some(BinaryOperator::GT),
        Punct::LEQ => Some(BinaryOperator::LEQ),
        Punct::GEQ => Some(BinaryOperator::GEQ),
        Punct::Ampersand => Some(BinaryOperator::BitwiseAnd),
        Punct::Pipe => Some(BinaryOperator::BitwiseOr),
        Punct::Caret => Some(BinaryOperator::BitwiseXOR),
        Punct::LShift => Some(BinaryOperator::BitwiseLeftShift),
        Punct::RShift => Some(BinaryOperator::BitwiseRightShift),
        Punct::Assign => Some(BinaryOperator::Assign),
        Punct::PlusAssign => Some(BinaryOperator::AddAssign),
        Punct::MinusAssign => Some(BinaryOperator::SubtractAssign),
        Punct::StarAssign => Some(BinaryOperator::MultiplyAssign),
        Punct::SlashAssign => Some(BinaryOperator::DivideAssign),
        Punct::PercentAssign => Some(BinaryOperator::ModuloAssign),
        Punct::AmpersandAssign => Some(BinaryOperator::AndAssign),
        Punct::PipeAssign => Some(BinaryOperator::OrAssign),
        Punct::CaretAssign => Some(BinaryOperator::XORAssign),
        Punct::LShiftAssign => Some(BinaryOperator::LeftShiftAssign),
        Punct::RShiftAssign => Some(BinaryOperator::RightShiftAssign),
        _ => None,
    }
}

/// The prefix operator that a punctuation stands for, if any.
fn prefix_of(punct: Punct) -> (r: Option<UnaryOperator>)
    ensures
        match prefix_operator(Lexeme::Punct(punct)) {
            Some(op) => r matches Some(found) && found@ == op,
            None => r is None,
        },
{
    match punct {
        Punct::LAngle => Some(UnaryOperator::Dereference),
        Punct::Ampersand => Some(UnaryOperator::AddressOf),
        Punct::Bang => Some(UnaryOperator::LogicalNot),
        Punct::Tilde => Some(UnaryOperator::BitwiseNot),
        Punct::PlusPlus => Some(UnaryOperator::PreIncrement),
        Punct::MinusMinus => Some(UnaryOperator::PreDecrement),
        _ => None,
    }
}

/// Replaces the two topmost operands by the operation that the topmost
/// pending operator makes of them.
fn fold_top(stack: &mut Vec<ParsedExpression>, pending: &mut Vec<BinaryOperator>)
    requires
        old(pending)@.len() >= 1,
        old(stack)@.len() == old(pending)@.len() + 1,
    ensures
        final(pending)@ == old(pending)@.take(old(pending)@.len() - 1),
        views(final(stack)@) == views(old(stack)@).take(old(stack)@.len() - 2).push(
            Expr::BinaryOperation(
                Box::new(old(stack)@[old(stack)@.len() - 2]@),
                old(pending)@.last(),
                Box::new(old(stack)@.last()@),
            ),
        ),
        final(stack)@.len() == old(stack)@.len() - 1,
{
    let ghost before = stack@;
    let rhs = stack.pop().unwrap();
    let op = pending.pop().unwrap();
    let lhs = stack.pop().unwrap();
    let folded = ParsedExpression::binary(lhs, op, rhs);
    stack.push(folded);
    assert(views(stack@) =~= views(before).take(before.len() - 2).push(folded@));
    assert(pending@ =~= old(pending)@.take(old(pending)@.len() - 1));
}

impl Parser {
    /// The punctuation at the cursor, if the token there is one.
    fn punct_here(&self) -> (r: Option<Punct>)
        ensures
            r == (match lexeme_at(self.lexemes(), self.idx as int) {
                Lexeme::Punct(punct) => Some(punct),
                _ => None,
            }),
            self.token_stream@.len() <= usize::MAX,
    {
        match self.current() {
            Some(token) => token.punct(),
            None => None,
        }
    }

    /// The literal that the token at the cursor holds, if it is one.
    fn literal(&self) -> (r: Option<ParsedExpression>)
        ensures
            match lexeme_at(self.lexemes(), self.idx as int) {
                Lexeme::Str(text) => r matches Some(e) && e@ == Expr::StringLiteral(text),
                Lexeme::Char(value) => r matches Some(e) && e@ == Expr::CharLiteral(value),
                Lexeme::Bool(value) => r matches Some(e) && e@ == Expr::Bool(value),
                Lexeme::Number(constant) => r matches Some(e) && e@ == Expr::NumericConstant(
                    constant,
                ),
                _ => r is None,
            },
            self.token_stream@.len() <= usize::MAX,
    {
        match self.current() {
            Some(Token::StringLiteral(_, text)) => Some(
                ParsedExpression::StringLiteral(text.clone()),
            ),
            Some(Token::CharLiteral(_, value)) => Some(ParsedExpression::CharLiteral(*value)),
            Some(Token::BooleanLiteral(_, value)) => Some(ParsedExpression::Bool(*value)),
            Some(Token::Number(_, constant)) => Some(
                ParsedExpression::NumericConstant(constant.duplicate()),
            ),
            _ => None,
        }
    }

    /// Reads what may follow the operand `base`: `++`, `--`, or `as` and a
    /// type. `<` there is kept for indexing and is an error; before any
    /// other token `base` is the operand.
    pub fn parse_operand_postfix(&mut self, base: ParsedExpression) -> (r: Result<
        ParsedExpression,
        ParseError,
    >)
        ensures
            final(self).token_stream == old(self).token_stream,
            agrees(
                r,
                final(self).idx,
                operand_postfix(old(self).lexemes(), old(self).idx as int, base@),
            ),
    {
        if self.is_punct(0, Punct::PlusPlus) {
            self.advance(1);
            Ok(ParsedExpression::unary(base, UnaryOperator::PostIncrement))
        } else if self.is_punct(0, Punct::MinusMinus) {
            self.advance(1);
            Ok(ParsedExpression::unary(base, UnaryOperator::PostDecrement))
        } else if self.is_keyword(0, Keyword::As) {
            self.advance(1);
            match self.parse_type_name() {
                Ok(target) => Ok(ParsedExpression::unary(base, UnaryOperator::type_cast(target))),
                Err(e) => Err(e),
            }
        } else if self.is_punct(0, Punct::LAngle) {
            Err(
                ParseError { kind: ParseErrorKind::Unsupported(Unsupported::Indexing), at: self.idx },
            )
        } else {
            Ok(base)
        }
    }

    /// Reads one operand: end-of-line tokens, then prefix operators and an
    /// atom, then what may follow it.
    pub fn parse_operand(&mut self) -> (r: Result<ParsedExpression, ParseError>)
        ensures
            final(self).token_stream == old(self).token_stream,
            agrees(r, final(self).idx, operand(old(self).lexemes(), old(self).idx as int)),
        decreases old(self).token_stream@.len() - old(self).idx, 2int,
    {
        proof {
            reveal(operand);
            reveal(operand_prefix);
        }
        proof {
            lemma_skip_eols(self.lexemes(), self.idx as int);
        }
        self.eat_newlines();
        match self.parse_operand_prefix() {
            Ok(base) => self.parse_operand_postfix(base),
            Err(e) => Err(e),
        }
    }

    /// Reads a prefix operator and the operand it applies to, or an atom:
    /// a literal, a call, or a variable. Where an operand is expected `<`
    /// dereferences.
    pub fn parse_operand_prefix(&mut self) -> (r: Result<ParsedExpression, ParseError>)
        ensures
            final(self).token_stream == old(self).token_stream,
            agrees(r, final(self).idx, operand_prefix(old(self).lexemes(), old(self).idx as int)),
        decreases old(self).token_stream@.len() - old(self).idx, 1int,
    {
        proof {
            reveal(operand_prefix);
            reveal(operand);
            reveal(proc_call);
        }
        let prefix = match self.punct_here() {
            Some(punct) => prefix_of(punct),
            None => None,
        };
        match prefix {
            Some(op) => {
                self.advance(1);
                return match self.parse_operand() {
                    Ok(inner) => Ok(ParsedExpression::unary(inner, op)),
                    Err(e) => Err(e),
                };
            },
            None => {},
        }
        match self.literal() {
            Some(value) => {
                self.advance(1);
                return Ok(value);
            },
            None => {},
        }
        match self.ident(0) {
            Some(name) => {
                if self.is_punct(1, Punct::LParen) {
                    match self.parse_proc_call() {
                        Ok(call) => Ok(ParsedExpression::call(call)),
                        Err(e) => Err(e),
                    }
                } else {
                    self.advance(1);
                    Ok(ParsedExpression::Var(name))
                }
            },
            None => {
                if self.is_keyword(0, Keyword::Match) {
                    Err(
                        ParseError {
                            kind: ParseErrorKind::Unsupported(Unsupported::MatchExpression),
                            at: self.idx,
                        },
                    )
                } else {
                    Err(ParseError { kind: ParseErrorKind::ExpectedOperand, at: self.idx })
                }
            },
        }
    }

    /// Reads a call: the name of a procedure and its arguments in
    /// parentheses.
    pub fn parse_proc_call(&mut self) -> (r: Result<ParsedProcCall, ParseError>)
        ensures
            final(self).token_stream == old(self).token_stream,
            agrees(r, final(self).idx, proc_call(old(self).lexemes(), old(self).idx as int)),
        decreases old(self).token_stream@.len() - old(self).idx, 0int,
    {
        proof {
            reveal(proc_call);
            reveal(argument_list);
        }
        let name = match self.ident(0) {
            Some(name) => name,
            None => {
                return Err(ParseError { kind: ParseErrorKind::ExpectedIdentifier, at: self.idx });
            },
        };
        self.advance(1);
        match self.parse_param_list_usage() {
            Ok(arguments) => Ok(ParsedProcCall::new(name, arguments)),
            Err(e) => Err(e),
        }
    }

    /// Reads one argument of a call: `label: value`. A label with its colon
    /// and no value before a comma or the closing parenthesis passes
    /// `Invalid`. No argument carries a type.
    pub fn parse_argument(&mut self) -> (r: Result<ParsedVarDecl, ParseError>)
        ensures
            final(self).token_stream == old(self).token_stream,
            agrees(r, final(self).idx, argument(old(self).lexemes(), old(self).idx as int)),
        decreases old(self).token_stream@.len() - old(self).idx, 0int,
    {
        proof {
            reveal(argument);
            reveal(expression);
        }
        let label = match self.ident(0) {
            Some(label) => label,
            None => {
                return Err(ParseError { kind: ParseErrorKind::ExpectedArgument, at: self.idx });
            },
        };
        if !self.is_punct(1, Punct::Colon) {
            self.advance(1);
            return Err(ParseError { kind: ParseErrorKind::ExpectedColon, at: self.idx });
        }
        self.advance(2);
        if self.is_punct(0, Punct::Comma) || self.is_punct(0, Punct::RParen) {
            return Ok(ParsedVarDecl::new(ParsedType::unwritten(), label, ParsedExpression::Invalid));
        }
        match self.parse_expression(false, true) {
            Ok(value) => Ok(ParsedVarDecl::new(ParsedType::unwritten(), label, value)),
            Err(e) => Err(e),
        }
    }

    /// Reads the arguments of a call, from the opening parenthesis to the
    /// closing one. Every argument carries the name of its parameter; none
    /// is passed by position. Commas separate the arguments, and one may
    /// stand before the closing parenthesis.
    pub fn parse_param_list_usage(&mut self) -> (r: Result<Vec<ParsedVarDecl>, ParseError>)
        ensures
            final(self).token_stream == old(self).token_stream,
            lists(r, final(self).idx, argument_list(old(self).lexemes(), old(self).idx as int)),
        decreases old(self).token_stream@.len() - old(self).idx, 1int,
    {
        proof {
            reveal(argument_list);
            reveal(arguments);
            reveal(argument);
        }
        if !self.is_punct(0, Punct::LParen) {
            return Err(ParseError { kind: ParseErrorKind::ExpectedLParen, at: self.idx });
        }
        self.advance(1);
        let mut params: Vec<ParsedVarDecl> = Vec::new();
        assert(views(params@) =~= Seq::empty());
        loop
            invariant
                self.token_stream == old(self).token_stream,
                old(self).idx < self.idx <= self.token_stream@.len(),
                argument_list(old(self).lexemes(), old(self).idx as int) == arguments(
                    self.lexemes(),
                    self.idx as int,
                    views(params@),
                ),
            decreases self.token_stream@.len() - self.idx,
        {
            proof {
                reveal(arguments);
                reveal(argument);
            }
            if self.is_punct(0, Punct::RParen) {
                self.advance(1);
                return Ok(params);
            }
            proof {
                lemma_argument_advances(self.lexemes(), self.idx as int);
            }
            let argument = match self.parse_argument() {
                Ok(argument) => argument,
                Err(e) => {
                    return Err(e);
                },
            };
            proof {
                lemma_views_push(params@, argument);
            }
            if self.is_punct(0, Punct::Comma) {
                params.push(argument);
                self.advance(1);
            } else if self.is_punct(0, Punct::RParen) {
                params.push(argument);
                self.advance(1);
                return Ok(params);
            } else {
                return Err(
                    ParseError { kind: ParseErrorKind::ExpectedCommaOrRParen, at: self.idx },
                );
            }
        }
    }

    /// The binary operator at the cursor, after end-of-line tokens, or
    /// `None` where no binary operator stands there; then the cursor stays
    /// before that token.
    fn next_operator(&mut self, can_assign: bool) -> (r: Result<Option<BinaryOperator>, ParseError>)
        ensures
            final(self).token_stream == old(self).token_stream,
            ({
                let j = skip_eols(old(self).lexemes(), old(self).idx as int);
                match binary_operator(lexeme_at(old(self).lexemes(), j)) {
                    None => r == Ok::<Option<BinaryOperator>, ParseError>(None) && final(self).idx
                        == j,
                    Some(op) => if op.spec_is_assignment() && !can_assign {
                        r == Err::<Option<BinaryOperator>, ParseError>(
                            ParseError { kind: ParseErrorKind::AssignmentNotAllowed, at: j as usize },
                        ) && final(self).idx == j
                    } else {
                        r == Ok::<Option<BinaryOperator>, ParseError>(Some(op)) && final(self).idx
                            == j + 1
                    },
                }
            }),
    {
        self.eat_newlines();
        let found = match self.punct_here() {
            Some(punct) => operator_of(punct),
            None => None,
        };
        match found {
            Some(op) => {
                if op.is_assignment() && !can_assign {
                    Err(ParseError { kind: ParseErrorKind::AssignmentNotAllowed, at: self.idx })
                } else {
                    self.advance(1);
                    Ok(Some(op))
                }
            },
            None => Ok(None),
        }
    }

    /// Reads a binary operator, after end-of-line tokens, as a bare
    /// operator. Where no binary operator stands at the cursor the result is
    /// the operator `Invalid` and the cursor stays before that token. An
    /// assignment operator is an error unless `can_assign`.
    pub fn parse_operator(&mut self, can_assign: bool) -> (r: Result<ParsedExpression, ParseError>)
        ensures
            final(self).token_stream == old(self).token_stream,
            agrees(
                r,
                final(self).idx,
                operator(old(self).lexemes(), old(self).idx as int, can_assign),
            ),
    {
        match self.next_operator(can_assign) {
            Ok(Some(op)) => Ok(ParsedExpression::Operator(op)),
            Ok(None) => Ok(ParsedExpression::Operator(BinaryOperator::Invalid)),
            Err(e) => Err(e),
        }
    }

    /// Reads an expression: operands with binary operators between them.
    ///
    /// The tree groups them by priority: an operator that binds tighter
    /// takes its operands first, and operators of one priority group from
    /// the left. An assignment operator is an error unless `can_assign`.
    /// With `allow_newlines` the expression goes on over end-of-line tokens
    /// and ends before `{`; without, it ends at the end of the line.
    pub fn parse_expression(&mut self, can_assign: bool, allow_newlines: bool) -> (r: Result<
        ParsedExpression,
        ParseError,
    >)
        ensures
            final(self).token_stream == old(self).token_stream,
            agrees(
                r,
                final(self).idx,
                expression(old(self).lexemes(), old(self).idx as int, can_assign, allow_newlines),
            ),
        decreases old(self).token_stream@.len() - old(self).idx, 3int,
    {
        proof {
            reveal(expression);
            reveal(operand);
            reveal(expression_tail);
        }
        let ghost ts = self.lexemes();
        proof {
            lemma_operand_advances(ts, self.idx as int);
        }
        let first = match self.parse_operand() {
            Ok(first) => first,
            Err(e) => {
                return Err(e);
            },
        };
        let ghost mut operands: Seq<Expr> = seq![first@];
        let ghost mut ops: Seq<BinaryOperator> = Seq::empty();
        let ghost mut starts: Seq<int> = seq![0int];
        let mut stack: Vec<ParsedExpression> = Vec::new();
        let mut pending: Vec<BinaryOperator> = Vec::new();
        stack.push(first);
        assert(views(stack@) =~= seq![first@]);
        loop
            invariant
                self.token_stream == old(self).token_stream,
                ts == self.lexemes(),
                old(self).idx < self.idx <= self.token_stream@.len(),
                expression(ts, old(self).idx as int, can_assign, allow_newlines) == expression_tail(
                    ts,
                    self.idx as int,
                    can_assign,
                    allow_newlines,
                    operands,
                    ops,
                ),
                operands.len() == ops.len() + 1,
                stack@.len() == pending@.len() + 1,
                starts.len() == stack@.len(),
                stacked(
                    views(stack@),
                    pending@,
                    starts,
                    operands,
                    ops,
                    stack@.len() as int,
                    ops.len() as int,
                ),
                starts.last() == ops.len(),
            ensures
                self.token_stream == old(self).token_stream,
                expression(ts, old(self).idx as int, can_assign, allow_newlines) == (Parse::Done {
                    value: resolve(operands, ops),
                    next: self.idx as int,
                }),
                operands.len() == ops.len() + 1,
                stack@.len() == pending@.len() + 1,
                starts.len() == stack@.len(),
                stacked(
                    views(stack@),
                    pending@,
                    starts,
                    operands,
                    ops,
                    stack@.len() as int,
                    ops.len() as int,
                ),
            decreases self.token_stream@.len() - self.idx,
        {
            proof {
                reveal(expression_tail);
                reveal(operand);
            }
            if allow_newlines {
                if self.is_eof() || self.is_punct(0, Punct::LCurly) {
                    break ;
                }
            } else if self.is_eol() {
                break ;
            }
            proof {
                lemma_skip_eols(ts, self.idx as int);
            }
            let op = match self.next_operator(can_assign) {
                Ok(Some(op)) => op,
                Ok(None) => {
                    break ;
                },
                Err(e) => {
                    return Err(e);
                },
            };
            proof {
                lemma_operand_advances(ts, self.idx as int);
            }
            let rhs = match self.parse_operand() {
                Ok(rhs) => rhs,
                Err(e) => {
                    return Err(e);
                },
            };
            while pending.len() > 0 && pending[pending.len() - 1].priority() >= op.priority()
                invariant
                    operands.len() == ops.len() + 1,
                    stack@.len() == pending@.len() + 1,
                    starts.len() == stack@.len(),
                    stacked(
                        views(stack@),
                        pending@,
                        starts,
                        operands,
                        ops,
                        stack@.len() as int,
                        ops.len() as int,
                    ),
                    all_at_least(ops, starts.last(), ops.len() as int, op.spec_priority() as int),
                decreases pending@.len(),
            {
                proof {
                    lemma_fold(
                        views(stack@),
                        pending@,
                        starts,
                        operands,
                        ops,
                        stack@.len() as int,
                        ops.len() as int,
                        op.spec_priority() as int,
                    );
                    starts = starts.take(starts.len() - 1);
                }
                fold_top(&mut stack, &mut pending);
            }
            proof {
                lemma_push(
                    views(stack@),
                    pending@,
                    starts,
                    operands,
                    ops,
                    stack@.len() as int,
                    op,
                    rhs@,
                );
                lemma_views_push(stack@, rhs);
                starts = starts.push(ops.len() as int + 1);
                operands = operands.push(rhs@);
                ops = ops.push(op);
            }
            stack.push(rhs);
            pending.push(op);
        }
        while pending.len() > 0
            invariant
                operands.len() == ops.len() + 1,
                stack@.len() == pending@.len() + 1,
                starts.len() == stack@.len(),
                stacked(
                    views(stack@),
                    pending@,
                    starts,
                    operands,
                    ops,
                    stack@.len() as int,
                    ops.len() as int,
                ),
            decreases pending@.len(),
        {
            proof {
                let lowest = pending@.last().spec_priority() as int;
                assert(all_at_least(ops, starts.last(), ops.len() as int, lowest));
                lemma_fold(
                    views(stack@),
                    pending@,
                    starts,
                    operands,
                    ops,
                    stack@.len() as int,
                    ops.len() as int,
                    lowest,
                );
                starts = starts.take(starts.len() - 1);
            }
            fold_top(&mut stack, &mut pending);
        }
        proof {
            lemma_stacked_one(views(stack@), pending@, starts, operands, ops);
        }
        Ok(stack.pop().unwrap())
    }

    /// Reads the rest of a range, after its opening bracket and its first
    /// value: `..`, the last value, and the closing bracket.
    fn parse_range_end(&mut self, lower: RangeExprBound, start: ParsedExpression) -> (r: Result<
        ParsedExpression,
        ParseError,
    >)
        ensures
            final(self).token_stream == old(self).token_stream,
            agrees(
                r,
                final(self).idx,
                range_end(old(self).lexemes(), old(self).idx as int, lower, start@),
            ),
    {
        if !self.is_punct(0, Punct::DotDot) {
            return Err(ParseError { kind: ParseErrorKind::ExpectedDotDot, at: self.idx });
        }
        self.advance(1);
        let end = match self.parse_expression(false, true) {
            Ok(end) => end,
            Err(e) => {
                return Err(e);
            },
        };
        let upper = if self.is_punct(0, Punct::RSquare) {
            RangeExprBound::Inclusive
        } else if self.is_punct(0, Punct::RParen) {
            RangeExprBound::Exclusive
        } else {
            return Err(ParseError { kind: ParseErrorKind::ExpectedRangeEnd, at: self.idx });
        };
        self.advance(1);
        Ok(ParsedExpression::range(lower, start, end, upper))
    }

    /// Reads a range, after end-of-line tokens: `[` or `(`, the first
    /// value, `..`, the last value, `]` or `)`. A square bracket includes
    /// its bound, a parenthesis excludes it.
    pub fn parse_range_expression(&mut self) -> (r: Result<ParsedExpression, ParseError>)
        ensures
            final(self).token_stream == old(self).token_stream,
            agrees(r, final(self).idx, range_expression(old(self).lexemes(), old(self).idx as int)),
    {
        self.eat_newlines();
        let lower = if self.is_punct(0, Punct::LSquare) {
            RangeExprBound::Inclusive
        } else if self.is_punct(0, Punct::LParen) {
            RangeExprBound::Exclusive
        } else {
            return Err(ParseError { kind: ParseErrorKind::ExpectedRangeStart, at: self.idx });
        };
        self.advance(1);
        match self.parse_expression(false, true) {
            Ok(start) => self.parse_range_end(lower, start),
            Err(e) => Err(e),
        }
    }
}

} // verus!
