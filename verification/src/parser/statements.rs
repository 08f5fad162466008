//! Statements and blocks.

use vstd::prelude::*;
use crate::ast::{ParsedBlock, ParsedExpression, ParsedStatement, ParsedType, ParsedVarDecl};
use crate::error::{ParseError, ParseErrorKind};
use crate::grammar::expressions::{lemma_expression_advances, lemma_range_expression_advances};
use crate::grammar::statements::{
    block,
    block_items,
    expression_statement,
    for_statement,
    if_statement,
    lemma_block_advances,
    lemma_statement_advances,
    let_statement,
    otherwise,
    return_statement,
    statement,
    terminated,
    variable_value,
    while_statement,
};
use crate::grammar::{
    lemma_skip_eols,
    lexeme_at,
};
use crate::model::{
    lemma_views_push,
    views,
};
use crate::parser::{agrees, Parser};
use crate::token::{Keyword, Lexeme, Punct};

verus! {

impl Parser {
    /// The reserved word at the cursor, if the token there is one.
    fn keyword_here(&self) -> (r: Option<Keyword>)
        ensures
            r == (match lexeme_at(self.lexemes(), self.idx as int) {
                Lexeme::Keyword(keyword) => Some(keyword),
                _ => None,
            }),
            self.token_stream@.len() <= usize::MAX,
    {
        match self.current() {
            Some(token) => token.keyword(),
            None => None,
        }
    }

    /// Reads the `;` that ends the statement `value`.
    fn parse_terminator(&mut self, value: ParsedStatement) -> (r: Result<
        ParsedStatement,
        ParseError,
    >)
        ensures
            final(self).token_stream == old(self).token_stream,
            agrees(r, final(self).idx, terminated(old(self).lexemes(), old(self).idx as int, value@)),
    {
        if self.is_punct(0, Punct::Semicolon) {
            self.advance(1);
            Ok(value)
        } else {
            Err(ParseError { kind: ParseErrorKind::ExpectedSemicolon, at: self.idx })
        }
    }

    /// Reads the value of the variable `name` of type `declared` and the `;`
    /// that ends its declaration.
    fn parse_variable_value(&mut self, declared: ParsedType, name: String) -> (r: Result<
        ParsedStatement,
        ParseError,
    >)
        ensures
            final(self).token_stream == old(self).token_stream,
            agrees(
                r,
                final(self).idx,
                variable_value(old(self).lexemes(), old(self).idx as int, declared@, name@),
            ),
    {
        match self.parse_expression(false, true) {
            Ok(value) => {
                let declaration = ParsedVarDecl::new(declared, name, value);
                self.parse_terminator(ParsedStatement::declare(declaration))
            },
            Err(e) => Err(e),
        }
    }

    /// Reads the declaration of a variable at `let`: `let name := value;`,
    /// which leaves the type unwritten, or `let name: Type = value;`.
    fn parse_let(&mut self) -> (r: Result<ParsedStatement, ParseError>)
        requires
            lexeme_at(old(self).lexemes(), old(self).idx as int) == Lexeme::Keyword(Keyword::Let),
        ensures
            final(self).token_stream == old(self).token_stream,
            agrees(r, final(self).idx, let_statement(old(self).lexemes(), old(self).idx as int)),
    {
        let name = match self.ident(1) {
            Some(name) => name,
            None => {
                self.advance(1);
                return Err(ParseError { kind: ParseErrorKind::ExpectedIdentifier, at: self.idx });
            },
        };
        if self.is_punct(2, Punct::ColonAssign) {
            self.advance(3);
            self.parse_variable_value(ParsedType::unwritten(), name)
        } else if self.is_punct(2, Punct::Colon) {
            self.advance(3);
            let declared = match self.parse_type_name() {
                Ok(declared) => declared,
                Err(e) => {
                    return Err(e);
                },
            };
            if !self.is_punct(0, Punct::Assign) {
                return Err(ParseError { kind: ParseErrorKind::ExpectedAssign, at: self.idx });
            }
            self.advance(1);
            self.parse_variable_value(declared, name)
        } else {
            self.advance(2);
            Err(ParseError { kind: ParseErrorKind::ExpectedColonOrColonAssign, at: self.idx })
        }
    }

    /// Reads `return value;` at `return`.
    fn parse_return(&mut self) -> (r: Result<ParsedStatement, ParseError>)
        requires
            lexeme_at(old(self).lexemes(), old(self).idx as int) == Lexeme::Keyword(
                Keyword::Return,
            ),
        ensures
            final(self).token_stream == old(self).token_stream,
            agrees(r, final(self).idx, return_statement(old(self).lexemes(), old(self).idx as int)),
    {
        self.advance(1);
        match self.parse_expression(false, true) {
            Ok(value) => self.parse_terminator(ParsedStatement::Return(value)),
            Err(e) => Err(e),
        }
    }

    /// Reads an expression as a statement: `value;`. An assignment may
    /// stand in it.
    fn parse_expression_statement(&mut self) -> (r: Result<ParsedStatement, ParseError>)
        ensures
            final(self).token_stream == old(self).token_stream,
            agrees(
                r,
                final(self).idx,
                expression_statement(old(self).lexemes(), old(self).idx as int),
            ),
    {
        match self.parse_expression(true, true) {
            Ok(value) => self.parse_terminator(ParsedStatement::Expr(value)),
            Err(e) => Err(e),
        }
    }

    /// Reads one statement, chosen by its first token: `let`, `if`, `for`,
    /// `while`, `loop`, `continue`, `break`, `return`, or else an expression
    /// with the `;` after it. Only in an expression statement may an
    /// assignment stand.
    pub fn parse_statement(&mut self) -> (r: Result<ParsedStatement, ParseError>)
        ensures
            final(self).token_stream == old(self).token_stream,
            agrees(r, final(self).idx, statement(old(self).lexemes(), old(self).idx as int)),
        decreases old(self).token_stream@.len() - old(self).idx, 2int,
    {
        proof {
            reveal(statement);
            reveal(if_statement);
            reveal(for_statement);
            reveal(while_statement);
            reveal(block);
        }
        match self.keyword_here() {
            Some(Keyword::Let) => self.parse_let(),
            Some(Keyword::If) => self.parse_if(),
            Some(Keyword::For) => self.parse_for(),
            Some(Keyword::While) => self.parse_while(),
            Some(Keyword::Loop) => {
                self.advance(1);
                match self.parse_block() {
                    Ok(body) => Ok(ParsedStatement::InfiniteLoop(body)),
                    Err(e) => Err(e),
                }
            },
            Some(Keyword::Continue) => {
                self.advance(1);
                self.parse_terminator(ParsedStatement::Continue)
            },
            Some(Keyword::Break) => {
                self.advance(1);
                self.parse_terminator(ParsedStatement::Break)
            },
            Some(Keyword::Return) => self.parse_return(),
            _ => self.parse_expression_statement(),
        }
    }

    /// Reads `if condition { .. }` at `if`, and the `else` after it if there
    /// is one.
    fn parse_if(&mut self) -> (r: Result<ParsedStatement, ParseError>)
        requires
            lexeme_at(old(self).lexemes(), old(self).idx as int) == Lexeme::Keyword(Keyword::If),
        ensures
            final(self).token_stream == old(self).token_stream,
            agrees(r, final(self).idx, if_statement(old(self).lexemes(), old(self).idx as int)),
        decreases old(self).token_stream@.len() - old(self).idx, 1int,
    {
        proof {
            reveal(if_statement);
            reveal(block);
            reveal(otherwise);
        }
        proof {
            lemma_expression_advances(self.lexemes(), self.idx + 1, false, true);
        }
        self.advance(1);
        let condition = match self.parse_expression(false, true) {
            Ok(condition) => condition,
            Err(e) => {
                return Err(e);
            },
        };
        proof {
            lemma_block_advances(self.lexemes(), self.idx as int);
        }
        let then_block = match self.parse_block() {
            Ok(then_block) => then_block,
            Err(e) => {
                return Err(e);
            },
        };
        self.parse_else(condition, then_block)
    }

    /// Reads what follows the block of an `if`: nothing, or, after
    /// end-of-line tokens, `else` with another `if` or with a block. It
    /// looks ahead over the end-of-line tokens: where no `else` follows
    /// them, the cursor does not move.
    fn parse_else(&mut self, condition: ParsedExpression, then_block: ParsedBlock) -> (r: Result<
        ParsedStatement,
        ParseError,
    >)
        requires
            old(self).idx <= old(self).token_stream@.len(),
        ensures
            final(self).token_stream == old(self).token_stream,
            agrees(
                r,
                final(self).idx,
                otherwise(old(self).lexemes(), old(self).idx as int, condition@, then_block@),
            ),
        decreases old(self).token_stream@.len() - old(self).idx, 0int,
    {
        proof {
            reveal(otherwise);
            reveal(if_statement);
            reveal(block);
        }
        let ahead = self.newlines_ahead();
        if !self.is_keyword(ahead, Keyword::Else) {
            return Ok(ParsedStatement::conditional(condition, then_block, None));
        }
        let nested = self.is_keyword(ahead + 1, Keyword::If);
        self.advance(ahead + 1);
        if nested {
            match self.parse_if() {
                Ok(branch) => Ok(ParsedStatement::conditional(condition, then_block, Some(branch))),
                Err(e) => Err(e),
            }
        } else {
            match self.parse_block() {
                Ok(branch) => Ok(
                    ParsedStatement::conditional(
                        condition,
                        then_block,
                        Some(ParsedStatement::Block(branch)),
                    ),
                ),
                Err(e) => Err(e),
            }
        }
    }

    /// Reads `for name in range { .. }` at `for`. The loop variable has no
    /// written type and no value.
    fn parse_for(&mut self) -> (r: Result<ParsedStatement, ParseError>)
        requires
            lexeme_at(old(self).lexemes(), old(self).idx as int) == Lexeme::Keyword(Keyword::For),
        ensures
            final(self).token_stream == old(self).token_stream,
            agrees(r, final(self).idx, for_statement(old(self).lexemes(), old(self).idx as int)),
        decreases old(self).token_stream@.len() - old(self).idx, 1int,
    {
        proof {
            reveal(for_statement);
            reveal(block);
        }
        let name = match self.ident(1) {
            Some(name) => name,
            None => {
                self.advance(1);
                return Err(ParseError { kind: ParseErrorKind::ExpectedIdentifier, at: self.idx });
            },
        };
        if !self.is_keyword(2, Keyword::In) {
            self.advance(2);
            return Err(ParseError { kind: ParseErrorKind::ExpectedIn, at: self.idx });
        }
        proof {
            lemma_range_expression_advances(self.lexemes(), self.idx + 3);
        }
        self.advance(3);
        let range = match self.parse_range_expression() {
            Ok(range) => range,
            Err(e) => {
                return Err(e);
            },
        };
        match self.parse_block() {
            Ok(body) => {
                let variable = ParsedVarDecl::new(ParsedType::unwritten(), name, ParsedExpression::Invalid);
                Ok(ParsedStatement::for_loop(variable, range, body))
            },
            Err(e) => Err(e),
        }
    }

    /// Reads `while condition { .. }` at `while`.
    fn parse_while(&mut self) -> (r: Result<ParsedStatement, ParseError>)
        requires
            lexeme_at(old(self).lexemes(), old(self).idx as int) == Lexeme::Keyword(Keyword::While),
        ensures
            final(self).token_stream == old(self).token_stream,
            agrees(r, final(self).idx, while_statement(old(self).lexemes(), old(self).idx as int)),
        decreases old(self).token_stream@.len() - old(self).idx, 1int,
    {
        proof {
            reveal(while_statement);
            reveal(block);
        }
        proof {
            lemma_expression_advances(self.lexemes(), self.idx + 1, false, true);
        }
        self.advance(1);
        let condition = match self.parse_expression(false, true) {
            Ok(condition) => condition,
            Err(e) => {
                return Err(e);
            },
        };
        match self.parse_block() {
            Ok(body) => Ok(ParsedStatement::WhileLoop(condition, body)),
            Err(e) => Err(e),
        }
    }

    /// Reads a block: end-of-line tokens, `{`, statements, `}`. End-of-line
    /// tokens between the statements mean nothing.
    pub fn parse_block(&mut self) -> (r: Result<ParsedBlock, ParseError>)
        ensures
            final(self).token_stream == old(self).token_stream,
            agrees(r, final(self).idx, block(old(self).lexemes(), old(self).idx as int)),
        decreases old(self).token_stream@.len() - old(self).idx, 0int,
    {
        proof {
            reveal(block);
            reveal(block_items);
            reveal(statement);
        }
        proof {
            lemma_skip_eols(self.lexemes(), self.idx as int);
        }
        self.eat_newlines();
        if !self.is_punct(0, Punct::LCurly) {
            return Err(ParseError { kind: ParseErrorKind::ExpectedLCurly, at: self.idx });
        }
        self.advance(1);
        let mut stmts: Vec<ParsedStatement> = Vec::new();
        assert(views(stmts@) =~= Seq::empty());
        loop
            invariant
                self.token_stream == old(self).token_stream,
                old(self).idx < self.idx <= self.token_stream@.len(),
                block(old(self).lexemes(), old(self).idx as int) == block_items(
                    self.lexemes(),
                    self.idx as int,
                    views(stmts@),
                ),
            decreases self.token_stream@.len() - self.idx,
        {
            proof {
                reveal(block_items);
                reveal(statement);
            }
            if self.is_punct(0, Punct::RCurly) {
                self.advance(1);
                return Ok(ParsedBlock::of(stmts));
            }
            if self.is_eol() {
                self.advance(1);
                continue ;
            }
            if self.is_eof() {
                return Err(ParseError { kind: ParseErrorKind::ExpectedRCurly, at: self.idx });
            }
            proof {
                lemma_statement_advances(self.lexemes(), self.idx as int);
            }
            let statement = match self.parse_statement() {
                Ok(statement) => statement,
                Err(e) => {
                    return Err(e);
                },
            };
            proof {
                lemma_views_push(stmts@, statement);
            }
            stmts.push(statement);
        }
    }
}

} // verus!
