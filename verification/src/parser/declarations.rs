//! Declarations and modules.

use vstd::prelude::*;
use crate::ast::{
    ComplexType,
    ParsedDeclaration,
    ParsedExpression,
    ParsedModule,
    ParsedProcDecl,
    ParsedStructDecl,
    ParsedType,
    ParsedVarDecl,
};
use crate::error::{ParseError, ParseErrorKind, Unsupported};
use crate::grammar::declarations::{
    complex_type,
    declaration,
    declared,
    lemma_declaration_advances,
    lemma_member_advances,
    lemma_parameter_advances,
    member,
    member_list,
    members,
    module,
    module_items,
    parameter,
    parameter_list,
    parameters,
    procedure,
    return_type,
    structure,
};
use crate::grammar::{
    lemma_skip_eols,
    lexeme_at,
};

use crate::model::{
    lemma_views_push,
    views,
};
use crate::parser::{agrees, lists, Parser};
use crate::token::{
    Keyword,
    PrimitiveType,
    Punct,
    Token,
};

verus! {

impl Parser {
    /// Reads one parameter of a procedure: `name: Type`.
    pub fn parse_parameter(&mut self) -> (r: Result<ParsedVarDecl, ParseError>)
        ensures
            final(self).token_stream == old(self).token_stream,
            agrees(r, final(self).idx, parameter(old(self).lexemes(), old(self).idx as int)),
    {
        let name = match self.ident(0) {
            Some(name) => name,
            None => {
                return Err(ParseError { kind: ParseErrorKind::ExpectedParameter, at: self.idx });
            },
        };
        if !self.is_punct(1, Punct::Colon) {
            self.advance(1);
            return Err(ParseError { kind: ParseErrorKind::ExpectedColon, at: self.idx });
        }
        self.advance(2);
        match self.parse_type_name() {
            Ok(parsed_type) => Ok(ParsedVarDecl::new(parsed_type, name, ParsedExpression::Invalid)),
            Err(e) => Err(e),
        }
    }

    /// Reads the parameters of a procedure, from the opening parenthesis to
    /// the closing one. Every parameter has a name and a type. Commas
    /// separate the parameters, and one may stand before the closing
    /// parenthesis.
    pub fn parse_param_list_decl(&mut self) -> (r: Result<Vec<ParsedVarDecl>, ParseError>)
        ensures
            final(self).token_stream == old(self).token_stream,
            lists(r, final(self).idx, parameter_list(old(self).lexemes(), old(self).idx as int)),
    {
        if !self.is_punct(0, Punct::LParen) {
            return Err(ParseError { kind: ParseErrorKind::ExpectedLParen, at: self.idx });
        }
        self.advance(1);
        let mut params: Vec<ParsedVarDecl> = Vec::new();
        assert(views(params@) =~= Seq::empty());
        loop
            invariant
                self.token_stream == old(self).token_stream,
                self.idx <= self.token_stream@.len(),
                parameter_list(old(self).lexemes(), old(self).idx as int) == parameters(
                    self.lexemes(),
                    self.idx as int,
                    views(params@),
                ),
            decreases self.token_stream@.len() - self.idx,
        {
            proof {
                reveal(parameters);
            }
            if self.is_punct(0, Punct::RParen) {
                self.advance(1);
                return Ok(params);
            }
            proof {
                lemma_parameter_advances(self.lexemes(), self.idx as int);
            }
            let parameter = match self.parse_parameter() {
                Ok(parameter) => parameter,
                Err(e) => {
                    return Err(e);
                },
            };
            proof {
                lemma_views_push(params@, parameter);
            }
            if self.is_punct(0, Punct::Comma) {
                params.push(parameter);
                self.advance(1);
            } else if self.is_punct(0, Punct::RParen) {
                params.push(parameter);
                self.advance(1);
                return Ok(params);
            } else {
                return Err(
                    ParseError { kind: ParseErrorKind::ExpectedCommaOrRParen, at: self.idx },
                );
            }
        }
    }

    /// Reads one member of a struct: `name: Type`. End-of-line tokens may
    /// stand before and after the colon.
    pub fn parse_member(&mut self) -> (r: Result<ParsedVarDecl, ParseError>)
        ensures
            final(self).token_stream == old(self).token_stream,
            agrees(r, final(self).idx, member(old(self).lexemes(), old(self).idx as int)),
    {
        let name = match self.ident(0) {
            Some(name) => name,
            None => {
                return Err(ParseError { kind: ParseErrorKind::ExpectedMember, at: self.idx });
            },
        };
        self.advance(1);
        self.eat_newlines();
        if !self.is_punct(0, Punct::Colon) {
            return Err(ParseError { kind: ParseErrorKind::ExpectedColon, at: self.idx });
        }
        self.advance(1);
        self.eat_newlines();
        match self.parse_type_name() {
            Ok(parsed_type) => Ok(ParsedVarDecl::new(parsed_type, name, ParsedExpression::Invalid)),
            Err(e) => Err(e),
        }
    }

    /// Reads the body of a struct, from the opening `{` to the closing `}`.
    /// Every member has a name and a type. Commas separate the members, and
    /// one may stand before the closing `}`; end-of-line tokens may stand
    /// before and after every member.
    pub fn parse_member_list(&mut self) -> (r: Result<Vec<ParsedVarDecl>, ParseError>)
        ensures
            final(self).token_stream == old(self).token_stream,
            lists(r, final(self).idx, member_list(old(self).lexemes(), old(self).idx as int)),
    {
        if !self.is_punct(0, Punct::LCurly) {
            return Err(ParseError { kind: ParseErrorKind::ExpectedLCurly, at: self.idx });
        }
        self.advance(1);
        let mut fields: Vec<ParsedVarDecl> = Vec::new();
        assert(views(fields@) =~= Seq::empty());
        loop
            invariant
                self.token_stream == old(self).token_stream,
                self.idx <= self.token_stream@.len(),
                member_list(old(self).lexemes(), old(self).idx as int) == members(
                    self.lexemes(),
                    self.idx as int,
                    views(fields@),
                ),
            decreases self.token_stream@.len() - self.idx,
        {
            proof {
                reveal(members);
                lemma_skip_eols(self.lexemes(), self.idx as int);
            }
            self.eat_newlines();
            if self.is_punct(0, Punct::RCurly) {
                self.advance(1);
                return Ok(fields);
            }
            proof {
                lemma_member_advances(self.lexemes(), self.idx as int);
            }
            let field = match self.parse_member() {
                Ok(field) => field,
                Err(e) => {
                    return Err(e);
                },
            };
            proof {
                lemma_views_push(fields@, field);
                lemma_skip_eols(self.lexemes(), self.idx as int);
            }
            self.eat_newlines();
            if self.is_punct(0, Punct::Comma) {
                fields.push(field);
                self.advance(1);
            } else if self.is_punct(0, Punct::RCurly) {
                fields.push(field);
                self.advance(1);
                return Ok(fields);
            } else {
                return Err(
                    ParseError { kind: ParseErrorKind::ExpectedCommaOrRCurly, at: self.idx },
                );
            }
        }
    }

    /// Reads the type that a procedure returns: `-> Type`, or nothing before
    /// the `{` of the body, which stands for the type `nothing`.
    fn parse_return_type(&mut self) -> (r: Result<ParsedType, ParseError>)
        ensures
            final(self).token_stream == old(self).token_stream,
            agrees(r, final(self).idx, return_type(old(self).lexemes(), old(self).idx as int)),
    {
        if self.is_punct(0, Punct::ThinArrow) {
            self.advance(1);
            self.parse_type_name()
        } else if self.is_punct(0, Punct::LCurly) {
            Ok(ParsedType::builtin(PrimitiveType::Nothing))
        } else {
            Err(ParseError { kind: ParseErrorKind::ExpectedArrowOrBody, at: self.idx })
        }
    }

    /// Reads the procedure `name` from its parameter list on: the
    /// parameters, the return type if one is written, and the body.
    pub fn parse_procedure(&mut self, name: String) -> (r: Result<ParsedProcDecl, ParseError>)
        ensures
            final(self).token_stream == old(self).token_stream,
            agrees(r, final(self).idx, procedure(old(self).lexemes(), old(self).idx as int, name@)),
    {
        let parameters = match self.parse_param_list_decl() {
            Ok(parameters) => parameters,
            Err(e) => {
                return Err(e);
            },
        };
        self.eat_newlines();
        let parsed_return_type = match self.parse_return_type() {
            Ok(parsed_return_type) => parsed_return_type,
            Err(e) => {
                return Err(e);
            },
        };
        match self.parse_block() {
            Ok(body) => Ok(ParsedProcDecl { name, parameters, parsed_return_type, body }),
            Err(e) => Err(e),
        }
    }

    /// Reads the struct `name` from the `{` of its body on.
    pub fn parse_struct(&mut self, name: String) -> (r: Result<ParsedStructDecl, ParseError>)
        ensures
            final(self).token_stream == old(self).token_stream,
            agrees(r, final(self).idx, structure(old(self).lexemes(), old(self).idx as int, name@)),
    {
        match self.parse_member_list() {
            Ok(data_members) => Ok(ParsedStructDecl { name, data_members }),
            Err(e) => Err(e),
        }
    }

    /// What the token `ahead` places after the cursor makes of a
    /// declaration.
    fn complex_type_ahead(&self, ahead: usize) -> (r: Option<ComplexType>)
        ensures
            r == complex_type(lexeme_at(self.lexemes(), self.idx + ahead)),
    {
        if self.token_stream.len() - self.idx.min(self.token_stream.len()) > ahead {
            match &self.token_stream[self.idx + ahead] {
                Token::LParen(_) => Some(ComplexType::Procedure),
                Token::KeywordStruct(_) => Some(ComplexType::Struct),
                Token::KeywordEnum(_) => Some(ComplexType::Enum),
                Token::IdentName(_, _) => Some(ComplexType::Constant),
                Token::BuiltinType(_, _) => Some(ComplexType::Constant),
                _ => None,
            }
        } else {
            None
        }
    }

    /// Reads what follows `decl name :`: a procedure from its parameter list
    /// on, or `struct` and its body. An enum and a constant are not read
    /// yet.
    fn parse_declared(&mut self, name: String) -> (r: Result<ParsedDeclaration, ParseError>)
        ensures
            final(self).token_stream == old(self).token_stream,
            agrees(r, final(self).idx, declared(old(self).lexemes(), old(self).idx as int, name@)),
    {
        match self.complex_type_ahead(0) {
            Some(ComplexType::Procedure) => match self.parse_procedure(name) {
                Ok(procedure) => Ok(ParsedDeclaration::Procedure(procedure)),
                Err(e) => Err(e),
            },
            Some(ComplexType::Struct) => {
                self.advance(1);
                match self.parse_struct(name) {
                    Ok(structure) => Ok(ParsedDeclaration::Struct(structure)),
                    Err(e) => Err(e),
                }
            },
            Some(ComplexType::Enum) => Err(
                ParseError {
                    kind: ParseErrorKind::Unsupported(Unsupported::EnumDeclaration),
                    at: self.idx,
                },
            ),
            Some(ComplexType::Constant) => Err(
                ParseError {
                    kind: ParseErrorKind::Unsupported(Unsupported::ConstantDeclaration),
                    at: self.idx,
                },
            ),
            None => Err(ParseError { kind: ParseErrorKind::ExpectedDeclarationKind, at: self.idx }),
        }
    }

    /// Reads one declaration: `decl name :` and then a procedure from its
    /// parameter list on, or `struct` and its body. An enum and a constant
    /// are not read yet.
    pub fn parse_declaration(&mut self) -> (r: Result<ParsedDeclaration, ParseError>)
        ensures
            final(self).token_stream == old(self).token_stream,
            agrees(r, final(self).idx, declaration(old(self).lexemes(), old(self).idx as int)),
    {
        if !self.is_keyword(0, Keyword::Decl) {
            return Err(ParseError { kind: ParseErrorKind::ExpectedDeclaration, at: self.idx });
        }
        let name = match self.ident(1) {
            Some(name) => name,
            None => {
                self.advance(1);
                return Err(ParseError { kind: ParseErrorKind::ExpectedIdentifier, at: self.idx });
            },
        };
        if !self.is_punct(2, Punct::Colon) {
            self.advance(2);
            return Err(ParseError { kind: ParseErrorKind::ExpectedColon, at: self.idx });
        }
        self.advance(3);
        self.parse_declared(name)
    }

    /// Reads a module: the declarations from the cursor up to the end of the
    /// input, in the order they stand in, procedures and structs apart.
    ///
    /// Only `decl` starts a top-level item, and end-of-line tokens between
    /// the items mean nothing. The module is named `main`. The first error
    /// ends the parse: no part of a module is returned.
    pub fn parse_module(&mut self) -> (r: Result<ParsedModule, ParseError>)
        ensures
            final(self).token_stream == old(self).token_stream,
            agrees(r, final(self).idx, module(old(self).lexemes(), old(self).idx as int)),
    {
        let mut parsed = ParsedModule::new("main");
        loop
            invariant
                self.token_stream == old(self).token_stream,
                module(old(self).lexemes(), old(self).idx as int) == module_items(
                    self.lexemes(),
                    self.idx as int,
                    parsed@,
                ),
            decreases self.token_stream@.len() - self.idx,
        {
            proof {
                reveal(module_items);
            }
            if self.is_eof() {
                return Ok(parsed);
            }
            if self.is_eol() {
                self.advance(1);
                continue ;
            }
            if self.is_punct(0, Punct::Hash) {
                return Err(
                    ParseError {
                        kind: ParseErrorKind::Unsupported(Unsupported::Directive),
                        at: self.idx,
                    },
                );
            }
            if !self.is_keyword(0, Keyword::Decl) {
                return Err(ParseError { kind: ParseErrorKind::ExpectedDeclaration, at: self.idx });
            }
            proof {
                lemma_declaration_advances(self.lexemes(), self.idx as int);
            }
            match self.parse_declaration() {
                Ok(ParsedDeclaration::Procedure(procedure)) => {
                    proof {
                        lemma_views_push(parsed.procs@, procedure);
                    }
                    parsed.procs.push(procedure);
                },
                Ok(ParsedDeclaration::Struct(structure)) => {
                    proof {
                        lemma_views_push(parsed.structs@, structure);
                    }
                    parsed.structs.push(structure);
                },
                Err(e) => {
                    return Err(e);
                },
            }
        }
    }
}

} // verus!
