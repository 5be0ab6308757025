//! Compilation units: the top level of a source file.

use crate::ast::tree::{spanned_tree, NodeKind, Tree};
use crate::ast::unit::{unit_member_trees, CompilationUnit, CompilationUnitMember, UseDecl};
use crate::lexer::token::TokenType;
use crate::parser::cursor::{parsed, Parser};
use crate::parser::error::{Expected, ErrorReporter, ParserError, ParserResult};
use crate::parser::func::{extern_function, function};
use crate::parser::grammar::{
    current, current_span, eat, identifier_path, syntax_error, Parsed,
};
use crate::parser::stmt::closing;
use crate::parser::structs::struct_decl;
use crate::span::{Span, Spanned};
use vstd::prelude::*;

verus! {

/// `use_decl ::= 'use' identifier_path ';'`
///
/// The semicolon is no part of the declaration.
pub open spec fn use_decl(input: Seq<u8>, pos: int) -> Parsed {
    let keyword = eat(input, pos, TokenType::Use, Expected::UseKeyword);
    if !keyword.advanced(input, pos) {
        keyword.failure()
    } else {
        let path = identifier_path(input, keyword.next);
        if !path.advanced(input, pos) {
            path
        } else {
            closing(
                input,
                path.next,
                Tree::node(
                    NodeKind::UseDecl,
                    keyword.span().cover(path.tree().span),
                    seq![path.tree()],
                ),
            )
        }
    }
}

/// `member ::= use_decl | function | extern_function | struct`
pub open spec fn unit_member(input: Seq<u8>, pos: int) -> Parsed {
    match current(input, pos) {
        Err(error) => Parsed::fail(error, pos),
        Ok(token) => match token.token_type {
            TokenType::Use => use_decl(input, pos),
            TokenType::Fn => function(input, pos),
            TokenType::Extern => extern_function(input, pos),
            TokenType::Struct => struct_decl(input, pos),
            _ => Parsed::fail(syntax_error(Expected::Declaration, token.span), pos),
        },
    }
}

/// The rest of a compilation unit that started at `start`, of which the
/// members `read` have been read.
pub open spec fn unit_tail(input: Seq<u8>, pos: int, start: Span, read: Seq<Tree>) -> Parsed
    decreases input.len() - pos,
{
    match current(input, pos) {
        Err(error) => Parsed::fail(error, pos),
        Ok(token) => if token.token_type == TokenType::Eof {
            Parsed::done(Tree::node(NodeKind::CompilationUnit, start.cover(token.span), read), pos)
        } else {
            let next = unit_member(input, pos);
            if !next.advanced(input, pos) {
                next
            } else {
                unit_tail(input, next.next, start, read.push(next.tree()))
            }
        },
    }
}

/// `compilation_unit ::= member* EOF`
///
/// The unit spans from its first token to the end of the input.
pub open spec fn compilation_unit(input: Seq<u8>, pos: int) -> Parsed {
    unit_tail(input, pos, current_span(input, pos), Seq::empty())
}

impl<'src> Parser<'src> {
    /// `use_decl ::= 'use' identifier_path ';'`
    fn parse_use_decl(&mut self) -> (result: ParserResult<CompilationUnitMember>)
        requires
            old(self).wf(),
        ensures
            final(self).follows(
                *old(self),
                result,
                use_decl(old(self).source(), old(self).position()),
            ),
    {
        let keyword = match self.eat(TokenType::Use, Expected::UseKeyword) {
            Ok(keyword) => keyword,
            Err(error) => {
                return Err(error);
            },
        };
        let path = match self.parse_identifier_path() {
            Ok(path) => path,
            Err(error) => {
                return Err(error);
            },
        };
        match self.eat(TokenType::Semicolon, Expected::Semicolon) {
            Ok(_) => {},
            Err(error) => {
                return Err(error);
            },
        }
        let span = keyword.to(path.span);
        Ok(Spanned { value: CompilationUnitMember::Use(Box::new(UseDecl { path })), span })
    }

    /// `member ::= use_decl | function | extern_function | struct`
    pub fn parse_compilation_unit_member(&mut self) -> (result: ParserResult<
        CompilationUnitMember,
    >)
        requires
            old(self).wf(),
        ensures
            final(self).follows(
                *old(self),
                result,
                unit_member(old(self).source(), old(self).position()),
            ),
    {
        let span = self.span();
        let token_type = match self.token_type() {
            Ok(token_type) => token_type,
            Err(error) => {
                return Err(error);
            },
        };
        match token_type {
            TokenType::Use => self.parse_use_decl(),
            TokenType::Fn => match self.parse_function_decl() {
                Ok(decl) => Ok(
                    Spanned {
                        value: CompilationUnitMember::Function(Box::new(decl.value)),
                        span: decl.span,
                    },
                ),
                Err(error) => Err(error),
            },
            TokenType::Extern => match self.parse_extern_function_decl() {
                Ok(decl) => Ok(
                    Spanned {
                        value: CompilationUnitMember::ExternFunction(Box::new(decl.value)),
                        span: decl.span,
                    },
                ),
                Err(error) => Err(error),
            },
            TokenType::Struct => match self.parse_struct_decl() {
                Ok(decl) => Ok(
                    Spanned {
                        value: CompilationUnitMember::Struct(Box::new(decl.value)),
                        span: decl.span,
                    },
                ),
                Err(error) => Err(error),
            },
            _ => Err(Spanned { value: ParserError::SyntaxError(Expected::Declaration), span }),
        }
    }

    /// Parses the whole source as one compilation unit named `name`.
    pub fn parse_compilation_unit(&mut self, name: String) -> (result: ParserResult<
        CompilationUnit,
    >)
        requires
            old(self).wf(),
        ensures
            final(self).wf(),
            final(self).source() == old(self).source(),
            old(self).position() <= final(self).position() <= old(self).source().len(),
            parsed(result, final(self).position()) == compilation_unit(
                old(self).source(),
                old(self).position(),
            ),
            result matches Ok(unit) ==> unit.value.name == name,
    {
        let ghost input = self.source();
        let ghost start = self.position();
        proof {
            self.lemma_bounds();
        }
        let first = self.span();
        let mut members: Vec<Spanned<CompilationUnitMember>> = Vec::new();
        assert(unit_member_trees(members@) =~= Seq::<Tree>::empty());
        loop
            invariant
                self.wf(),
                input == old(self).source(),
                start == old(self).position(),
                self.source() == input,
                0 <= start <= self.position() <= input.len(),
                compilation_unit(input, start) == unit_tail(
                    input,
                    self.position(),
                    first,
                    unit_member_trees(members@),
                ),
            decreases input.len() - self.position(),
        {
            let ghost before = unit_member_trees(members@);
            let end = self.span();
            match self.token_type() {
                Err(error) => {
                    return Err(error);
                },
                Ok(TokenType::Eof) => {
                    let span = first.to(end);
                    return Ok(Spanned { value: CompilationUnit { name, members }, span });
                },
                Ok(_) => {},
            }
            let next = match self.parse_compilation_unit_member() {
                Ok(next) => next,
                Err(error) => {
                    return Err(error);
                },
            };
            members.push(next);
            assert(unit_member_trees(members@) =~= before.push(spanned_tree(next)));
        }
    }

    /// Parses the whole source as one compilation unit named `name`, and
    /// hands the error that ends the parse, if one does, to `reporter`
    /// before it is returned.
    pub fn parse<R: ErrorReporter>(&mut self, name: String, reporter: &mut R) -> (result:
        ParserResult<CompilationUnit>)
        requires
            old(self).wf(),
        ensures
            final(self).wf(),
            final(self).source() == old(self).source(),
            parsed(result, final(self).position()) == compilation_unit(
                old(self).source(),
                old(self).position(),
            ),
            result matches Ok(unit) ==> unit.value.name == name,
            final(reporter).reported() == (match result {
                Ok(_) => old(reporter).reported(),
                Err(error) => old(reporter).reported().push(error),
            }),
    {
        let result = self.parse_compilation_unit(name);
        match &result {
            Ok(_) => {},
            Err(error) => {
                reporter.report(error);
            },
        }
        result
    }
}

} // verus!
