//! Struct declarations.

use crate::ast::ident::Identifier;
use crate::ast::structs::{member_trees, StructDecl, StructMemberDecl};
use crate::ast::tree::{spanned_tree, NodeKind, Tree};
use crate::lexer::token::TokenType;
use crate::parser::cursor::Parser;
use crate::parser::error::{Expected, ParserResult};
use crate::parser::grammar::{
    advance, ahead, current, eat, identifier, identifier_path, Parsed,
};
use crate::span::{Span, Spanned};
use vstd::prelude::*;

verus! {

/// `struct_member ::= identifier ':' identifier_path`
pub open spec fn struct_member(input: Seq<u8>, pos: int) -> Parsed {
    let name = identifier(input, pos);
    if !name.advanced(input, pos) {
        name
    } else {
        let colon = eat(input, name.next, TokenType::Colon, Expected::Colon);
        if !colon.advanced(input, pos) {
            colon.failure()
        } else {
            let path = identifier_path(input, colon.next);
            if !path.advanced(input, pos) {
                path
            } else {
                Parsed::done(
                    Tree::node(
                        NodeKind::StructMember,
                        name.tree().span.cover(path.tree().span),
                        seq![name.tree(), path.tree()],
                    ),
                    path.next,
                )
            }
        }
    }
}

/// The rest of the struct `name`, whose keyword stands at `start`, of which
/// the members `read` have been read and at least one more follows.
pub open spec fn members_tail(input: Seq<u8>, pos: int, start: Span, name: Tree, read: Seq<Tree>)
    -> Parsed
    decreases input.len() - pos,
{
    let next = struct_member(input, pos);
    if !next.advanced(input, pos) {
        next
    } else {
        match current(input, next.next) {
            Err(error) => Parsed::fail(error, next.next),
            Ok(token) => if token.token_type == TokenType::Semicolon && ahead(input, next.next) {
                members_tail(
                    input,
                    advance(input, next.next),
                    start,
                    name,
                    read.push(next.tree()),
                )
            } else {
                let close = eat(input, next.next, TokenType::RightBrace, Expected::RightBrace);
                if close.result is Err {
                    close.failure()
                } else {
                    Parsed::done(
                        Tree::node(
                            NodeKind::Struct,
                            start.cover(close.span()),
                            seq![name] + read.push(next.tree()),
                        ),
                        close.next,
                    )
                }
            },
        }
    }
}

/// `struct ::= 'struct' identifier '{' struct_member ( ';' struct_member )* '}'`
pub open spec fn struct_decl(input: Seq<u8>, pos: int) -> Parsed {
    let keyword = eat(input, pos, TokenType::Struct, Expected::StructKeyword);
    if !keyword.advanced(input, pos) {
        keyword.failure()
    } else {
        let name = identifier(input, keyword.next);
        if !name.advanced(input, pos) {
            name
        } else {
            let open = eat(input, name.next, TokenType::LeftBrace, Expected::LeftBrace);
            if !open.advanced(input, pos) {
                open.failure()
            } else {
                members_tail(input, open.next, keyword.span(), name.tree(), Seq::empty())
            }
        }
    }
}

impl<'src> Parser<'src> {
    /// `struct_member ::= identifier ':' identifier_path`
    fn parse_struct_member(&mut self) -> (result: ParserResult<StructMemberDecl>)
        requires
            old(self).wf(),
        ensures
            final(self).follows(
                *old(self),
                result,
                struct_member(old(self).source(), old(self).position()),
            ),
    {
        let identifier = match self.parse_identifier() {
            Ok(identifier) => identifier,
            Err(error) => {
                return Err(error);
            },
        };
        match self.eat(TokenType::Colon, Expected::Colon) {
            Ok(_) => {},
            Err(error) => {
                return Err(error);
            },
        }
        let type_path = match self.parse_identifier_path() {
            Ok(type_path) => type_path,
            Err(error) => {
                return Err(error);
            },
        };
        let span = identifier.span.to(type_path.span);
        Ok(Spanned { value: StructMemberDecl { identifier, type_path }, span })
    }

    /// `struct ::= 'struct' identifier '{' struct_member ( ';' struct_member )* '}'`
    pub fn parse_struct_decl(&mut self) -> (result: ParserResult<StructDecl>)
        requires
            old(self).wf(),
        ensures
            final(self).follows(
                *old(self),
                result,
                struct_decl(old(self).source(), old(self).position()),
            ),
    {
        let ghost input = self.source();
        let ghost start = self.position();
        proof {
            self.lemma_bounds();
        }
        let keyword = match self.eat(TokenType::Struct, Expected::StructKeyword) {
            Ok(keyword) => keyword,
            Err(error) => {
                return Err(error);
            },
        };
        let identifier: Spanned<Identifier> = match self.parse_identifier() {
            Ok(identifier) => identifier,
            Err(error) => {
                return Err(error);
            },
        };
        match self.eat(TokenType::LeftBrace, Expected::LeftBrace) {
            Ok(_) => {},
            Err(error) => {
                return Err(error);
            },
        }
        let mut members: Vec<Spanned<StructMemberDecl>> = Vec::new();
        assert(member_trees(members@) =~= Seq::<Tree>::empty());
        loop
            invariant
                self.wf(),
                input == old(self).source(),
                start == old(self).position(),
                self.source() == input,
                0 <= start < self.position() <= input.len(),
                struct_decl(input, start) == members_tail(
                    input,
                    self.position(),
                    keyword,
                    spanned_tree(identifier),
                    member_trees(members@),
                ),
            decreases input.len() - self.position(),
        {
            let ghost before = member_trees(members@);
            let next = match self.parse_struct_member() {
                Ok(next) => next,
                Err(error) => {
                    return Err(error);
                },
            };
            members.push(next);
            assert(member_trees(members@) =~= before.push(spanned_tree(next)));
            match self.token_type() {
                Err(error) => {
                    return Err(error);
                },
                Ok(TokenType::Semicolon) => {
                    self.advance();
                },
                Ok(_) => {
                    let close = match self.eat(TokenType::RightBrace, Expected::RightBrace) {
                        Ok(close) => close,
                        Err(error) => {
                            return Err(error);
                        },
                    };
                    let span = keyword.to(close);
                    return Ok(Spanned { value: StructDecl { identifier, members }, span });
                },
            }
        }
    }
}

} // verus!
