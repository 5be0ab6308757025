//! Identifiers and identifier paths.

use crate::ast::ident::{identifier_trees, Identifier, IdentifierPath};
use crate::ast::tree::spanned_tree;
use crate::lexer::token::TokenType;
use crate::parser::cursor::Parser;
use crate::parser::error::{Expected, ParserError, ParserResult};
use crate::parser::grammar::{identifier, identifier_path, path_tail};
use crate::span::Spanned;
use vstd::prelude::*;

verus! {

impl<'src> Parser<'src> {
    /// `identifier ::= IDENTIFIER`
    pub fn parse_identifier(&mut self) -> (result: ParserResult<Identifier>)
        requires
            old(self).wf(),
        ensures
            final(self).follows(
                *old(self),
                result,
                identifier(old(self).source(), old(self).position()),
            ),
    {
        let span = self.span();
        match self.token_type() {
            Err(error) => Err(error),
            Ok(TokenType::Identifier) => {
                let value = self.text();
                self.advance();
                Ok(Spanned { value: Identifier { value }, span })
            },
            Ok(_) => Err(Spanned { value: ParserError::SyntaxError(Expected::Identifier), span }),
        }
    }

    /// `identifier_path ::= identifier ( '::' identifier )*`
    pub fn parse_identifier_path(&mut self) -> (result: ParserResult<IdentifierPath>)
        requires
            old(self).wf(),
        ensures
            final(self).follows(
                *old(self),
                result,
                identifier_path(old(self).source(), old(self).position()),
            ),
    {
        let ghost input = self.source();
        let ghost start = self.position();
        let first = self.span();
        let mut qualifier: Vec<Spanned<Identifier>> = Vec::new();
        assert(identifier_trees(qualifier@) == Seq::<crate::ast::tree::Tree>::empty());
        loop
            invariant
                self.wf(),
                input == old(self).source(),
                start == old(self).position(),
                self.source() == input,
                0 <= start <= self.position() <= input.len(),
                qualifier@.len() > 0 ==> start < self.position(),
                identifier_path(input, start) == path_tail(
                    input,
                    first,
                    identifier_trees(qualifier@),
                    self.position(),
                ),
            decreases input.len() - self.position(),
        {
            let ghost before = identifier_trees(qualifier@);
            let name = match self.parse_identifier() {
                Ok(name) => name,
                Err(error) => {
                    return Err(error);
                },
            };
            match self.token_type() {
                Err(error) => {
                    return Err(error);
                },
                Ok(TokenType::DoubleColon) => {
                    qualifier.push(name);
                    assert(identifier_trees(qualifier@) == before.push(spanned_tree(name)));
                    self.advance();
                },
                Ok(_) => {
                    let span = first.to(name.span);
                    return Ok(
                        Spanned { value: IdentifierPath { qualifier, local_name: name }, span },
                    );
                },
            }
        }
    }
}

} // verus!
