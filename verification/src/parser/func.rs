//! Function declarations.

use crate::ast::func::{parameters_tree, ExternFunctionDecl, FunctionDecl, ParameterDecl};
use crate::ast::ident::{Identifier, IdentifierPath};
use crate::ast::stmt::{ExprStatement, Statement};
use crate::ast::tree::{spanned_tree, NodeKind, Syntax, Tree};
use crate::lexer::token::TokenType;
use crate::parser::cursor::{parsed, Parser};
use crate::parser::error::{Expected, ParseError, ParserResult};
use crate::parser::grammar::{
    advance, ahead, current, eat, expr, identifier, identifier_path, Parsed,
};
use crate::parser::stmt::{block, optional, optional_tree};
use crate::span::{Span, Spanned};
use vstd::prelude::*;

verus! {

/// `parameter ::= identifier ':' identifier_path`
pub open spec fn parameter(input: Seq<u8>, pos: int) -> Parsed {
    let name = identifier(input, pos);
    if !name.advanced(input, pos) {
        name
    } else {
        let colon = eat(input, name.next, TokenType::Colon, Expected::Colon);
        if !colon.advanced(input, pos) {
            colon.failure()
        } else {
            let path = identifier_path(input, colon.next);
            if !path.advanced(input, pos) {
                path
            } else {
                Parsed::done(
                    Tree::node(
                        NodeKind::Parameter,
                        name.tree().span.cover(path.tree().span),
                        seq![name.tree(), path.tree()],
                    ),
                    path.next,
                )
            }
        }
    }
}

/// The rest of a parameter list that opened at `open`, of which the
/// parameters `read` have been read and at least one more follows.
pub open spec fn parameters_tail(input: Seq<u8>, pos: int, open: Span, read: Seq<Tree>) -> Parsed
    decreases input.len() - pos,
{
    let next = parameter(input, pos);
    if !next.advanced(input, pos) {
        next
    } else {
        match current(input, next.next) {
            Err(error) => Parsed::fail(error, next.next),
            Ok(token) => if token.token_type == TokenType::Comma && ahead(input, next.next) {
                parameters_tail(input, advance(input, next.next), open, read.push(next.tree()))
            } else {
                let close = eat(input, next.next, TokenType::RightParen, Expected::RightParen);
                if close.result is Err {
                    close.failure()
                } else {
                    Parsed::done(
                        Tree::node(
                            NodeKind::Parameters,
                            open.cover(close.span()),
                            read.push(next.tree()),
                        ),
                        close.next,
                    )
                }
            },
        }
    }
}

/// `parameters ::= '(' ( parameter ( ',' parameter )* )? ')'`
pub open spec fn parameters(input: Seq<u8>, pos: int) -> Parsed {
    let open = eat(input, pos, TokenType::LeftParen, Expected::LeftParen);
    if !open.advanced(input, pos) {
        open.failure()
    } else {
        match current(input, open.next) {
            Err(error) => Parsed::fail(error, open.next),
            Ok(token) => if token.token_type == TokenType::RightParen {
                Parsed::done(
                    Tree::node(
                        NodeKind::Parameters,
                        open.span().cover(token.span),
                        Seq::empty(),
                    ),
                    advance(input, open.next),
                )
            } else {
                parameters_tail(input, open.next, open.span(), Seq::empty())
            },
        }
    }
}

/// What the optional return type of a function yields: the type if there is
/// one, or the error, and the position where the parser then stands.
pub ghost struct ReturnType {
    pub result: Result<Option<Tree>, ParseError>,
    pub next: int,
}

/// `return_type ::= ( '->' identifier_path )?`
pub open spec fn return_type(input: Seq<u8>, pos: int) -> ReturnType {
    match current(input, pos) {
        Err(error) => ReturnType { result: Err(error), next: pos },
        Ok(token) => if token.token_type == TokenType::Arrow && ahead(input, pos) {
            let path = identifier_path(input, advance(input, pos));
            match path.result {
                Ok(tree) => ReturnType { result: Ok(Some(tree)), next: path.next },
                Err(error) => ReturnType { result: Err(error), next: path.next },
            }
        } else {
            ReturnType { result: Ok(None), next: pos }
        },
    }
}

/// The name, the parameters and the return type that follow the keyword of
/// a function.
pub ghost struct Signature {
    pub name: Tree,
    pub parameters: Tree,
    pub return_type: Option<Tree>,
}

/// What the signature of a function yields.
pub ghost struct SignatureParsed {
    pub result: Result<Signature, ParseError>,
    pub next: int,
}

/// `signature ::= identifier parameters return_type`
pub open spec fn signature(input: Seq<u8>, pos: int) -> SignatureParsed {
    let name = identifier(input, pos);
    if !name.advanced(input, pos) {
        SignatureParsed { result: Err(name.result->Err_0), next: name.next }
    } else {
        let list = parameters(input, name.next);
        if !list.advanced(input, pos) {
            SignatureParsed { result: Err(list.result->Err_0), next: list.next }
        } else {
            let returned = return_type(input, list.next);
            match returned.result {
                Err(error) => SignatureParsed { result: Err(error), next: returned.next },
                Ok(return_type) => SignatureParsed {
                    result: Ok(
                        Signature { name: name.tree(), parameters: list.tree(), return_type },
                    ),
                    next: returned.next,
                },
            }
        }
    }
}

/// `extern_function ::= 'extern' 'fn' signature`
///
/// The declaration ends with its return type, or with its parameter list
/// where it has none.
pub open spec fn extern_function(input: Seq<u8>, pos: int) -> Parsed {
    let keyword = eat(input, pos, TokenType::Extern, Expected::ExternKeyword);
    if !keyword.advanced(input, pos) {
        keyword.failure()
    } else {
        let function = eat(input, keyword.next, TokenType::Fn, Expected::FnKeyword);
        if !function.advanced(input, pos) {
            function.failure()
        } else {
            let header = signature(input, function.next);
            match header.result {
                Err(error) => Parsed::fail(error, header.next),
                Ok(header_tree) => Parsed::done(
                    Tree::node(
                        NodeKind::ExternFunction { typed: header_tree.return_type is Some },
                        keyword.span().cover(
                            match header_tree.return_type {
                                Some(path) => path.span,
                                None => header_tree.parameters.span,
                            },
                        ),
                        seq![header_tree.name, header_tree.parameters] + optional(
                            header_tree.return_type,
                        ),
                    ),
                    header.next,
                ),
            }
        }
    }
}

/// The node of a function with the given signature and body.
pub open spec fn function_node(header: Signature, body: Tree, span: Span) -> Tree {
    Tree::node(
        NodeKind::Function { typed: header.return_type is Some },
        span,
        seq![header.name, header.parameters] + optional(header.return_type) + seq![body],
    )
}

/// The body of a function: a block, or `'=' expr ';'`, which stands for the
/// statement of that expression.
pub open spec fn function_body(input: Seq<u8>, pos: int, start: Span, header: Signature)
    -> Parsed {
    match current(input, pos) {
        Err(error) => Parsed::fail(error, pos),
        Ok(token) => if token.token_type == TokenType::Assign && ahead(input, pos) {
            let value = expr(input, advance(input, pos));
            if !value.advanced(input, pos) {
                value
            } else {
                let semicolon = eat(input, value.next, TokenType::Semicolon, Expected::Semicolon);
                if semicolon.result is Err {
                    semicolon.failure()
                } else {
                    Parsed::done(
                        function_node(
                            header,
                            Tree::node(
                                NodeKind::ExprStatement,
                                value.tree().span,
                                seq![value.tree()],
                            ),
                            start.cover(semicolon.span()),
                        ),
                        semicolon.next,
                    )
                }
            }
        } else {
            let body = block(input, pos);
            if !body.advanced(input, pos) {
                body
            } else {
                Parsed::done(
                    function_node(header, body.tree(), start.cover(body.tree().span)),
                    body.next,
                )
            }
        },
    }
}

/// `function ::= 'fn' signature ( block | '=' expr ';' )`
pub open spec fn function(input: Seq<u8>, pos: int) -> Parsed {
    let keyword = eat(input, pos, TokenType::Fn, Expected::FnKeyword);
    if !keyword.advanced(input, pos) {
        keyword.failure()
    } else {
        let header = signature(input, keyword.next);
        match header.result {
            Err(error) => Parsed::fail(error, header.next),
            Ok(header_tree) => function_body(input, header.next, keyword.span(), header_tree),
        }
    }
}

/// The executable form of [`Signature`].
pub struct Header {
    pub name: Spanned<Identifier>,
    pub parameters: Spanned<Vec<Spanned<ParameterDecl>>>,
    pub return_type: Option<Spanned<IdentifierPath>>,
}

impl View for Header {
    type V = Signature;

    open spec fn view(&self) -> Signature {
        Signature {
            name: spanned_tree(self.name),
            parameters: parameters_tree(self.parameters),
            return_type: optional_tree(self.return_type),
        }
    }
}

/// The trees of a run of parameters.
pub open spec fn parameter_trees(list: Seq<Spanned<ParameterDecl>>) -> Seq<Tree> {
    Seq::new(list.len(), |i: int| list[i].value.tree(list[i].span))
}

impl<'src> Parser<'src> {
    /// `parameter ::= identifier ':' identifier_path`
    fn parse_parameter_decl(&mut self) -> (result: ParserResult<ParameterDecl>)
        requires
            old(self).wf(),
        ensures
            final(self).follows(
                *old(self),
                result,
                parameter(old(self).source(), old(self).position()),
            ),
    {
        let name = match self.parse_identifier() {
            Ok(name) => name,
            Err(error) => {
                return Err(error);
            },
        };
        match self.eat(TokenType::Colon, Expected::Colon) {
            Ok(_) => {},
            Err(error) => {
                return Err(error);
            },
        }
        let type_path = match self.parse_identifier_path() {
            Ok(type_path) => type_path,
            Err(error) => {
                return Err(error);
            },
        };
        let span = name.span.to(type_path.span);
        Ok(Spanned { value: ParameterDecl { name, type_path }, span })
    }

    /// `parameters ::= '(' ( parameter ( ',' parameter )* )? ')'`
    fn parse_parameter_decls(&mut self) -> (result: Result<
        Spanned<Vec<Spanned<ParameterDecl>>>,
        ParseError,
    >)
        requires
            old(self).wf(),
        ensures
            final(self).wf(),
            final(self).source() == old(self).source(),
            old(self).position() <= final(self).position() <= old(self).source().len(),
            result is Ok ==> old(self).position() < final(self).position(),
            parameters(old(self).source(), old(self).position()) == (Parsed {
                result: match result {
                    Ok(list) => Ok(parameters_tree(list)),
                    Err(error) => Err(error),
                },
                next: final(self).position(),
            }),
    {
        let ghost input = self.source();
        let ghost start = self.position();
        proof {
            self.lemma_bounds();
        }
        let open = match self.eat(TokenType::LeftParen, Expected::LeftParen) {
            Ok(open) => open,
            Err(error) => {
                return Err(error);
            },
        };
        let mut list: Vec<Spanned<ParameterDecl>> = Vec::new();
        let here = self.span();
        match self.token_type() {
            Err(error) => {
                return Err(error);
            },
            Ok(TokenType::RightParen) => {
                self.advance();
                let span = open.to(here);
                let node = Spanned { value: list, span };
                assert(parameters_tree(node).children =~= Seq::<Tree>::empty());
                return Ok(node);
            },
            Ok(_) => {},
        }
        assert(parameter_trees(list@) =~= Seq::<Tree>::empty());
        loop
            invariant
                self.wf(),
                input == old(self).source(),
                start == old(self).position(),
                self.source() == input,
                0 <= start < self.position() <= input.len(),
                parameters(input, start) == parameters_tail(
                    input,
                    self.position(),
                    open,
                    parameter_trees(list@),
                ),
            decreases input.len() - self.position(),
        {
            let ghost before = parameter_trees(list@);
            let next = match self.parse_parameter_decl() {
                Ok(next) => next,
                Err(error) => {
                    return Err(error);
                },
            };
            list.push(next);
            assert(parameter_trees(list@) =~= before.push(spanned_tree(next)));
            match self.token_type() {
                Err(error) => {
                    return Err(error);
                },
                Ok(TokenType::Comma) => {
                    self.advance();
                },
                Ok(_) => {
                    let close = match self.eat(TokenType::RightParen, Expected::RightParen) {
                        Ok(close) => close,
                        Err(error) => {
                            return Err(error);
                        },
                    };
                    let span = open.to(close);
                    let node = Spanned { value: list, span };
                    assert(parameters_tree(node).children =~= parameter_trees(list@));
                    return Ok(node);
                },
            }
        }
    }

    /// `return_type ::= ( '->' identifier_path )?`
    fn parse_function_return_type(&mut self) -> (result: Result<
        Option<Spanned<IdentifierPath>>,
        ParseError,
    >)
        requires
            old(self).wf(),
        ensures
            final(self).wf(),
            final(self).source() == old(self).source(),
            old(self).position() <= final(self).position() <= old(self).source().len(),
            return_type(old(self).source(), old(self).position()) == (ReturnType {
                result: match result {
                    Ok(path) => Ok(optional_tree(path)),
                    Err(error) => Err(error),
                },
                next: final(self).position(),
            }),
    {
        match self.token_type() {
            Err(error) => Err(error),
            Ok(TokenType::Arrow) => {
                self.advance();
                match self.parse_identifier_path() {
                    Ok(path) => Ok(Some(path)),
                    Err(error) => Err(error),
                }
            },
            Ok(_) => Ok(None),
        }
    }

    /// `signature ::= identifier parameters return_type`
    fn parse_signature(&mut self) -> (result: Result<Header, ParseError>)
        requires
            old(self).wf(),
        ensures
            final(self).wf(),
            final(self).source() == old(self).source(),
            old(self).position() <= final(self).position() <= old(self).source().len(),
            result is Ok ==> old(self).position() < final(self).position(),
            signature(old(self).source(), old(self).position()) == (SignatureParsed {
                result: match result {
                    Ok(header) => Ok(header@),
                    Err(error) => Err(error),
                },
                next: final(self).position(),
            }),
    {
        let name = match self.parse_identifier() {
            Ok(name) => name,
            Err(error) => {
                return Err(error);
            },
        };
        let parameters = match self.parse_parameter_decls() {
            Ok(parameters) => parameters,
            Err(error) => {
                return Err(error);
            },
        };
        let return_type = match self.parse_function_return_type() {
            Ok(return_type) => return_type,
            Err(error) => {
                return Err(error);
            },
        };
        Ok(Header { name, parameters, return_type })
    }

    /// `extern_function ::= 'extern' 'fn' signature`
    pub fn parse_extern_function_decl(&mut self) -> (result: ParserResult<ExternFunctionDecl>)
        requires
            old(self).wf(),
        ensures
            final(self).follows(
                *old(self),
                result,
                extern_function(old(self).source(), old(self).position()),
            ),
    {
        let start = match self.eat(TokenType::Extern, Expected::ExternKeyword) {
            Ok(start) => start,
            Err(error) => {
                return Err(error);
            },
        };
        match self.eat(TokenType::Fn, Expected::FnKeyword) {
            Ok(_) => {},
            Err(error) => {
                return Err(error);
            },
        }
        let header = match self.parse_signature() {
            Ok(header) => header,
            Err(error) => {
                return Err(error);
            },
        };
        let end = match &header.return_type {
            Some(path) => path.span,
            None => header.parameters.span,
        };
        let span = start.to(end);
        let ghost children = seq![header@.name, header@.parameters] + optional(
            header@.return_type,
        );
        let node = Spanned {
            value: ExternFunctionDecl {
                name: header.name,
                parameters: header.parameters,
                return_type: header.return_type,
            },
            span,
        };
        assert(spanned_tree(node).children =~= children);
        Ok(node)
    }

    /// The body of a function with the given signature.
    fn parse_function_body(&mut self, start: Span, header: Header) -> (result: ParserResult<
        FunctionDecl,
    >)
        requires
            old(self).wf(),
        ensures
            final(self).follows(
                *old(self),
                result,
                function_body(old(self).source(), old(self).position(), start, header@),
            ),
    {
        let ghost signature = header@;
        let token_type = match self.token_type() {
            Ok(token_type) => token_type,
            Err(error) => {
                return Err(error);
            },
        };
        let (body, span) = match token_type {
            TokenType::Assign => {
                self.advance();
                let value = match self.parse_expr() {
                    Ok(value) => value,
                    Err(error) => {
                        return Err(error);
                    },
                };
                let end = match self.eat(TokenType::Semicolon, Expected::Semicolon) {
                    Ok(end) => end,
                    Err(error) => {
                        return Err(error);
                    },
                };
                let span = value.span;
                (
                    Spanned { value: Statement::Expr(Box::new(ExprStatement { expr: value })), span },
                    start.to(end),
                )
            },
            _ => {
                let body = match self.parse_block_statement() {
                    Ok(body) => body,
                    Err(error) => {
                        return Err(error);
                    },
                };
                let span = start.to(body.span);
                (body, span)
            },
        };
        let ghost children = seq![signature.name, signature.parameters] + optional(
            signature.return_type,
        ) + seq![spanned_tree(body)];
        let node = Spanned {
            value: FunctionDecl {
                name: header.name,
                parameters: header.parameters,
                return_type: header.return_type,
                body,
            },
            span,
        };
        assert(spanned_tree(node).children =~= children);
        Ok(node)
    }

    /// `function ::= 'fn' signature ( block | '=' expr ';' )`
    pub fn parse_function_decl(&mut self) -> (result: ParserResult<FunctionDecl>)
        requires
            old(self).wf(),
        ensures
            final(self).follows(
                *old(self),
                result,
                function(old(self).source(), old(self).position()),
            ),
    {
        let start = match self.eat(TokenType::Fn, Expected::FnKeyword) {
            Ok(start) => start,
            Err(error) => {
                return Err(error);
            },
        };
        let header = match self.parse_signature() {
            Ok(header) => header,
            Err(error) => {
                return Err(error);
            },
        };
        self.parse_function_body(start, header)
    }
}

} // verus!
