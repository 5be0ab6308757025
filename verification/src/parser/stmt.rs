//! Statements.

use crate::ast::expr::Expr;
use crate::ast::ident::{Identifier, IdentifierPath};
use crate::ast::stmt::{
    statement_trees, BlockStatement, ExprStatement, IfStatement, ReturnStatement, Statement,
    UseStatement, VarDeclStatement, WhileStatement,
};
use crate::ast::tree::{spanned_tree, NodeKind, Tree};
use crate::lexer::token::TokenType;
use crate::parser::cursor::{parsed, Parser};
use crate::parser::error::{Expected, ParserError, ParserResult};
use crate::parser::grammar::{
    advance, ahead, current, eat, expr, identifier, identifier_path, syntax_error, Parsed,
};
use crate::span::{Span, Spanned};
use vstd::prelude::*;

verus! {

/// The semicolon at `pos` that closes the statement `statement`, of which
/// it is no part.
pub open spec fn closing(input: Seq<u8>, pos: int, statement: Tree) -> Parsed {
    let semicolon = eat(input, pos, TokenType::Semicolon, Expected::Semicolon);
    if semicolon.result is Err {
        semicolon.failure()
    } else {
        Parsed::done(statement, semicolon.next)
    }
}

/// A statement that must be closed by a semicolon.
pub open spec fn line(input: Seq<u8>, from: int, statement: Parsed) -> Parsed {
    if !statement.advanced(input, from) {
        statement
    } else {
        closing(input, statement.next, statement.tree())
    }
}

/// `empty_statement ::= ';'`
pub open spec fn empty_statement(input: Seq<u8>, pos: int) -> Parsed {
    let semicolon = eat(input, pos, TokenType::Semicolon, Expected::Semicolon);
    if semicolon.result is Err {
        semicolon.failure()
    } else {
        Parsed::done(Tree::leaf(NodeKind::EmptyStatement, semicolon.span()), semicolon.next)
    }
}

/// `break_statement ::= 'break'`
pub open spec fn break_statement(input: Seq<u8>, pos: int) -> Parsed {
    let keyword = eat(input, pos, TokenType::Break, Expected::BreakKeyword);
    if keyword.result is Err {
        keyword.failure()
    } else {
        Parsed::done(Tree::leaf(NodeKind::Break, keyword.span()), keyword.next)
    }
}

/// `continue_statement ::= 'continue'`
pub open spec fn continue_statement(input: Seq<u8>, pos: int) -> Parsed {
    let keyword = eat(input, pos, TokenType::Continue, Expected::ContinueKeyword);
    if keyword.result is Err {
        keyword.failure()
    } else {
        Parsed::done(Tree::leaf(NodeKind::Continue, keyword.span()), keyword.next)
    }
}

/// `return_statement ::= 'return' expr?`
pub open spec fn return_statement(input: Seq<u8>, pos: int) -> Parsed {
    let keyword = eat(input, pos, TokenType::Return, Expected::ReturnKeyword);
    if !keyword.advanced(input, pos) {
        keyword.failure()
    } else {
        match current(input, keyword.next) {
            Err(error) => Parsed::fail(error, keyword.next),
            Ok(token) => if token.token_type == TokenType::Semicolon {
                Parsed::done(
                    Tree::node(NodeKind::Return { valued: false }, keyword.span(), Seq::empty()),
                    keyword.next,
                )
            } else {
                let value = expr(input, keyword.next);
                if !value.advanced(input, pos) {
                    value
                } else {
                    Parsed::done(
                        Tree::node(
                            NodeKind::Return { valued: true },
                            keyword.span().cover(value.tree().span),
                            seq![value.tree()],
                        ),
                        value.next,
                    )
                }
            },
        }
    }
}

/// `expr_statement ::= expr`
pub open spec fn expr_statement(input: Seq<u8>, pos: int) -> Parsed {
    let value = expr(input, pos);
    if !value.advanced(input, pos) {
        value
    } else {
        Parsed::done(
            Tree::node(NodeKind::ExprStatement, value.tree().span, seq![value.tree()]),
            value.next,
        )
    }
}

/// `use_statement ::= 'use' identifier_path`
pub open spec fn use_statement(input: Seq<u8>, pos: int) -> Parsed {
    let keyword = eat(input, pos, TokenType::Use, Expected::UseKeyword);
    if !keyword.advanced(input, pos) {
        keyword.failure()
    } else {
        let path = identifier_path(input, keyword.next);
        if !path.advanced(input, pos) {
            path
        } else {
            Parsed::done(
                Tree::node(
                    NodeKind::UseStatement,
                    keyword.span().cover(path.tree().span),
                    seq![path.tree()],
                ),
                path.next,
            )
        }
    }
}

/// The trees of a part that may be absent.
pub open spec fn optional(tree: Option<Tree>) -> Seq<Tree> {
    match tree {
        Some(tree) => seq![tree],
        None => Seq::empty(),
    }
}

/// A variable declaration from its initial value on: `( '=' expr )?`. A
/// declaration with neither a type nor an initial value is an error that
/// spans the declaration and the token after it.
pub open spec fn var_decl_value(
    input: Seq<u8>,
    pos: int,
    start: Span,
    name: Tree,
    type_path: Option<Tree>,
) -> Parsed {
    match current(input, pos) {
        Err(error) => Parsed::fail(error, pos),
        Ok(token) => if token.token_type == TokenType::Assign && ahead(input, pos) {
            let value = expr(input, advance(input, pos));
            if !value.advanced(input, pos) {
                value
            } else {
                Parsed::done(
                    Tree::node(
                        NodeKind::VarDecl { typed: type_path is Some, initialised: true },
                        start.cover(value.tree().span),
                        seq![name] + optional(type_path) + seq![value.tree()],
                    ),
                    value.next,
                )
            }
        } else {
            match type_path {
                Some(path) => Parsed::done(
                    Tree::node(
                        NodeKind::VarDecl { typed: true, initialised: false },
                        start.cover(path.span),
                        seq![name, path],
                    ),
                    pos,
                ),
                None => Parsed::fail(
                    syntax_error(Expected::TypeOrValue, start.cover(token.span)),
                    pos,
                ),
            }
        },
    }
}

/// `var_decl ::= 'let' identifier ( ':' identifier_path )? ( '=' expr )?`,
/// with at least one of the type and the initial value.
pub open spec fn var_decl(input: Seq<u8>, pos: int) -> Parsed {
    let keyword = eat(input, pos, TokenType::Let, Expected::LetKeyword);
    if !keyword.advanced(input, pos) {
        keyword.failure()
    } else {
        let name = identifier(input, keyword.next);
        if !name.advanced(input, pos) {
            name
        } else {
            match current(input, name.next) {
                Err(error) => Parsed::fail(error, name.next),
                Ok(token) => if token.token_type == TokenType::Colon && ahead(input, name.next) {
                    let path = identifier_path(input, advance(input, name.next));
                    if !path.advanced(input, pos) {
                        path
                    } else {
                        var_decl_value(
                            input,
                            path.next,
                            keyword.span(),
                            name.tree(),
                            Some(path.tree()),
                        )
                    }
                } else {
                    var_decl_value(input, name.next, keyword.span(), name.tree(), None)
                },
            }
        }
    }
}

/// ```text
/// statement ::= if_statement | while_statement | block
///             | ( use_statement | var_decl | break_statement
///               | continue_statement | return_statement | expr_statement ) ';'
///             | ';'
/// ```
pub open spec fn statement(input: Seq<u8>, pos: int) -> Parsed
    decreases input.len() - pos, 60int,
{
    match current(input, pos) {
        Err(error) => Parsed::fail(error, pos),
        Ok(token) => match token.token_type {
            TokenType::If => if_statement(input, pos),
            TokenType::While => while_statement(input, pos),
            TokenType::LeftBrace => block(input, pos),
            TokenType::Semicolon => empty_statement(input, pos),
            TokenType::Use => line(input, pos, use_statement(input, pos)),
            TokenType::Let => line(input, pos, var_decl(input, pos)),
            TokenType::Break => line(input, pos, break_statement(input, pos)),
            TokenType::Continue => line(input, pos, continue_statement(input, pos)),
            TokenType::Return => line(input, pos, return_statement(input, pos)),
            _ => line(input, pos, expr_statement(input, pos)),
        },
    }
}

/// The condition in parentheses that follows the keyword of an `if` or a `while`.
pub open spec fn condition(input: Seq<u8>, pos: int) -> Parsed {
    let open = eat(input, pos, TokenType::LeftParen, Expected::LeftParen);
    if !open.advanced(input, pos) {
        open.failure()
    } else {
        let value = expr(input, open.next);
        if !value.advanced(input, pos) {
            value
        } else {
            let close = eat(input, value.next, TokenType::RightParen, Expected::RightParen);
            if close.result is Err {
                close.failure()
            } else {
                Parsed::done(value.tree(), close.next)
            }
        }
    }
}

/// `if_statement ::= 'if' '(' expr ')' statement ( 'else' statement )?`
pub open spec fn if_statement(input: Seq<u8>, pos: int) -> Parsed
    decreases input.len() - pos, 59int,
{
    let keyword = eat(input, pos, TokenType::If, Expected::IfKeyword);
    if !keyword.advanced(input, pos) {
        keyword.failure()
    } else {
        let test = condition(input, keyword.next);
        if !test.advanced(input, pos) {
            test
        } else {
            let body = statement(input, test.next);
            if !body.advanced(input, pos) {
                body
            } else {
                match current(input, body.next) {
                    Err(error) => Parsed::fail(error, body.next),
                    Ok(token) => if token.token_type == TokenType::Else && ahead(input, body.next) {
                        let otherwise = statement(input, advance(input, body.next));
                        if !otherwise.advanced(input, pos) {
                            otherwise
                        } else {
                            Parsed::done(
                                Tree::node(
                                    NodeKind::If { otherwise: true },
                                    keyword.span().cover(otherwise.tree().span),
                                    seq![test.tree(), body.tree(), otherwise.tree()],
                                ),
                                otherwise.next,
                            )
                        }
                    } else {
                        Parsed::done(
                            Tree::node(
                                NodeKind::If { otherwise: false },
                                keyword.span().cover(body.tree().span),
                                seq![test.tree(), body.tree()],
                            ),
                            body.next,
                        )
                    },
                }
            }
        }
    }
}

/// `while_statement ::= 'while' '(' expr ')' statement`
pub open spec fn while_statement(input: Seq<u8>, pos: int) -> Parsed
    decreases input.len() - pos, 59int,
{
    let keyword = eat(input, pos, TokenType::While, Expected::WhileKeyword);
    if !keyword.advanced(input, pos) {
        keyword.failure()
    } else {
        let test = condition(input, keyword.next);
        if !test.advanced(input, pos) {
            test
        } else {
            let body = statement(input, test.next);
            if !body.advanced(input, pos) {
                body
            } else {
                Parsed::done(
                    Tree::node(
                        NodeKind::While,
                        keyword.span().cover(body.tree().span),
                        seq![test.tree(), body.tree()],
                    ),
                    body.next,
                )
            }
        }
    }
}

/// `block ::= '{' statement* '}'`
pub open spec fn block(input: Seq<u8>, pos: int) -> Parsed
    decreases input.len() - pos, 59int,
{
    let open = eat(input, pos, TokenType::LeftBrace, Expected::LeftBrace);
    if !open.advanced(input, pos) {
        open.failure()
    } else {
        block_tail(input, open.next, open.span(), Seq::empty())
    }
}

/// The rest of a block that opened at `open`, of which the statements
/// `read` have been read.
pub open spec fn block_tail(input: Seq<u8>, pos: int, open: Span, read: Seq<Tree>) -> Parsed
    decreases input.len() - pos, 61int,
{
    match current(input, pos) {
        Err(error) => Parsed::fail(error, pos),
        Ok(token) => if token.token_type == TokenType::RightBrace {
            Parsed::done(
                Tree::node(NodeKind::Block, open.cover(token.span), read),
                advance(input, pos),
            )
        } else {
            let next = statement(input, pos);
            if !next.advanced(input, pos) {
                next
            } else {
                block_tail(input, next.next, open, read.push(next.tree()))
            }
        },
    }
}

impl<'src> Parser<'src> {
    /// Parses one statement.
    pub fn parse_statement(&mut self) -> (result: ParserResult<Statement>)
        requires
            old(self).wf(),
        ensures
            final(self).follows(
                *old(self),
                result,
                statement(old(self).source(), old(self).position()),
            ),
        decreases old(self).source().len() - old(self).position(), 60int,
    {
        let token_type = match self.token_type() {
            Ok(token_type) => token_type,
            Err(error) => {
                return Err(error);
            },
        };
        let open = match token_type {
            TokenType::If => {
                return self.parse_if_statement();
            },
            TokenType::While => {
                return self.parse_while_statement();
            },
            TokenType::LeftBrace => {
                return self.parse_block_statement();
            },
            TokenType::Semicolon => {
                return self.parse_empty_statement();
            },
            TokenType::Use => self.parse_use_statement(),
            TokenType::Let => self.parse_var_decl_statement(),
            TokenType::Break => self.parse_break_statement(),
            TokenType::Continue => self.parse_continue_statement(),
            TokenType::Return => self.parse_return_statement(),
            _ => self.parse_expr_statement(),
        };
        match open {
            Ok(statement) => self.take_line_statement(statement),
            Err(error) => Err(error),
        }
    }

    /// Takes the semicolon that closes `statement`.
    fn take_line_statement(&mut self, statement: Spanned<Statement>) -> (result: ParserResult<
        Statement,
    >)
        requires
            old(self).wf(),
        ensures
            final(self).wf(),
            final(self).source() == old(self).source(),
            old(self).position() <= final(self).position() <= old(self).source().len(),
            parsed(result, final(self).position()) == closing(
                old(self).source(),
                old(self).position(),
                spanned_tree(statement),
            ),
    {
        match self.eat(TokenType::Semicolon, Expected::Semicolon) {
            Ok(_) => Ok(statement),
            Err(error) => Err(error),
        }
    }

    /// `empty_statement ::= ';'`
    fn parse_empty_statement(&mut self) -> (result: ParserResult<Statement>)
        requires
            old(self).wf(),
        ensures
            final(self).follows(
                *old(self),
                result,
                empty_statement(old(self).source(), old(self).position()),
            ),
    {
        match self.eat(TokenType::Semicolon, Expected::Semicolon) {
            Ok(span) => Ok(Spanned { value: Statement::Empty, span }),
            Err(error) => Err(error),
        }
    }

    /// `break_statement ::= 'break'`
    fn parse_break_statement(&mut self) -> (result: ParserResult<Statement>)
        requires
            old(self).wf(),
        ensures
            final(self).follows(
                *old(self),
                result,
                break_statement(old(self).source(), old(self).position()),
            ),
    {
        match self.eat(TokenType::Break, Expected::BreakKeyword) {
            Ok(span) => Ok(Spanned { value: Statement::Break, span }),
            Err(error) => Err(error),
        }
    }

    /// `continue_statement ::= 'continue'`
    fn parse_continue_statement(&mut self) -> (result: ParserResult<Statement>)
        requires
            old(self).wf(),
        ensures
            final(self).follows(
                *old(self),
                result,
                continue_statement(old(self).source(), old(self).position()),
            ),
    {
        match self.eat(TokenType::Continue, Expected::ContinueKeyword) {
            Ok(span) => Ok(Spanned { value: Statement::Continue, span }),
            Err(error) => Err(error),
        }
    }

    /// `return_statement ::= 'return' expr?`
    fn parse_return_statement(&mut self) -> (result: ParserResult<Statement>)
        requires
            old(self).wf(),
        ensures
            final(self).follows(
                *old(self),
                result,
                return_statement(old(self).source(), old(self).position()),
            ),
    {
        let keyword = match self.eat(TokenType::Return, Expected::ReturnKeyword) {
            Ok(keyword) => keyword,
            Err(error) => {
                return Err(error);
            },
        };
        match self.token_type() {
            Err(error) => Err(error),
            Ok(TokenType::Semicolon) => Ok(
                Spanned {
                    value: Statement::Return(Box::new(ReturnStatement { expr: None })),
                    span: keyword,
                },
            ),
            Ok(_) => {
                let value = match self.parse_expr() {
                    Ok(value) => value,
                    Err(error) => {
                        return Err(error);
                    },
                };
                let span = keyword.to(value.span);
                Ok(
                    Spanned {
                        value: Statement::Return(Box::new(ReturnStatement { expr: Some(value) })),
                        span,
                    },
                )
            },
        }
    }

    /// `expr_statement ::= expr`
    pub fn parse_expr_statement(&mut self) -> (result: ParserResult<Statement>)
        requires
            old(self).wf(),
        ensures
            final(self).follows(
                *old(self),
                result,
                expr_statement(old(self).source(), old(self).position()),
            ),
    {
        match self.parse_expr() {
            Ok(value) => {
                let span = value.span;
                Ok(Spanned { value: Statement::Expr(Box::new(ExprStatement { expr: value })), span })
            },
            Err(error) => Err(error),
        }
    }

    /// `use_statement ::= 'use' identifier_path`
    fn parse_use_statement(&mut self) -> (result: ParserResult<Statement>)
        requires
            old(self).wf(),
        ensures
            final(self).follows(
                *old(self),
                result,
                use_statement(old(self).source(), old(self).position()),
            ),
    {
        let keyword = match self.eat(TokenType::Use, Expected::UseKeyword) {
            Ok(keyword) => keyword,
            Err(error) => {
                return Err(error);
            },
        };
        let path = match self.parse_identifier_path() {
            Ok(path) => path,
            Err(error) => {
                return Err(error);
            },
        };
        let span = keyword.to(path.span);
        Ok(Spanned { value: Statement::Use(Box::new(UseStatement { path })), span })
    }

    /// A variable declaration from its initial value on.
    fn parse_var_decl_value(
        &mut self,
        start: Span,
        identifier: Spanned<Identifier>,
        type_path: Option<Spanned<IdentifierPath>>,
    ) -> (result: ParserResult<Statement>)
        requires
            old(self).wf(),
        ensures
            final(self).wf(),
            final(self).source() == old(self).source(),
            old(self).position() <= final(self).position() <= old(self).source().len(),
            parsed(result, final(self).position()) == var_decl_value(
                old(self).source(),
                old(self).position(),
                start,
                spanned_tree(identifier),
                optional_tree(type_path),
            ),
    {
        let here = self.span();
        let token_type = match self.token_type() {
            Ok(token_type) => token_type,
            Err(error) => {
                return Err(error);
            },
        };
        match token_type {
            TokenType::Assign => {
                self.advance();
                let value = match self.parse_expr() {
                    Ok(value) => value,
                    Err(error) => {
                        return Err(error);
                    },
                };
                let span = start.to(value.span);
                let ghost children = seq![spanned_tree(identifier)] + optional(
                    optional_tree(type_path),
                ) + seq![spanned_tree(value)];
                let node = Spanned {
                    value: Statement::VarDecl(
                        Box::new(VarDeclStatement { identifier, type_path, expr: Some(value) }),
                    ),
                    span,
                };
                assert(spanned_tree(node).children =~= children);
                Ok(node)
            },
            _ => match type_path {
                Some(path) => {
                    let span = start.to(path.span);
                    let ghost children = seq![spanned_tree(identifier), spanned_tree(path)];
                    let node = Spanned {
                        value: Statement::VarDecl(
                            Box::new(
                                VarDeclStatement { identifier, type_path: Some(path), expr: None },
                            ),
                        ),
                        span,
                    };
                    assert(spanned_tree(node).children =~= children);
                    Ok(node)
                },
                None => Err(
                    Spanned {
                        value: ParserError::SyntaxError(Expected::TypeOrValue),
                        span: start.to(here),
                    },
                ),
            },
        }
    }

    /// `var_decl ::= 'let' identifier ( ':' identifier_path )? ( '=' expr )?`
    fn parse_var_decl_statement(&mut self) -> (result: ParserResult<Statement>)
        requires
            old(self).wf(),
        ensures
            final(self).follows(
                *old(self),
                result,
                var_decl(old(self).source(), old(self).position()),
            ),
    {
        let keyword = match self.eat(TokenType::Let, Expected::LetKeyword) {
            Ok(keyword) => keyword,
            Err(error) => {
                return Err(error);
            },
        };
        let identifier = match self.parse_identifier() {
            Ok(identifier) => identifier,
            Err(error) => {
                return Err(error);
            },
        };
        match self.token_type() {
            Err(error) => Err(error),
            Ok(TokenType::Colon) => {
                self.advance();
                let path = match self.parse_identifier_path() {
                    Ok(path) => path,
                    Err(error) => {
                        return Err(error);
                    },
                };
                self.parse_var_decl_value(keyword, identifier, Some(path))
            },
            Ok(_) => self.parse_var_decl_value(keyword, identifier, None),
        }
    }

    /// The condition in parentheses that follows the keyword of an `if` or a `while`.
    fn parse_condition(&mut self) -> (result: ParserResult<Expr>)
        requires
            old(self).wf(),
        ensures
            final(self).follows(
                *old(self),
                result,
                condition(old(self).source(), old(self).position()),
            ),
    {
        match self.eat(TokenType::LeftParen, Expected::LeftParen) {
            Ok(_) => {},
            Err(error) => {
                return Err(error);
            },
        }
        let value = match self.parse_expr() {
            Ok(value) => value,
            Err(error) => {
                return Err(error);
            },
        };
        match self.eat(TokenType::RightParen, Expected::RightParen) {
            Ok(_) => Ok(value),
            Err(error) => Err(error),
        }
    }

    /// `if_statement ::= 'if' '(' expr ')' statement ( 'else' statement )?`
    fn parse_if_statement(&mut self) -> (result: ParserResult<Statement>)
        requires
            old(self).wf(),
        ensures
            final(self).follows(
                *old(self),
                result,
                if_statement(old(self).source(), old(self).position()),
            ),
        decreases old(self).source().len() - old(self).position(), 59int,
    {
        let keyword = match self.eat(TokenType::If, Expected::IfKeyword) {
            Ok(keyword) => keyword,
            Err(error) => {
                return Err(error);
            },
        };
        let condition = match self.parse_condition() {
            Ok(condition) => condition,
            Err(error) => {
                return Err(error);
            },
        };
        let body = match self.parse_statement() {
            Ok(body) => body,
            Err(error) => {
                return Err(error);
            },
        };
        match self.token_type() {
            Err(error) => Err(error),
            Ok(TokenType::Else) => {
                self.advance();
                let otherwise = match self.parse_statement() {
                    Ok(otherwise) => otherwise,
                    Err(error) => {
                        return Err(error);
                    },
                };
                let span = keyword.to(otherwise.span);
                let ghost children = seq![
                    spanned_tree(condition),
                    spanned_tree(body),
                    spanned_tree(otherwise),
                ];
                let node = Spanned {
                    value: Statement::If(
                        Box::new(IfStatement { condition, body, otherwise: Some(otherwise) }),
                    ),
                    span,
                };
                assert(spanned_tree(node).children =~= children);
                Ok(node)
            },
            Ok(_) => {
                let span = keyword.to(body.span);
                let ghost children = seq![spanned_tree(condition), spanned_tree(body)];
                let node = Spanned {
                    value: Statement::If(Box::new(IfStatement { condition, body, otherwise: None })),
                    span,
                };
                assert(spanned_tree(node).children =~= children);
                Ok(node)
            },
        }
    }

    /// `while_statement ::= 'while' '(' expr ')' statement`
    fn parse_while_statement(&mut self) -> (result: ParserResult<Statement>)
        requires
            old(self).wf(),
        ensures
            final(self).follows(
                *old(self),
                result,
                while_statement(old(self).source(), old(self).position()),
            ),
        decreases old(self).source().len() - old(self).position(), 59int,
    {
        let keyword = match self.eat(TokenType::While, Expected::WhileKeyword) {
            Ok(keyword) => keyword,
            Err(error) => {
                return Err(error);
            },
        };
        let condition = match self.parse_condition() {
            Ok(condition) => condition,
            Err(error) => {
                return Err(error);
            },
        };
        let body = match self.parse_statement() {
            Ok(body) => body,
            Err(error) => {
                return Err(error);
            },
        };
        let span = keyword.to(body.span);
        Ok(Spanned { value: Statement::While(Box::new(WhileStatement { condition, body })), span })
    }

    /// `block ::= '{' statement* '}'`
    pub fn parse_block_statement(&mut self) -> (result: ParserResult<Statement>)
        requires
            old(self).wf(),
        ensures
            final(self).follows(*old(self), result, block(old(self).source(), old(self).position())),
        decreases old(self).source().len() - old(self).position(), 59int,
    {
        let ghost input = self.source();
        let ghost start = self.position();
        proof {
            self.lemma_bounds();
        }
        let open = match self.eat(TokenType::LeftBrace, Expected::LeftBrace) {
            Ok(open) => open,
            Err(error) => {
                return Err(error);
            },
        };
        let mut statements: Vec<Spanned<Statement>> = Vec::new();
        loop
            invariant
                self.wf(),
                input == old(self).source(),
                start == old(self).position(),
                self.source() == input,
                0 <= start < self.position() <= input.len(),
                block(input, start) == block_tail(
                    input,
                    self.position(),
                    open,
                    statement_trees(statements@),
                ),
            decreases input.len() - self.position(),
        {
            let ghost before = statements@;
            let close = self.span();
            match self.token_type() {
                Err(error) => {
                    return Err(error);
                },
                Ok(TokenType::RightBrace) => {
                    self.advance();
                    let span = open.to(close);
                    return Ok(
                        Spanned {
                            value: Statement::Block(Box::new(BlockStatement { statements })),
                            span,
                        },
                    );
                },
                Ok(_) => {},
            }
            let next = match self.parse_statement() {
                Ok(next) => next,
                Err(error) => {
                    return Err(error);
                },
            };
            statements.push(next);
            assert(statements@.drop_last() == before);
        }
    }
}

/// The tree of a spanned node that may be absent.
pub open spec fn optional_tree<T: crate::ast::tree::Syntax>(node: Option<Spanned<T>>) -> Option<
    Tree,
> {
    match node {
        Some(node) => Some(spanned_tree(node)),
        None => None,
    }
}

} // verus!
