//! Statements.

use crate::ast::expr::{expr_tree, Expr};
use crate::ast::ident::{Identifier, IdentifierPath};
use crate::ast::tree::{NodeKind, Syntax, Tree};
use crate::span::{Span, Spanned};
use vstd::prelude::*;

verus! {

#[derive(Debug, PartialEq, Eq)]
pub enum Statement {
    Empty,
    Expr(Box<ExprStatement>),
    VarDecl(Box<VarDeclStatement>),
    Use(Box<UseStatement>),
    If(Box<IfStatement>),
    While(Box<WhileStatement>),
    Block(Box<BlockStatement>),
    Break,
    Continue,
    Return(Box<ReturnStatement>),
}

#[derive(Debug, PartialEq, Eq)]
pub struct ExprStatement {
    pub expr: Spanned<Expr>,
}

/// A `let` declaration. At least one of the type name and the initial value is there.
#[derive(Debug, PartialEq, Eq)]
pub struct VarDeclStatement {
    pub identifier: Spanned<Identifier>,
    pub type_path: Option<Spanned<IdentifierPath>>,
    pub expr: Option<Spanned<Expr>>,
}

#[derive(Debug, PartialEq, Eq)]
pub struct UseStatement {
    pub path: Spanned<IdentifierPath>,
}

#[derive(Debug, PartialEq, Eq)]
pub struct IfStatement {
    pub condition: Spanned<Expr>,
    pub body: Spanned<Statement>,
    pub otherwise: Option<Spanned<Statement>>,
}

#[derive(Debug, PartialEq, Eq)]
pub struct WhileStatement {
    pub condition: Spanned<Expr>,
    pub body: Spanned<Statement>,
}

#[derive(Debug, PartialEq, Eq)]
pub struct BlockStatement {
    pub statements: Vec<Spanned<Statement>>,
}

#[derive(Debug, PartialEq, Eq)]
pub struct ReturnStatement {
    pub expr: Option<Spanned<Expr>>,
}

/// The trees of the parts of a declaration that may be absent.
pub open spec fn optional_path_tree(path: Option<Spanned<IdentifierPath>>) -> Seq<Tree> {
    match path {
        Some(path) => seq![path.value.tree(path.span)],
        None => Seq::empty(),
    }
}

pub open spec fn optional_expr_tree(expr: Option<Spanned<Expr>>) -> Seq<Tree> {
    match expr {
        Some(expr) => seq![expr_tree(expr.value, expr.span)],
        None => Seq::empty(),
    }
}

/// The tree of a statement that covers `span`.
pub open spec fn statement_tree(statement: Statement, span: Span) -> Tree
    decreases statement,
{
    match statement {
        Statement::Empty => Tree::leaf(NodeKind::EmptyStatement, span),
        Statement::Expr(inner) => Tree::node(
            NodeKind::ExprStatement,
            span,
            seq![expr_tree(inner.expr.value, inner.expr.span)],
        ),
        Statement::VarDecl(decl) => Tree::node(
            NodeKind::VarDecl { typed: decl.type_path is Some, initialised: decl.expr is Some },
            span,
            seq![decl.identifier.value.tree(decl.identifier.span)] + optional_path_tree(
                decl.type_path,
            ) + optional_expr_tree(decl.expr),
        ),
        Statement::Use(inner) => Tree::node(
            NodeKind::UseStatement,
            span,
            seq![inner.path.value.tree(inner.path.span)],
        ),
        Statement::If(inner) => Tree::node(
            NodeKind::If { otherwise: inner.otherwise is Some },
            span,
            seq![
                expr_tree(inner.condition.value, inner.condition.span),
                statement_tree(inner.body.value, inner.body.span),
            ] + (match inner.otherwise {
                Some(otherwise) => seq![statement_tree(otherwise.value, otherwise.span)],
                None => Seq::empty(),
            }),
        ),
        Statement::While(inner) => Tree::node(
            NodeKind::While,
            span,
            seq![
                expr_tree(inner.condition.value, inner.condition.span),
                statement_tree(inner.body.value, inner.body.span),
            ],
        ),
        Statement::Block(block) => Tree::node(
            NodeKind::Block,
            span,
            statement_trees(block.statements@),
        ),
        Statement::Break => Tree::leaf(NodeKind::Break, span),
        Statement::Continue => Tree::leaf(NodeKind::Continue, span),
        Statement::Return(inner) => Tree::node(
            NodeKind::Return { valued: inner.expr is Some },
            span,
            optional_expr_tree(inner.expr),
        ),
    }
}

/// The trees of a run of statements.
pub open spec fn statement_trees(statements: Seq<Spanned<Statement>>) -> Seq<Tree>
    decreases statements,
{
    if statements.len() == 0 {
        Seq::empty()
    } else {
        statement_trees(statements.drop_last()).push(
            statement_tree(statements.last().value, statements.last().span),
        )
    }
}

impl Syntax for Statement {
    open spec fn tree(self, span: Span) -> Tree {
        statement_tree(self, span)
    }
}

impl ExprStatement {
    /// The statement of an expression, with the span of the expression.
    pub fn new(expr: Spanned<Expr>) -> (node: Spanned<Statement>)
        ensures
            node.span == expr.span,
            node.value == Statement::Expr(Box::new(ExprStatement { expr })),
    {
        let span = expr.span;
        Spanned { value: Statement::Expr(Box::new(ExprStatement { expr })), span }
    }
}

impl VarDeclStatement {
    /// The declaration whose keyword stands at `start`. It ends with its
    /// initial value, or with its type, or with its name.
    pub fn new(
        start: Span,
        identifier: Spanned<Identifier>,
        type_path: Option<Spanned<IdentifierPath>>,
        expr: Option<Spanned<Expr>>,
    ) -> (node: Spanned<Statement>)
        ensures
            node.span == start.cover(
                match expr {
                    Some(expr) => expr.span,
                    None => match type_path {
                        Some(path) => path.span,
                        None => identifier.span,
                    },
                },
            ),
            node.value == Statement::VarDecl(
                Box::new(VarDeclStatement { identifier, type_path, expr }),
            ),
    {
        let end = match &expr {
            Some(expr) => expr.span,
            None => match &type_path {
                Some(path) => path.span,
                None => identifier.span,
            },
        };
        let span = start.to(end);
        Spanned {
            value: Statement::VarDecl(Box::new(VarDeclStatement { identifier, type_path, expr })),
            span,
        }
    }
}

impl UseStatement {
    /// The `use` whose keyword stands at `start`.
    pub fn new(start: Span, path: Spanned<IdentifierPath>) -> (node: Spanned<Statement>)
        ensures
            node.span == start.cover(path.span),
            node.value == Statement::Use(Box::new(UseStatement { path })),
    {
        let span = start.to(path.span);
        Spanned { value: Statement::Use(Box::new(UseStatement { path })), span }
    }
}

impl IfStatement {
    /// The `if` whose keyword stands at `start`. It ends with its
    /// alternative, or with its body where it has none.
    pub fn new(
        start: Span,
        condition: Spanned<Expr>,
        body: Spanned<Statement>,
        otherwise: Option<Spanned<Statement>>,
    ) -> (node: Spanned<Statement>)
        ensures
            node.span == start.cover(
                match otherwise {
                    Some(otherwise) => otherwise.span,
                    None => body.span,
                },
            ),
            node.value == Statement::If(Box::new(IfStatement { condition, body, otherwise })),
    {
        let end = match &otherwise {
            Some(otherwise) => otherwise.span,
            None => body.span,
        };
        let span = start.to(end);
        Spanned { value: Statement::If(Box::new(IfStatement { condition, body, otherwise })), span }
    }
}

impl WhileStatement {
    /// The `while` whose keyword stands at `start`.
    pub fn new(start: Span, condition: Spanned<Expr>, body: Spanned<Statement>) -> (node: Spanned<
        Statement,
    >)
        ensures
            node.span == start.cover(body.span),
            node.value == Statement::While(Box::new(WhileStatement { condition, body })),
    {
        let span = start.to(body.span);
        Spanned { value: Statement::While(Box::new(WhileStatement { condition, body })), span }
    }
}

impl BlockStatement {
    /// The block between the braces at `start` and `end`.
    pub fn new(start: Span, statements: Vec<Spanned<Statement>>, end: Span) -> (node: Spanned<
        Statement,
    >)
        ensures
            node.span == start.cover(end),
            node.value == Statement::Block(Box::new(BlockStatement { statements })),
    {
        let span = start.to(end);
        Spanned { value: Statement::Block(Box::new(BlockStatement { statements })), span }
    }
}

impl ReturnStatement {
    /// The `return` whose keyword stands at `start`.
    pub fn new(start: Span, expr: Option<Spanned<Expr>>) -> (node: Spanned<Statement>)
        ensures
            node.span == (match expr {
                Some(expr) => start.cover(expr.span),
                None => start,
            }),
            node.value == Statement::Return(Box::new(ReturnStatement { expr })),
    {
        let span = match &expr {
            Some(expr) => start.to(expr.span),
            None => start,
        };
        Spanned { value: Statement::Return(Box::new(ReturnStatement { expr })), span }
    }
}

} // verus!
