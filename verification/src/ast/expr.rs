//! Expressions.

use crate::ast::ident::{Identifier, IdentifierPath};
use crate::ast::tree::{NodeKind, Syntax, Tree};
use crate::lexer::token::{FloatWidth, IntLit};
use crate::span::{Span, Spanned};
use vstd::prelude::*;

verus! {

#[derive(Clone, Copy, Debug, PartialEq, Eq, Structural)]
pub enum BinaryOp {
    Add,
    Sub,
    Mul,
    Div,
    Mod,
    Pow,
    BinaryAnd,
    BinaryOr,
    BinaryXor,
    BinaryShl,
    BinaryShr,
    BoolAnd,
    BoolOr,
    Eq,
    NotEq,
    Less,
    LessEq,
    Greater,
    GreaterEq,
}

#[derive(Clone, Copy, Debug, PartialEq, Eq, Structural)]
pub enum UnaryOp {
    Plus,
    Minus,
    Not,
    Invert,
}

/// A float literal: its width and its digits as written, without separators.
/// The digits are a decimal number with an optional fraction and exponent.
#[derive(Debug, PartialEq, Eq)]
pub struct FloatLit {
    pub width: FloatWidth,
    pub digits: Vec<u8>,
}

/// An expression. The variants that hold more than a word or two are boxed,
/// so that the enum itself stays small.
#[derive(Debug, PartialEq, Eq)]
pub enum Expr {
    Binary(Box<BinaryExpr>),
    Unary(Box<UnaryExpr>),
    Assignment(Box<AssignmentExpr>),
    MemberAccess(Box<MemberAccessExpr>),
    Index(Box<IndexExpr>),
    FunctionCall(Box<FunctionCallExpr>),
    Float(Box<FloatLit>),
    Int(IntLit),
    Bool(bool),
    String(Box<Vec<u8>>),
    IdentifierPath(Box<IdentifierPath>),
}

#[derive(Debug, PartialEq, Eq)]
pub struct BinaryExpr {
    pub left: Spanned<Expr>,
    pub op: BinaryOp,
    pub right: Spanned<Expr>,
}

#[derive(Debug, PartialEq, Eq)]
pub struct UnaryExpr {
    pub op: UnaryOp,
    pub value: Spanned<Expr>,
}

/// An assignment; `op` is the operator of a compound assignment.
#[derive(Debug, PartialEq, Eq)]
pub struct AssignmentExpr {
    pub lvalue: Spanned<Expr>,
    pub op: Option<BinaryOp>,
    pub rvalue: Spanned<Expr>,
}

#[derive(Debug, PartialEq, Eq)]
pub struct MemberAccessExpr {
    pub owner: Spanned<Expr>,
    pub member: Spanned<Identifier>,
}

#[derive(Debug, PartialEq, Eq)]
pub struct IndexExpr {
    pub owner: Spanned<Expr>,
    pub index: Spanned<Expr>,
}

#[derive(Debug, PartialEq, Eq)]
pub struct FunctionCallExpr {
    pub identity: Spanned<Expr>,
    pub arguments: Spanned<Vec<Spanned<Expr>>>,
}

/// The tree of an expression that covers `span`.
pub open spec fn expr_tree(expr: Expr, span: Span) -> Tree
    decreases expr,
{
    match expr {
        Expr::Binary(binary) => Tree::node(
            NodeKind::Binary(binary.op),
            span,
            seq![
                expr_tree(binary.left.value, binary.left.span),
                expr_tree(binary.right.value, binary.right.span),
            ],
        ),
        Expr::Unary(unary) => Tree::node(
            NodeKind::Unary(unary.op),
            span,
            seq![expr_tree(unary.value.value, unary.value.span)],
        ),
        Expr::Assignment(assignment) => Tree::node(
            NodeKind::Assignment(assignment.op),
            span,
            seq![
                expr_tree(assignment.lvalue.value, assignment.lvalue.span),
                expr_tree(assignment.rvalue.value, assignment.rvalue.span),
            ],
        ),
        Expr::MemberAccess(access) => Tree::node(
            NodeKind::MemberAccess,
            span,
            seq![
                expr_tree(access.owner.value, access.owner.span),
                access.member.value.tree(access.member.span),
            ],
        ),
        Expr::Index(index) => Tree::node(
            NodeKind::Index,
            span,
            seq![
                expr_tree(index.owner.value, index.owner.span),
                expr_tree(index.index.value, index.index.span),
            ],
        ),
        Expr::FunctionCall(call) => Tree::node(
            NodeKind::FunctionCall,
            span,
            seq![
                expr_tree(call.identity.value, call.identity.span),
                Tree::node(
                    NodeKind::Arguments,
                    call.arguments.span,
                    expr_trees(call.arguments.value@),
                ),
            ],
        ),
        Expr::Float(float) => Tree::leaf(NodeKind::Float(float.width, float.digits@), span),
        Expr::Int(literal) => Tree::leaf(NodeKind::Int(literal), span),
        Expr::Bool(value) => Tree::leaf(NodeKind::Bool(value), span),
        Expr::String(text) => Tree::leaf(NodeKind::String(text@), span),
        Expr::IdentifierPath(path) => path.tree(span),
    }
}

/// The trees of a run of expressions.
pub open spec fn expr_trees(exprs: Seq<Spanned<Expr>>) -> Seq<Tree>
    decreases exprs,
{
    if exprs.len() == 0 {
        Seq::empty()
    } else {
        expr_trees(exprs.drop_last()).push(expr_tree(exprs.last().value, exprs.last().span))
    }
}

impl Syntax for Expr {
    open spec fn tree(self, span: Span) -> Tree {
        expr_tree(self, span)
    }
}

impl BinaryExpr {
    /// The binary operation over two operands, spanning both.
    pub fn new(left: Spanned<Expr>, op: BinaryOp, right: Spanned<Expr>) -> (node: Spanned<Expr>)
        ensures
            node.span == left.span.cover(right.span),
            node.value == Expr::Binary(Box::new(BinaryExpr { left, op, right })),
    {
        let span = left.span.to(right.span);
        Spanned { value: Expr::Binary(Box::new(BinaryExpr { left, op, right })), span }
    }
}

impl UnaryExpr {
    /// The unary operation whose operator stands at `start`.
    pub fn new(start: Span, op: UnaryOp, value: Spanned<Expr>) -> (node: Spanned<Expr>)
        ensures
            node.span == start.cover(value.span),
            node.value == Expr::Unary(Box::new(UnaryExpr { op, value })),
    {
        let span = start.to(value.span);
        Spanned { value: Expr::Unary(Box::new(UnaryExpr { op, value })), span }
    }
}

impl AssignmentExpr {
    /// The assignment of `rvalue` to `lvalue`, spanning both.
    pub fn new(lvalue: Spanned<Expr>, op: Option<BinaryOp>, rvalue: Spanned<Expr>) -> (node:
        Spanned<Expr>)
        ensures
            node.span == lvalue.span.cover(rvalue.span),
            node.value == Expr::Assignment(Box::new(AssignmentExpr { lvalue, op, rvalue })),
    {
        let span = lvalue.span.to(rvalue.span);
        Spanned { value: Expr::Assignment(Box::new(AssignmentExpr { lvalue, op, rvalue })), span }
    }
}

impl MemberAccessExpr {
    /// The access to `member` of `owner`, spanning both.
    pub fn new(owner: Spanned<Expr>, member: Spanned<Identifier>) -> (node: Spanned<Expr>)
        ensures
            node.span == owner.span.cover(member.span),
            node.value == Expr::MemberAccess(Box::new(MemberAccessExpr { owner, member })),
    {
        let span = owner.span.to(member.span);
        Spanned { value: Expr::MemberAccess(Box::new(MemberAccessExpr { owner, member })), span }
    }
}

impl IndexExpr {
    /// The index into `owner`, up to the closing bracket at `end`.
    pub fn new(owner: Spanned<Expr>, index: Spanned<Expr>, end: Span) -> (node: Spanned<Expr>)
        ensures
            node.span == owner.span.cover(end),
            node.value == Expr::Index(Box::new(IndexExpr { owner, index })),
    {
        let span = owner.span.to(end);
        Spanned { value: Expr::Index(Box::new(IndexExpr { owner, index })), span }
    }
}

impl FunctionCallExpr {
    /// The call of `owner` with `arguments`, up to the closing parenthesis at `end`.
    pub fn new(owner: Spanned<Expr>, arguments: Spanned<Vec<Spanned<Expr>>>, end: Span) -> (node:
        Spanned<Expr>)
        ensures
            node.span == owner.span.cover(end),
            node.value == Expr::FunctionCall(
                Box::new(FunctionCallExpr { identity: owner, arguments }),
            ),
    {
        let span = owner.span.to(end);
        Spanned {
            value: Expr::FunctionCall(Box::new(FunctionCallExpr { identity: owner, arguments })),
            span,
        }
    }
}

} // verus!
