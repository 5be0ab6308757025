//! The mathematical model of syntax: an ordered tree of labelled, spanned nodes.

use crate::ast::expr::{BinaryOp, UnaryOp};
use crate::lexer::token::{FloatWidth, IntLit};
use crate::span::{Span, Spanned};
use vstd::prelude::*;

verus! {

/// What a node of the syntax tree is, with what it holds besides its children.
pub ghost enum NodeKind {
    /// Children: the left and the right operand.
    Binary(BinaryOp),
    /// Child: the operand.
    Unary(UnaryOp),
    /// Children: the target and the value. Holds the operator of a compound assignment.
    Assignment(Option<BinaryOp>),
    /// Children: the owner and the identifier of the member.
    MemberAccess,
    /// Children: the owner and the index.
    Index,
    /// Children: the callee and the argument list.
    FunctionCall,
    /// Children: the arguments, in order.
    Arguments,
    /// Holds the digits of the literal as written, without separators.
    Float(FloatWidth, Seq<u8>),
    Int(IntLit),
    Bool(bool),
    /// Holds the decoded contents of the literal.
    String(Seq<u8>),
    /// Children: the qualifying identifiers, in order, then the local name.
    IdentifierPath,
    /// Holds the name.
    Identifier(Seq<u8>),
    EmptyStatement,
    /// Child: the expression.
    ExprStatement,
    /// Children: the identifier, the type name if `typed`, the initial value if `initialised`.
    VarDecl { typed: bool, initialised: bool },
    /// Child: the path.
    UseStatement,
    /// Children: the condition, the body, the alternative if `otherwise`.
    If { otherwise: bool },
    /// Children: the condition and the body.
    While,
    /// Children: the statements, in order.
    Block,
    Break,
    Continue,
    /// Child: the value if `valued`.
    Return { valued: bool },
    /// Children: the name and the type name.
    Parameter,
    /// Children: the parameters, in order.
    Parameters,
    /// Children: the name, the parameter list, the return type if `typed`, the body.
    Function { typed: bool },
    /// Children: the name, the parameter list, the return type if `typed`.
    ExternFunction { typed: bool },
    /// Children: the name and the type name.
    StructMember,
    /// Children: the name, then the members in order.
    Struct,
    /// Child: the path.
    UseDecl,
    /// Children: the members, in order.
    CompilationUnit,
}

/// A node of the syntax tree: what it is, the source text it covers, and
/// the nodes below it, in source order.
pub ghost struct Tree {
    pub kind: NodeKind,
    pub span: Span,
    pub children: Seq<Tree>,
}

/// The syntax nodes: each has a tree for every span it may be given.
pub trait Syntax {
    /// The tree of the node, covering `span`.
    spec fn tree(self, span: Span) -> Tree;
}

/// The tree of a spanned node.
pub open spec fn spanned_tree<T: Syntax>(node: Spanned<T>) -> Tree {
    node.value.tree(node.span)
}

impl Tree {
    /// A node without children.
    pub open spec fn leaf(kind: NodeKind, span: Span) -> Tree {
        Tree { kind, span, children: Seq::empty() }
    }

    /// A node with the given children.
    pub open spec fn node(kind: NodeKind, span: Span, children: Seq<Tree>) -> Tree {
        Tree { kind, span, children }
    }
}

} // verus!
