//! The nodes of the intermediate representation, and the handles by which
//! they refer to each other.

use crate::lexer::token::FloatWidth;
use crate::span::Span;
use vstd::prelude::*;

verus! {

/// The text of a string literal or of a name.
pub type HirString = Vec<u8>;

/// The handle of an interned string.
#[derive(Clone, Copy, Debug, PartialEq, Eq, Hash, Structural)]
pub struct HirStringId {
    pub raw: u32,
}

/// The handle of a local variable.
#[derive(Clone, Copy, Debug, PartialEq, Eq, Hash, Structural)]
pub struct HirVariableId {
    pub raw: u32,
}

/// The handle of an expression.
#[derive(Clone, Copy, Debug, PartialEq, Eq, Hash, Structural)]
pub struct HirExprId {
    pub raw: u32,
}

/// The handle of a statement.
#[derive(Clone, Copy, Debug, PartialEq, Eq, Hash, Structural)]
pub struct HirStatementId {
    pub raw: u32,
}

/// The handle of a function header.
#[derive(Clone, Copy, Debug, PartialEq, Eq, Hash, Structural)]
pub struct HirFunctionId {
    pub raw: u32,
}

/// A literal value.
#[derive(Clone, Copy, Debug, PartialEq, Eq, Structural)]
pub struct HirLiteral {
    pub kind: HirLiteralKind,
    pub span: Span,
}

/// The variants of a literal value. A float is held as its interned digits.
#[derive(Clone, Copy, Debug, PartialEq, Eq, Structural)]
pub enum HirLiteralKind {
    Bool(bool),
    I8(i8),
    I16(i16),
    I32(i32),
    I64(i64),
    U8(u8),
    U16(u16),
    U32(u32),
    U64(u64),
    Float(FloatWidth, HirStringId),
    String(HirStringId),
}

/// A local variable: a parameter or the subject of a `let`.
#[derive(Clone, Copy, Debug, PartialEq, Eq, Structural)]
pub struct HirVariable {
    pub name: HirStringId,
    pub location: Span,
}

/// The header of a function, registered before any body is lowered.
#[derive(Clone, Copy, Debug, PartialEq, Eq, Structural)]
pub struct HirFunctionHeader {
    pub name: HirStringId,
}

/// Operators that can be used in binary expressions.
#[derive(Clone, Copy, Debug, PartialEq, Eq, Structural)]
pub enum HirExprBinaryOp {
    Add,
    Sub,
    Mul,
    Div,
    Mod,
    Pow,
    BinaryAnd,
    BinaryOr,
    BinaryXor,
    BinaryShl,
    BinaryShr,
    BoolAnd,
    BoolOr,
    Eq,
    NotEq,
    Less,
    LessEq,
    Greater,
    GreaterEq,
}

/// Operators that can be used in unary expressions.
#[derive(Clone, Copy, Debug, PartialEq, Eq, Structural)]
pub enum HirExprUnaryOp {
    Negate,
    Not,
    Invert,
}

/// An expression.
#[derive(Clone, Debug, PartialEq, Eq)]
pub struct HirExpr {
    pub kind: HirExprKind,
    pub span: Span,
}

/// The variants of an expression.
#[derive(Clone, Debug, PartialEq, Eq)]
pub enum HirExprKind {
    LoadLiteral(HirLiteral),
    LoadVariable(HirVariableId),
    /// A name that is bound to no local variable but to a function of the module.
    LoadFunction(HirFunctionId),
    BinaryOp { left: HirExprId, op: HirExprBinaryOp, right: HirExprId },
    UnaryOp { op: HirExprUnaryOp, value: HirExprId },
    /// An assignment; `op` is the operator of a compound assignment.
    Assignment { target: HirExprId, op: Option<HirExprBinaryOp>, value: HirExprId },
    MemberAccess { owner: HirExprId, member: HirStringId },
    Index { owner: HirExprId, index: HirExprId },
    Call { callee: HirExprId, arguments: Vec<HirExprId> },
    /// A path that is bound to nothing in this scope, kept as its interned
    /// text for a later pass to resolve.
    Unresolved(HirStringId),
}

/// A statement.
#[derive(Clone, Debug, PartialEq, Eq)]
pub struct HirStatement {
    pub kind: HirStatementKind,
    pub span: Span,
}

/// The statements of a block, in order.
pub type HirBlock = Vec<HirStatementId>;

/// The variants of a statement.
#[derive(Clone, Debug, PartialEq, Eq)]
pub enum HirStatementKind {
    Empty,
    VarDecl { variable: HirVariableId, expr: Option<HirExprId> },
    Expr(HirExprId),
    Return(Option<HirExprId>),
    Continue,
    Break,
    /// A `use` of the path whose text is interned.
    Use(HirStringId),
    If { condition: HirExprId, body: HirStatementId, otherwise: Option<HirStatementId> },
    While { condition: HirExprId, body: HirStatementId },
    Block(HirBlock),
}

/// The mathematical value of an expression.
pub ghost struct ExprNode {
    pub kind: ExprNodeKind,
    pub span: Span,
}

pub ghost enum ExprNodeKind {
    LoadLiteral(HirLiteral),
    LoadVariable(HirVariableId),
    LoadFunction(HirFunctionId),
    BinaryOp { left: HirExprId, op: HirExprBinaryOp, right: HirExprId },
    UnaryOp { op: HirExprUnaryOp, value: HirExprId },
    Assignment { target: HirExprId, op: Option<HirExprBinaryOp>, value: HirExprId },
    MemberAccess { owner: HirExprId, member: HirStringId },
    Index { owner: HirExprId, index: HirExprId },
    Call { callee: HirExprId, arguments: Seq<HirExprId> },
    Unresolved(HirStringId),
}

impl View for HirExpr {
    type V = ExprNode;

    open spec fn view(&self) -> ExprNode {
        ExprNode {
            kind: match self.kind {
                HirExprKind::LoadLiteral(literal) => ExprNodeKind::LoadLiteral(literal),
                HirExprKind::LoadVariable(variable) => ExprNodeKind::LoadVariable(variable),
                HirExprKind::LoadFunction(function) => ExprNodeKind::LoadFunction(function),
                HirExprKind::BinaryOp { left, op, right } => ExprNodeKind::BinaryOp {
                    left,
                    op,
                    right,
                },
                HirExprKind::UnaryOp { op, value } => ExprNodeKind::UnaryOp { op, value },
                HirExprKind::Assignment { target, op, value } => ExprNodeKind::Assignment {
                    target,
                    op,
                    value,
                },
                HirExprKind::MemberAccess { owner, member } => ExprNodeKind::MemberAccess {
                    owner,
                    member,
                },
                HirExprKind::Index { owner, index } => ExprNodeKind::Index { owner, index },
                HirExprKind::Call { callee, arguments } => ExprNodeKind::Call {
                    callee,
                    arguments: arguments@,
                },
                HirExprKind::Unresolved(name) => ExprNodeKind::Unresolved(name),
            },
            span: self.span,
        }
    }
}

/// The mathematical value of a statement.
pub ghost struct StatementNode {
    pub kind: StatementNodeKind,
    pub span: Span,
}

pub ghost enum StatementNodeKind {
    Empty,
    VarDecl { variable: HirVariableId, expr: Option<HirExprId> },
    Expr(HirExprId),
    Return(Option<HirExprId>),
    Continue,
    Break,
    Use(HirStringId),
    If { condition: HirExprId, body: HirStatementId, otherwise: Option<HirStatementId> },
    While { condition: HirExprId, body: HirStatementId },
    Block(Seq<HirStatementId>),
}

impl View for HirStatement {
    type V = StatementNode;

    open spec fn view(&self) -> StatementNode {
        StatementNode {
            kind: match self.kind {
                HirStatementKind::Empty => StatementNodeKind::Empty,
                HirStatementKind::VarDecl { variable, expr } => StatementNodeKind::VarDecl {
                    variable,
                    expr,
                },
                HirStatementKind::Expr(expr) => StatementNodeKind::Expr(expr),
                HirStatementKind::Return(expr) => StatementNodeKind::Return(expr),
                HirStatementKind::Continue => StatementNodeKind::Continue,
                HirStatementKind::Break => StatementNodeKind::Break,
                HirStatementKind::Use(path) => StatementNodeKind::Use(path),
                HirStatementKind::If { condition, body, otherwise } => StatementNodeKind::If {
                    condition,
                    body,
                    otherwise,
                },
                HirStatementKind::While { condition, body } => StatementNodeKind::While {
                    condition,
                    body,
                },
                HirStatementKind::Block(statements) => StatementNodeKind::Block(statements@),
            },
            span: self.span,
        }
    }
}

} // verus!
