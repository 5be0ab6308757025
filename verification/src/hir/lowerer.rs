//! Lowering: from the syntax tree of a function to nodes in arenas.
//!
//! Lowering is stated as a function on the mathematical value of the
//! contexts: each step takes the state before it and yields the state after
//! it with the handle it made, or the error that stopped it.

use crate::ast::expr::{BinaryOp, Expr, UnaryOp};
use crate::ast::func::{FunctionDecl, ParameterDecl};
use crate::ast::ident::{Identifier, IdentifierPath};
use crate::ast::stmt::Statement;
use crate::hir::arena::{
    arena_get, arena_len, expr_items, new_expr_arena, new_statement_arena, new_variable_arena,
    statement_items, store, variable_items,
};
use crate::hir::context::{HirModuleContext, LowerError, LowerResult, ModuleView};
use crate::hir::nodes::{
    ExprNode, ExprNodeKind, HirExpr, HirExprBinaryOp, HirExprId, HirExprKind, HirExprUnaryOp,
    HirFunctionHeader, HirLiteral, HirLiteralKind, HirStatement, HirStatementId,
    HirStatementKind, HirString, HirStringId, HirVariable, HirVariableId, StatementNode,
    StatementNodeKind,
};
use crate::hir::sym::{declared, popped, pushed, resolved, SymbolTable};
use crate::lexer::ascii;
use crate::lexer::token::IntLit;
use crate::span::{Span, Spanned};
use vstd::prelude::*;

verus! {

/// The mathematical value of a function context.
pub ghost struct FunctionView {
    /// The expressions, in the order of their handles.
    pub exprs: Seq<ExprNode>,
    /// The statements, in the order of their handles.
    pub statements: Seq<StatementNode>,
    /// The variables, in the order of their handles.
    pub variables: Seq<HirVariable>,
    /// The variables that are in scope, by the handle of their name.
    pub scopes: Seq<Map<u32, HirVariableId>>,
}

/// The state that lowering works on: the module and the function.
pub ghost struct LowerState {
    pub module: ModuleView,
    pub function: FunctionView,
}

/// What a step of lowering yields.
pub ghost struct Step<T> {
    pub state: LowerState,
    pub result: LowerResult<T>,
}

impl<T> Step<T> {
    /// The failure of this step as the failure of the step it is part of.
    pub open spec fn failed<U>(self) -> Step<U> {
        Step { state: self.state, result: Err(self.result->Err_0) }
    }
}

impl LowerState {
    pub open spec fn done<T>(self, value: T) -> Step<T> {
        Step { state: self, result: Ok(value) }
    }

    pub open spec fn fail<T>(self, error: LowerError) -> Step<T> {
        Step { state: self, result: Err(error) }
    }

    /// Interns `text`.
    pub open spec fn with_string(self, text: Seq<u8>) -> Step<HirStringId> {
        match self.module.intern(text) {
            Some((module, id)) => (LowerState { module, ..self }).done(id),
            None => self.fail(LowerError::OutOfHandles),
        }
    }

    /// Stores an expression behind those that are there.
    pub open spec fn with_expr(self, node: ExprNode) -> Step<HirExprId> {
        if self.function.exprs.len() > u32::MAX {
            self.fail(LowerError::OutOfHandles)
        } else {
            (LowerState {
                function: FunctionView {
                    exprs: self.function.exprs.push(node),
                    ..self.function
                },
                ..self
            }).done(HirExprId { raw: self.function.exprs.len() as u32 })
        }
    }

    /// Stores a statement behind those that are there.
    pub open spec fn with_statement(self, node: StatementNode) -> Step<HirStatementId> {
        if self.function.statements.len() > u32::MAX {
            self.fail(LowerError::OutOfHandles)
        } else {
            (LowerState {
                function: FunctionView {
                    statements: self.function.statements.push(node),
                    ..self.function
                },
                ..self
            }).done(HirStatementId { raw: self.function.statements.len() as u32 })
        }
    }

    /// Makes a new variable of the given name and declares it in the
    /// innermost scope. The variable is stored even if the scope already
    /// declares the name, which fails the step.
    pub open spec fn with_variable(self, text: Seq<u8>, location: Span, name_span: Span) -> Step<
        HirVariableId,
    > {
        let named = self.with_string(text);
        match named.result {
            Err(_) => named.failed(),
            Ok(name) => if named.state.function.variables.len() > u32::MAX {
                named.state.fail(LowerError::OutOfHandles)
            } else {
                let variable = HirVariableId { raw: named.state.function.variables.len() as u32 };
                let stored = LowerState {
                    function: FunctionView {
                        variables: named.state.function.variables.push(
                            HirVariable { name, location },
                        ),
                        ..named.state.function
                    },
                    ..named.state
                };
                match declared(stored.function.scopes, name.raw, variable) {
                    None => stored.fail(
                        LowerError::DuplicateDeclaration { name, span: name_span },
                    ),
                    Some(scopes) => (LowerState {
                        function: FunctionView { scopes, ..stored.function },
                        ..stored
                    }).done(variable),
                }
            },
        }
    }

    /// Opens a scope.
    pub open spec fn entered(self) -> LowerState {
        LowerState {
            function: FunctionView { scopes: pushed(self.function.scopes), ..self.function },
            ..self
        }
    }

    /// Leaves the innermost scope.
    pub open spec fn left(self) -> LowerState {
        LowerState {
            function: FunctionView { scopes: popped(self.function.scopes), ..self.function },
            ..self
        }
    }

    /// Every arena of `self` begins with what the same arena of `before`
    /// holds: nothing that was stored has moved or changed.
    pub open spec fn extends(self, before: LowerState) -> bool {
        &&& before.module.strings.is_prefix_of(self.module.strings)
        &&& before.module.functions.is_prefix_of(self.module.functions)
        &&& before.function.exprs.is_prefix_of(self.function.exprs)
        &&& before.function.statements.is_prefix_of(self.function.statements)
        &&& before.function.variables.is_prefix_of(self.function.variables)
    }
}

/// The literal of the intermediate representation for an integer literal.
/// A literal without a suffix is a 32-bit signed integer.
pub open spec fn int_literal(literal: IntLit) -> HirLiteralKind {
    match literal {
        IntLit::I8(value) => HirLiteralKind::I8(value),
        IntLit::I16(value) => HirLiteralKind::I16(value),
        IntLit::I32(value) => HirLiteralKind::I32(value),
        IntLit::I64(value) => HirLiteralKind::I64(value),
        IntLit::U8(value) => HirLiteralKind::U8(value),
        IntLit::U16(value) => HirLiteralKind::U16(value),
        IntLit::U32(value) => HirLiteralKind::U32(value),
        IntLit::U64(value) => HirLiteralKind::U64(value),
        IntLit::Untyped(value) => HirLiteralKind::I32(value),
    }
}

pub open spec fn binary_op(op: BinaryOp) -> HirExprBinaryOp {
    match op {
        BinaryOp::Add => HirExprBinaryOp::Add,
        BinaryOp::Sub => HirExprBinaryOp::Sub,
        BinaryOp::Mul => HirExprBinaryOp::Mul,
        BinaryOp::Div => HirExprBinaryOp::Div,
        BinaryOp::Mod => HirExprBinaryOp::Mod,
        BinaryOp::Pow => HirExprBinaryOp::Pow,
        BinaryOp::BinaryAnd => HirExprBinaryOp::BinaryAnd,
        BinaryOp::BinaryOr => HirExprBinaryOp::BinaryOr,
        BinaryOp::BinaryXor => HirExprBinaryOp::BinaryXor,
        BinaryOp::BinaryShl => HirExprBinaryOp::BinaryShl,
        BinaryOp::BinaryShr => HirExprBinaryOp::BinaryShr,
        BinaryOp::BoolAnd => HirExprBinaryOp::BoolAnd,
        BinaryOp::BoolOr => HirExprBinaryOp::BoolOr,
        BinaryOp::Eq => HirExprBinaryOp::Eq,
        BinaryOp::NotEq => HirExprBinaryOp::NotEq,
        BinaryOp::Less => HirExprBinaryOp::Less,
        BinaryOp::LessEq => HirExprBinaryOp::LessEq,
        BinaryOp::Greater => HirExprBinaryOp::Greater,
        BinaryOp::GreaterEq => HirExprBinaryOp::GreaterEq,
    }
}

pub open spec fn optional_binary_op(op: Option<BinaryOp>) -> Option<HirExprBinaryOp> {
    match op {
        Some(op) => Some(binary_op(op)),
        None => None,
    }
}

/// The operator of the intermediate representation for a unary operator;
/// `None` for the unary plus, which leaves its operand as it is.
pub open spec fn unary_op(op: UnaryOp) -> Option<HirExprUnaryOp> {
    match op {
        UnaryOp::Plus => None,
        UnaryOp::Minus => Some(HirExprUnaryOp::Negate),
        UnaryOp::Not => Some(HirExprUnaryOp::Not),
        UnaryOp::Invert => Some(HirExprUnaryOp::Invert),
    }
}

/// The text of a path: its identifiers, each qualifier followed by `::`.
pub open spec fn qualifier_text(qualifier: Seq<Spanned<Identifier>>) -> Seq<u8>
    decreases qualifier.len(),
{
    if qualifier.len() == 0 {
        Seq::empty()
    } else {
        qualifier_text(qualifier.drop_last()) + qualifier.last().value.value@ + seq![
            ascii::COLON,
            ascii::COLON,
        ]
    }
}

pub open spec fn path_text(path: IdentifierPath) -> Seq<u8> {
    qualifier_text(path.qualifier@) + path.local_name.value.value@
}

pub open spec fn expr_node(kind: ExprNodeKind, span: Span) -> ExprNode {
    ExprNode { kind, span }
}

pub open spec fn literal_node(kind: HirLiteralKind, span: Span) -> ExprNode {
    ExprNode { kind: ExprNodeKind::LoadLiteral(HirLiteral { kind, span }), span }
}

/// What a path refers to. A path without a qualifier is the variable of
/// that name in the innermost scope that declares one, or else the function
/// of that name in the module. Any other path is kept as its text.
pub open spec fn reference(state: LowerState, path: IdentifierPath, name: HirStringId)
    -> ExprNodeKind {
    if path.qualifier@.len() > 0 {
        ExprNodeKind::Unresolved(name)
    } else {
        match resolved(state.function.scopes, name.raw) {
            Some(variable) => ExprNodeKind::LoadVariable(variable),
            None => match resolved(state.module.table, name.raw) {
                Some(function) => ExprNodeKind::LoadFunction(function),
                None => ExprNodeKind::Unresolved(name),
            },
        }
    }
}

/// Lowers an expression: its parts first, from left to right, then the
/// node that refers to them.
pub open spec fn lower_expr(state: LowerState, expr: Expr, span: Span) -> Step<HirExprId>
    decreases expr,
{
    match expr {
        Expr::Bool(value) => state.with_expr(literal_node(HirLiteralKind::Bool(value), span)),
        Expr::Int(literal) => state.with_expr(literal_node(int_literal(literal), span)),
        Expr::Float(float) => {
            let digits = state.with_string(float.digits@);
            match digits.result {
                Err(_) => digits.failed(),
                Ok(id) => digits.state.with_expr(
                    literal_node(HirLiteralKind::Float(float.width, id), span),
                ),
            }
        },
        Expr::String(text) => {
            let interned = state.with_string(text@);
            match interned.result {
                Err(_) => interned.failed(),
                Ok(id) => interned.state.with_expr(literal_node(HirLiteralKind::String(id), span)),
            }
        },
        Expr::IdentifierPath(path) => {
            let name = state.with_string(path_text(*path));
            match name.result {
                Err(_) => name.failed(),
                Ok(id) => name.state.with_expr(expr_node(reference(name.state, *path, id), span)),
            }
        },
        Expr::Unary(unary) => {
            let value = lower_expr(state, unary.value.value, unary.value.span);
            match value.result {
                Err(_) => value,
                Ok(id) => match unary_op(unary.op) {
                    None => value,
                    Some(op) => value.state.with_expr(
                        expr_node(ExprNodeKind::UnaryOp { op, value: id }, span),
                    ),
                },
            }
        },
        Expr::Binary(binary) => {
            let left = lower_expr(state, binary.left.value, binary.left.span);
            match left.result {
                Err(_) => left,
                Ok(left_id) => {
                    let right = lower_expr(left.state, binary.right.value, binary.right.span);
                    match right.result {
                        Err(_) => right,
                        Ok(right_id) => right.state.with_expr(
                            expr_node(
                                ExprNodeKind::BinaryOp {
                                    left: left_id,
                                    op: binary_op(binary.op),
                                    right: right_id,
                                },
                                span,
                            ),
                        ),
                    }
                },
            }
        },
        Expr::Assignment(assignment) => {
            let target = lower_expr(state, assignment.lvalue.value, assignment.lvalue.span);
            match target.result {
                Err(_) => target,
                Ok(target_id) => {
                    let value = lower_expr(
                        target.state,
                        assignment.rvalue.value,
                        assignment.rvalue.span,
                    );
                    match value.result {
                        Err(_) => value,
                        Ok(value_id) => value.state.with_expr(
                            expr_node(
                                ExprNodeKind::Assignment {
                                    target: target_id,
                                    op: optional_binary_op(assignment.op),
                                    value: value_id,
                                },
                                span,
                            ),
                        ),
                    }
                },
            }
        },
        Expr::MemberAccess(access) => {
            let owner = lower_expr(state, access.owner.value, access.owner.span);
            match owner.result {
                Err(_) => owner,
                Ok(owner_id) => {
                    let member = owner.state.with_string(access.member.value.value@);
                    match member.result {
                        Err(_) => member.failed(),
                        Ok(member_id) => member.state.with_expr(
                            expr_node(
                                ExprNodeKind::MemberAccess { owner: owner_id, member: member_id },
                                span,
                            ),
                        ),
                    }
                },
            }
        },
        Expr::Index(index) => {
            let owner = lower_expr(state, index.owner.value, index.owner.span);
            match owner.result {
                Err(_) => owner,
                Ok(owner_id) => {
                    let place = lower_expr(owner.state, index.index.value, index.index.span);
                    match place.result {
                        Err(_) => place,
                        Ok(place_id) => place.state.with_expr(
                            expr_node(
                                ExprNodeKind::Index { owner: owner_id, index: place_id },
                                span,
                            ),
                        ),
                    }
                },
            }
        },
        Expr::FunctionCall(call) => {
            let callee = lower_expr(state, call.identity.value, call.identity.span);
            match callee.result {
                Err(_) => callee,
                Ok(callee_id) => {
                    let arguments = lower_exprs(callee.state, call.arguments.value@);
                    match arguments.result {
                        Err(_) => arguments.failed(),
                        Ok(ids) => arguments.state.with_expr(
                            expr_node(
                                ExprNodeKind::Call { callee: callee_id, arguments: ids },
                                span,
                            ),
                        ),
                    }
                },
            }
        },
    }
}

/// Lowers a run of expressions in order, up to the first that fails.
pub open spec fn lower_exprs(state: LowerState, exprs: Seq<Spanned<Expr>>) -> Step<Seq<HirExprId>>
    decreases exprs,
{
    if exprs.len() == 0 {
        state.done(Seq::empty())
    } else {
        let before = lower_exprs(state, exprs.drop_last());
        match before.result {
            Err(_) => before,
            Ok(ids) => {
                let last = lower_expr(before.state, exprs.last().value, exprs.last().span);
                match last.result {
                    Err(_) => last.failed(),
                    Ok(id) => last.state.done(ids.push(id)),
                }
            },
        }
    }
}

pub open spec fn statement_node(kind: StatementNodeKind, span: Span) -> StatementNode {
    StatementNode { kind, span }
}

/// Lowers an expression that may be absent.
pub open spec fn lower_optional_expr(state: LowerState, expr: Option<Spanned<Expr>>) -> Step<
    Option<HirExprId>,
> {
    match expr {
        None => state.done(None),
        Some(expr) => {
            let value = lower_expr(state, expr.value, expr.span);
            match value.result {
                Err(_) => value.failed(),
                Ok(id) => value.state.done(Some(id)),
            }
        },
    }
}

/// Lowers a statement. A block is lowered in a scope of its own; a `let`
/// makes its variable and declares it before its initial value is lowered.
pub open spec fn lower_statement(state: LowerState, statement: Statement, span: Span) -> Step<
    HirStatementId,
>
    decreases statement,
{
    match statement {
        Statement::Empty => state.with_statement(statement_node(StatementNodeKind::Empty, span)),
        Statement::Break => state.with_statement(statement_node(StatementNodeKind::Break, span)),
        Statement::Continue => state.with_statement(
            statement_node(StatementNodeKind::Continue, span),
        ),
        Statement::Expr(inner) => {
            let value = lower_expr(state, inner.expr.value, inner.expr.span);
            match value.result {
                Err(_) => value.failed(),
                Ok(id) => value.state.with_statement(
                    statement_node(StatementNodeKind::Expr(id), span),
                ),
            }
        },
        Statement::Use(inner) => {
            let path = state.with_string(path_text(inner.path.value));
            match path.result {
                Err(_) => path.failed(),
                Ok(id) => path.state.with_statement(
                    statement_node(StatementNodeKind::Use(id), span),
                ),
            }
        },
        Statement::VarDecl(decl) => {
            let variable = state.with_variable(
                decl.identifier.value.value@,
                span,
                decl.identifier.span,
            );
            match variable.result {
                Err(_) => variable.failed(),
                Ok(variable_id) => {
                    let value = lower_optional_expr(variable.state, decl.expr);
                    match value.result {
                        Err(_) => value.failed(),
                        Ok(expr) => value.state.with_statement(
                            statement_node(
                                StatementNodeKind::VarDecl { variable: variable_id, expr },
                                span,
                            ),
                        ),
                    }
                },
            }
        },
        Statement::Return(inner) => {
            let value = lower_optional_expr(state, inner.expr);
            match value.result {
                Err(_) => value.failed(),
                Ok(expr) => value.state.with_statement(
                    statement_node(StatementNodeKind::Return(expr), span),
                ),
            }
        },
        Statement::If(inner) => {
            let condition = lower_expr(state, inner.condition.value, inner.condition.span);
            match condition.result {
                Err(_) => condition.failed(),
                Ok(condition_id) => {
                    let body = lower_statement(condition.state, inner.body.value, inner.body.span);
                    match body.result {
                        Err(_) => body,
                        Ok(body_id) => match inner.otherwise {
                            None => body.state.with_statement(
                                statement_node(
                                    StatementNodeKind::If {
                                        condition: condition_id,
                                        body: body_id,
                                        otherwise: None,
                                    },
                                    span,
                                ),
                            ),
                            Some(otherwise) => {
                                let other = lower_statement(
                                    body.state,
                                    otherwise.value,
                                    otherwise.span,
                                );
                                match other.result {
                                    Err(_) => other,
                                    Ok(other_id) => other.state.with_statement(
                                        statement_node(
                                            StatementNodeKind::If {
                                                condition: condition_id,
                                                body: body_id,
                                                otherwise: Some(other_id),
                                            },
                                            span,
                                        ),
                                    ),
                                }
                            },
                        },
                    }
                },
            }
        },
        Statement::While(inner) => {
            let condition = lower_expr(state, inner.condition.value, inner.condition.span);
            match condition.result {
                Err(_) => condition.failed(),
                Ok(condition_id) => {
                    let body = lower_statement(condition.state, inner.body.value, inner.body.span);
                    match body.result {
                        Err(_) => body,
                        Ok(body_id) => body.state.with_statement(
                            statement_node(
                                StatementNodeKind::While { condition: condition_id, body: body_id },
                                span,
                            ),
                        ),
                    }
                },
            }
        },
        Statement::Block(block) => {
            let inside = lower_statements(state.entered(), block.statements@);
            match inside.result {
                Err(_) => inside.failed(),
                Ok(ids) => inside.state.left().with_statement(
                    statement_node(StatementNodeKind::Block(ids), span),
                ),
            }
        },
    }
}

/// Lowers a run of statements in order, up to the first that fails.
pub open spec fn lower_statements(state: LowerState, statements: Seq<Spanned<Statement>>) -> Step<
    Seq<HirStatementId>,
>
    decreases statements,
{
    if statements.len() == 0 {
        state.done(Seq::empty())
    } else {
        let before = lower_statements(state, statements.drop_last());
        match before.result {
            Err(_) => before,
            Ok(ids) => {
                let last = lower_statement(
                    before.state,
                    statements.last().value,
                    statements.last().span,
                );
                match last.result {
                    Err(_) => last.failed(),
                    Ok(id) => last.state.done(ids.push(id)),
                }
            },
        }
    }
}

/// Makes a variable of each of the first `count` parameters, in order, up
/// to the first that fails.
pub open spec fn lower_parameters(
    state: LowerState,
    parameters: Seq<Spanned<ParameterDecl>>,
    count: int,
) -> Step<()>
    decreases count,
{
    if count <= 0 {
        state.done(())
    } else {
        let before = lower_parameters(state, parameters, count - 1);
        match before.result {
            Err(_) => before,
            Ok(_) => {
                let parameter = parameters[count - 1];
                let variable = before.state.with_variable(
                    parameter.value.name.value.value@,
                    parameter.span,
                    parameter.value.name.span,
                );
                match variable.result {
                    Err(_) => variable.failed(),
                    Ok(_) => variable.state.done(()),
                }
            },
        }
    }
}

/// Lowers a function: in a scope of its own, its parameters become
/// variables in the order they are declared in, and its body is lowered.
/// The handle is that of the statement of the body.
pub open spec fn lower_function(state: LowerState, function: FunctionDecl) -> Step<HirStatementId> {
    let parameters = lower_parameters(
        state.entered(),
        function.parameters.value@,
        function.parameters.value@.len() as int,
    );
    match parameters.result {
        Err(_) => parameters.failed(),
        Ok(_) => {
            let body = lower_statement(parameters.state, function.body.value, function.body.span);
            match body.result {
                Err(_) => body,
                Ok(root) => body.state.left().done(root),
            }
        },
    }
}

broadcast use vstd::std_specs::hash::group_hash_axioms;

/// What belongs to one function: its expressions, statements and variables,
/// and the names that are in scope while it is lowered.
#[derive(Debug)]
pub struct HirFunctionContext {
    pub(crate) symbol_table: SymbolTable<u32, HirVariableId>,
    pub(crate) expr_arena: la_arena::Arena<HirExpr>,
    pub(crate) statement_arena: la_arena::Arena<HirStatement>,
    pub(crate) variable_arena: la_arena::Arena<HirVariable>,
}

/// A lowered function: its arenas, its header, and the statement of its body.
#[derive(Debug)]
pub struct HirFunctionData {
    pub context: HirFunctionContext,
    pub header: HirFunctionHeader,
    pub root_statement: HirStatementId,
}

impl View for HirFunctionContext {
    type V = FunctionView;

    closed spec fn view(&self) -> FunctionView {
        FunctionView {
            exprs: Seq::new(expr_items(self.expr_arena).len(), |i: int| expr_items(self.expr_arena)[i]@),
            statements: Seq::new(
                statement_items(self.statement_arena).len(),
                |i: int| statement_items(self.statement_arena)[i]@,
            ),
            variables: variable_items(self.variable_arena),
            scopes: self.symbol_table.frames(),
        }
    }
}

/// The state that a function context and its module context stand for.
pub open spec fn state_of(function: HirFunctionContext, module: HirModuleContext) -> LowerState {
    LowerState { module: module@, function: function@ }
}

/// The handles of a run of expressions that a step handed out.
pub open spec fn handles<T>(result: LowerResult<Vec<T>>) -> LowerResult<Seq<T>> {
    match result {
        Ok(ids) => Ok(ids@),
        Err(error) => Err(error),
    }
}

/// Once an expression could not be lowered, those after it are not tried.
pub proof fn lemma_lower_exprs_stops(state: LowerState, exprs: Seq<Spanned<Expr>>, failed: int)
    requires
        0 <= failed <= exprs.len(),
        lower_exprs(state, exprs.subrange(0, failed)).result is Err,
    ensures
        lower_exprs(state, exprs) == lower_exprs(state, exprs.subrange(0, failed)),
    decreases exprs.len() - failed,
{
    if failed < exprs.len() {
        assert(exprs.subrange(0, failed + 1).drop_last() =~= exprs.subrange(0, failed));
        lemma_lower_exprs_stops(state, exprs, failed + 1);
    } else {
        assert(exprs.subrange(0, failed) =~= exprs);
    }
}

/// Once a statement could not be lowered, those after it are not tried.
pub proof fn lemma_lower_statements_stops(
    state: LowerState,
    statements: Seq<Spanned<Statement>>,
    failed: int,
)
    requires
        0 <= failed <= statements.len(),
        lower_statements(state, statements.subrange(0, failed)).result is Err,
    ensures
        lower_statements(state, statements) == lower_statements(
            state,
            statements.subrange(0, failed),
        ),
    decreases statements.len() - failed,
{
    if failed < statements.len() {
        assert(statements.subrange(0, failed + 1).drop_last() =~= statements.subrange(0, failed));
        lemma_lower_statements_stops(state, statements, failed + 1);
    } else {
        assert(statements.subrange(0, failed) =~= statements);
    }
}

/// Once a parameter could not be declared, those after it are not tried.
pub proof fn lemma_lower_parameters_stops(
    state: LowerState,
    parameters: Seq<Spanned<ParameterDecl>>,
    failed: int,
    count: int,
)
    requires
        0 <= failed <= count,
        lower_parameters(state, parameters, failed).result is Err,
    ensures
        lower_parameters(state, parameters, count) == lower_parameters(state, parameters, failed),
    decreases count - failed,
{
    if failed < count {
        lemma_lower_parameters_stops(state, parameters, failed, count - 1);
    }
}

pub fn lower_int_literal(literal: IntLit) -> (kind: HirLiteralKind)
    ensures
        kind == int_literal(literal),
{
    match literal {
        IntLit::I8(value) => HirLiteralKind::I8(value),
        IntLit::I16(value) => HirLiteralKind::I16(value),
        IntLit::I32(value) => HirLiteralKind::I32(value),
        IntLit::I64(value) => HirLiteralKind::I64(value),
        IntLit::U8(value) => HirLiteralKind::U8(value),
        IntLit::U16(value) => HirLiteralKind::U16(value),
        IntLit::U32(value) => HirLiteralKind::U32(value),
        IntLit::U64(value) => HirLiteralKind::U64(value),
        IntLit::Untyped(value) => HirLiteralKind::I32(value),
    }
}

pub fn lower_binary_op(op: BinaryOp) -> (lowered: HirExprBinaryOp)
    ensures
        lowered == binary_op(op),
{
    match op {
        BinaryOp::Add => HirExprBinaryOp::Add,
        BinaryOp::Sub => HirExprBinaryOp::Sub,
        BinaryOp::Mul => HirExprBinaryOp::Mul,
        BinaryOp::Div => HirExprBinaryOp::Div,
        BinaryOp::Mod => HirExprBinaryOp::Mod,
        BinaryOp::Pow => HirExprBinaryOp::Pow,
        BinaryOp::BinaryAnd => HirExprBinaryOp::BinaryAnd,
        BinaryOp::BinaryOr => HirExprBinaryOp::BinaryOr,
        BinaryOp::BinaryXor => HirExprBinaryOp::BinaryXor,
        BinaryOp::BinaryShl => HirExprBinaryOp::BinaryShl,
        BinaryOp::BinaryShr => HirExprBinaryOp::BinaryShr,
        BinaryOp::BoolAnd => HirExprBinaryOp::BoolAnd,
        BinaryOp::BoolOr => HirExprBinaryOp::BoolOr,
        BinaryOp::Eq => HirExprBinaryOp::Eq,
        BinaryOp::NotEq => HirExprBinaryOp::NotEq,
        BinaryOp::Less => HirExprBinaryOp::Less,
        BinaryOp::LessEq => HirExprBinaryOp::LessEq,
        BinaryOp::Greater => HirExprBinaryOp::Greater,
        BinaryOp::GreaterEq => HirExprBinaryOp::GreaterEq,
    }
}

pub fn lower_unary_op(op: UnaryOp) -> (lowered: Option<HirExprUnaryOp>)
    ensures
        lowered == unary_op(op),
{
    match op {
        UnaryOp::Plus => None,
        UnaryOp::Minus => Some(HirExprUnaryOp::Negate),
        UnaryOp::Not => Some(HirExprUnaryOp::Not),
        UnaryOp::Invert => Some(HirExprUnaryOp::Invert),
    }
}

/// The text of a path: its identifiers, each qualifier followed by `::`.
pub fn join_path(path: &IdentifierPath) -> (text: Vec<u8>)
    ensures
        text@ == path_text(*path),
{
    let mut text: Vec<u8> = Vec::new();
    let mut i: usize = 0;
    assert(path.qualifier@.subrange(0, 0) =~= Seq::<Spanned<Identifier>>::empty());
    while i < path.qualifier.len()
        invariant
            i <= path.qualifier@.len(),
            text@ == qualifier_text(path.qualifier@.subrange(0, i as int)),
        decreases path.qualifier@.len() - i,
    {
        assert(path.qualifier@.subrange(0, i + 1).drop_last() =~= path.qualifier@.subrange(
            0,
            i as int,
        ));
        let ghost before = text@;
        append_bytes(&mut text, &path.qualifier[i].value.value);
        text.push(ascii::COLON);
        text.push(ascii::COLON);
        assert(text@ =~= before + path.qualifier@[i as int].value.value@ + seq![
            ascii::COLON,
            ascii::COLON,
        ]);
        i = i + 1;
    }
    assert(path.qualifier@.subrange(0, i as int) =~= path.qualifier@);
    append_bytes(&mut text, &path.local_name.value.value);
    text
}

/// Appends a copy of `bytes` to `text`.
pub fn append_bytes(text: &mut Vec<u8>, bytes: &Vec<u8>)
    ensures
        final(text)@ == old(text)@ + bytes@,
{
    let mut i: usize = 0;
    while i < bytes.len()
        invariant
            i <= bytes@.len(),
            text@ == old(text)@ + bytes@.subrange(0, i as int),
        decreases bytes@.len() - i,
    {
        text.push(bytes[i]);
        assert(text@ =~= old(text)@ + bytes@.subrange(0, i + 1));
        i = i + 1;
    }
    assert(bytes@.subrange(0, i as int) =~= bytes@);
}

impl HirFunctionContext {
    /// A function context that holds nothing and has no scope.
    pub fn new() -> (context: Self)
        ensures
            context@.exprs == Seq::<ExprNode>::empty(),
            context@.statements == Seq::<StatementNode>::empty(),
            context@.variables == Seq::<HirVariable>::empty(),
            context@.scopes == Seq::<Map<u32, HirVariableId>>::empty(),
    {
        let context = HirFunctionContext {
            symbol_table: SymbolTable::new(),
            expr_arena: new_expr_arena(),
            statement_arena: new_statement_arena(),
            variable_arena: new_variable_arena(),
        };
        assert(context@.exprs =~= Seq::<ExprNode>::empty());
        assert(context@.statements =~= Seq::<StatementNode>::empty());
        context
    }

    /// The string behind a handle.
    pub fn get_string<'a>(&self, module: &'a HirModuleContext, id: HirStringId) -> (text: &'a
        HirString)
        requires
            id.raw < module@.strings.len(),
        ensures
            text@ == module@.strings[id.raw as int],
    {
        module.get_string(id)
    }

    /// The expression behind a handle.
    pub fn get_expr(&self, id: HirExprId) -> (expr: &HirExpr)
        requires
            id.raw < self@.exprs.len(),
        ensures
            expr@ == self@.exprs[id.raw as int],
    {
        arena_get(&self.expr_arena, id.raw)
    }

    /// The statement behind a handle.
    pub fn get_statement(&self, id: HirStatementId) -> (statement: &HirStatement)
        requires
            id.raw < self@.statements.len(),
        ensures
            statement@ == self@.statements[id.raw as int],
    {
        arena_get(&self.statement_arena, id.raw)
    }

    /// The variable behind a handle.
    pub fn get_variable(&self, id: HirVariableId) -> (variable: &HirVariable)
        requires
            id.raw < self@.variables.len(),
        ensures
            *variable == self@.variables[id.raw as int],
    {
        arena_get(&self.variable_arena, id.raw)
    }

    /// The expression behind a handle, if the handle is one of this function.
    pub fn find_expr(&self, id: HirExprId) -> (expr: Option<&HirExpr>)
        ensures
            expr is Some == (id.raw < self@.exprs.len()),
            expr matches Some(expr) ==> expr@ == self@.exprs[id.raw as int],
    {
        if (id.raw as usize) < arena_len(&self.expr_arena) {
            Some(arena_get(&self.expr_arena, id.raw))
        } else {
            None
        }
    }

    /// The statement behind a handle, if the handle is one of this function.
    pub fn find_statement(&self, id: HirStatementId) -> (statement: Option<&HirStatement>)
        ensures
            statement is Some == (id.raw < self@.statements.len()),
            statement matches Some(statement) ==> statement@ == self@.statements[id.raw as int],
    {
        if (id.raw as usize) < arena_len(&self.statement_arena) {
            Some(arena_get(&self.statement_arena, id.raw))
        } else {
            None
        }
    }

    /// The variable behind a handle, if the handle is one of this function.
    pub fn find_variable(&self, id: HirVariableId) -> (variable: Option<&HirVariable>)
        ensures
            variable is Some == (id.raw < self@.variables.len()),
            variable matches Some(variable) ==> *variable == self@.variables[id.raw as int],
    {
        if (id.raw as usize) < arena_len(&self.variable_arena) {
            Some(arena_get(&self.variable_arena, id.raw))
        } else {
            None
        }
    }

    /// The number of expressions, statements and variables that are stored.
    pub fn sizes(&self) -> (sizes: (usize, usize, usize))
        ensures
            sizes.0 == self@.exprs.len(),
            sizes.1 == self@.statements.len(),
            sizes.2 == self@.variables.len(),
    {
        (
            arena_len(&self.expr_arena),
            arena_len(&self.statement_arena),
            arena_len(&self.variable_arena),
        )
    }

    /// Stores an expression.
    fn push_expr(&mut self, module: &HirModuleContext, kind: HirExprKind, span: Span) -> (result:
        LowerResult<HirExprId>)
        ensures
            state_of(*final(self), *module).extends(state_of(*old(self), *module)),
            state_of(*old(self), *module).with_expr((HirExpr { kind, span })@) == (Step {
                state: state_of(*final(self), *module),
                result,
            }),
            final(self)@.scopes == old(self)@.scopes,
    {
        let ghost before = self@;
        match store(&mut self.expr_arena, HirExpr { kind, span }) {
            Some(raw) => {
                assert(self@.exprs =~= before.exprs.push((HirExpr { kind, span })@));
                Ok(HirExprId { raw })
            },
            None => Err(LowerError::OutOfHandles),
        }
    }

    /// Stores a statement.
    fn push_statement(&mut self, module: &HirModuleContext, kind: HirStatementKind, span: Span)
        -> (result: LowerResult<HirStatementId>)
        ensures
            state_of(*final(self), *module).extends(state_of(*old(self), *module)),
            state_of(*old(self), *module).with_statement((HirStatement { kind, span })@) == (Step {
                state: state_of(*final(self), *module),
                result,
            }),
            final(self)@.scopes == old(self)@.scopes,
    {
        let ghost before = self@;
        match store(&mut self.statement_arena, HirStatement { kind, span }) {
            Some(raw) => {
                assert(self@.statements =~= before.statements.push((HirStatement { kind, span })@));
                Ok(HirStatementId { raw })
            },
            None => Err(LowerError::OutOfHandles),
        }
    }

    /// Interns a string in the module.
    fn intern(&self, module: &mut HirModuleContext, text: Vec<u8>) -> (result: LowerResult<
        HirStringId,
    >)
        requires
            old(module)@.wf(),
        ensures
            final(module)@.wf(),
            state_of(*self, *final(module)).extends(state_of(*self, *old(module))),
            state_of(*self, *old(module)).with_string(text@) == (Step {
                state: state_of(*self, *final(module)),
                result,
            }),
    {
        module.intern(text)
    }

    /// Makes a variable and declares it in the innermost scope.
    fn declare_variable(
        &mut self,
        module: &mut HirModuleContext,
        text: Vec<u8>,
        location: Span,
        name_span: Span,
    ) -> (result: LowerResult<HirVariableId>)
        requires
            old(module)@.wf(),
            old(self)@.scopes.len() > 0,
        ensures
            final(module)@.wf(),
            state_of(*final(self), *final(module)).extends(state_of(*old(self), *old(module))),
            state_of(*old(self), *old(module)).with_variable(text@, location, name_span) == (Step {
                state: state_of(*final(self), *final(module)),
                result,
            }),
            final(self)@.scopes.len() == old(self)@.scopes.len(),
    {
        let name = match module.intern(text) {
            Ok(name) => name,
            Err(error) => {
                return Err(error);
            },
        };
        let raw = match store(&mut self.variable_arena, HirVariable { name, location }) {
            Some(raw) => raw,
            None => {
                return Err(LowerError::OutOfHandles);
            },
        };
        let variable = HirVariableId { raw };
        match self.symbol_table.declare(name.raw, variable) {
            Ok(_) => Ok(variable),
            Err(_) => Err(LowerError::DuplicateDeclaration { name, span: name_span }),
        }
    }

    /// What a path refers to.
    fn resolve(&self, module: &HirModuleContext, path: &IdentifierPath, name: HirStringId) -> (kind:
        HirExprKind)
        ensures
            (HirExpr { kind, span: Span::unset() })@.kind == reference(
                state_of(*self, *module),
                *path,
                name,
            ),
    {
        if path.qualifier.len() > 0 {
            HirExprKind::Unresolved(name)
        } else {
            match self.symbol_table.lookup(&name.raw) {
                Some(variable) => HirExprKind::LoadVariable(*variable),
                None => match module.lookup_function(name) {
                    Some(function) => HirExprKind::LoadFunction(function),
                    None => HirExprKind::Unresolved(name),
                },
            }
        }
    }

    /// Lowers an expression.
    pub fn lower_expr(&mut self, module: &mut HirModuleContext, expr: &Expr, span: Span) -> (result:
        LowerResult<HirExprId>)
        requires
            old(module)@.wf(),
        ensures
            final(module)@.wf(),
            state_of(*final(self), *final(module)).extends(state_of(*old(self), *old(module))),
            lower_expr(state_of(*old(self), *old(module)), *expr, span) == (Step {
                state: state_of(*final(self), *final(module)),
                result,
            }),
            final(self)@.scopes == old(self)@.scopes,
        decreases expr,
    {
        match expr {
            Expr::Bool(value) => self.push_expr(
                module,
                HirExprKind::LoadLiteral(HirLiteral { kind: HirLiteralKind::Bool(*value), span }),
                span,
            ),
            Expr::Int(literal) => self.push_expr(
                module,
                HirExprKind::LoadLiteral(HirLiteral { kind: lower_int_literal(*literal), span }),
                span,
            ),
            Expr::Float(float) => {
                let digits = vstd::slice::slice_to_vec(float.digits.as_slice());
                let id = match self.intern(module, digits) {
                    Ok(id) => id,
                    Err(error) => {
                        return Err(error);
                    },
                };
                self.push_expr(
                    module,
                    HirExprKind::LoadLiteral(
                        HirLiteral { kind: HirLiteralKind::Float(float.width, id), span },
                    ),
                    span,
                )
            },
            Expr::String(text) => {
                let copy = vstd::slice::slice_to_vec(text.as_slice());
                let id = match self.intern(module, copy) {
                    Ok(id) => id,
                    Err(error) => {
                        return Err(error);
                    },
                };
                self.push_expr(
                    module,
                    HirExprKind::LoadLiteral(HirLiteral { kind: HirLiteralKind::String(id), span }),
                    span,
                )
            },
            Expr::IdentifierPath(path) => {
                let id = match self.intern(module, join_path(path)) {
                    Ok(id) => id,
                    Err(error) => {
                        return Err(error);
                    },
                };
                let kind = self.resolve(module, path, id);
                self.push_expr(module, kind, span)
            },
            Expr::Unary(unary) => {
                let value = match self.lower_expr(module, &unary.value.value, unary.value.span) {
                    Ok(value) => value,
                    Err(error) => {
                        return Err(error);
                    },
                };
                match lower_unary_op(unary.op) {
                    None => Ok(value),
                    Some(op) => self.push_expr(module, HirExprKind::UnaryOp { op, value }, span),
                }
            },
            Expr::Binary(binary) => {
                let left = match self.lower_expr(module, &binary.left.value, binary.left.span) {
                    Ok(left) => left,
                    Err(error) => {
                        return Err(error);
                    },
                };
                let right = match self.lower_expr(module, &binary.right.value, binary.right.span) {
                    Ok(right) => right,
                    Err(error) => {
                        return Err(error);
                    },
                };
                self.push_expr(
                    module,
                    HirExprKind::BinaryOp { left, op: lower_binary_op(binary.op), right },
                    span,
                )
            },
            Expr::Assignment(assignment) => {
                let target = match self.lower_expr(
                    module,
                    &assignment.lvalue.value,
                    assignment.lvalue.span,
                ) {
                    Ok(target) => target,
                    Err(error) => {
                        return Err(error);
                    },
                };
                let value = match self.lower_expr(
                    module,
                    &assignment.rvalue.value,
                    assignment.rvalue.span,
                ) {
                    Ok(value) => value,
                    Err(error) => {
                        return Err(error);
                    },
                };
                let op = match assignment.op {
                    Some(op) => Some(lower_binary_op(op)),
                    None => None,
                };
                self.push_expr(module, HirExprKind::Assignment { target, op, value }, span)
            },
            Expr::MemberAccess(access) => {
                let owner = match self.lower_expr(module, &access.owner.value, access.owner.span) {
                    Ok(owner) => owner,
                    Err(error) => {
                        return Err(error);
                    },
                };
                let name = vstd::slice::slice_to_vec(access.member.value.value.as_slice());
                let member = match self.intern(module, name) {
                    Ok(member) => member,
                    Err(error) => {
                        return Err(error);
                    },
                };
                self.push_expr(module, HirExprKind::MemberAccess { owner, member }, span)
            },
            Expr::Index(index) => {
                let owner = match self.lower_expr(module, &index.owner.value, index.owner.span) {
                    Ok(owner) => owner,
                    Err(error) => {
                        return Err(error);
                    },
                };
                let place = match self.lower_expr(module, &index.index.value, index.index.span) {
                    Ok(place) => place,
                    Err(error) => {
                        return Err(error);
                    },
                };
                self.push_expr(module, HirExprKind::Index { owner, index: place }, span)
            },
            Expr::FunctionCall(call) => {
                let callee = match self.lower_expr(
                    module,
                    &call.identity.value,
                    call.identity.span,
                ) {
                    Ok(callee) => callee,
                    Err(error) => {
                        return Err(error);
                    },
                };
                let arguments = match self.lower_exprs(module, &call.arguments.value) {
                    Ok(arguments) => arguments,
                    Err(error) => {
                        return Err(error);
                    },
                };
                self.push_expr(module, HirExprKind::Call { callee, arguments }, span)
            },
        }
    }

    /// Lowers a run of expressions in order.
    pub fn lower_exprs(&mut self, module: &mut HirModuleContext, exprs: &Vec<Spanned<Expr>>) -> (result:
        LowerResult<Vec<HirExprId>>)
        requires
            old(module)@.wf(),
        ensures
            final(module)@.wf(),
            state_of(*final(self), *final(module)).extends(state_of(*old(self), *old(module))),
            lower_exprs(state_of(*old(self), *old(module)), exprs@) == (Step {
                state: state_of(*final(self), *final(module)),
                result: handles(result),
            }),
            final(self)@.scopes == old(self)@.scopes,
        decreases exprs,
    {
        let ghost start = state_of(*self, *module);
        let mut ids: Vec<HirExprId> = Vec::new();
        let mut i: usize = 0;
        assert(exprs@.subrange(0, 0) =~= Seq::<Spanned<Expr>>::empty());
        while i < exprs.len()
            invariant
                i <= exprs@.len(),
                module@.wf(),
                start == state_of(*old(self), *old(module)),
                state_of(*self, *module).extends(start),
                self@.scopes == old(self)@.scopes,
                lower_exprs(start, exprs@.subrange(0, i as int)) == (Step {
                    state: state_of(*self, *module),
                    result: Ok::<Seq<HirExprId>, LowerError>(ids@),
                }),
            decreases exprs@.len() - i,
        {
            assert(exprs@.subrange(0, i + 1).drop_last() =~= exprs@.subrange(0, i as int));
            let next = &exprs[i];
            match self.lower_expr(module, &next.value, next.span) {
                Ok(id) => {
                    ids.push(id);
                },
                Err(error) => {
                    proof {
                        lemma_lower_exprs_stops(start, exprs@, i + 1);
                    }
                    return Err(error);
                },
            }
            i = i + 1;
        }
        assert(exprs@.subrange(0, i as int) =~= exprs@);
        Ok(ids)
    }

    /// Lowers an expression that may be absent.
    fn lower_optional_expr(&mut self, module: &mut HirModuleContext, expr: &Option<Spanned<Expr>>)
        -> (result: LowerResult<Option<HirExprId>>)
        requires
            old(module)@.wf(),
        ensures
            final(module)@.wf(),
            state_of(*final(self), *final(module)).extends(state_of(*old(self), *old(module))),
            lower_optional_expr(state_of(*old(self), *old(module)), *expr) == (Step {
                state: state_of(*final(self), *final(module)),
                result,
            }),
            final(self)@.scopes == old(self)@.scopes,
    {
        match expr {
            None => Ok(None),
            Some(expr) => match self.lower_expr(module, &expr.value, expr.span) {
                Ok(id) => Ok(Some(id)),
                Err(error) => Err(error),
            },
        }
    }

    /// The number of scopes that are open.
    pub fn depth(&self) -> (depth: usize)
        ensures
            depth == self@.scopes.len(),
    {
        self.symbol_table.depth()
    }

    /// Opens a scope, in which what is declared next hides what the scopes
    /// outside it declare.
    pub fn enter(&mut self, module: &HirModuleContext)
        ensures
            state_of(*final(self), *module) == state_of(*old(self), *module).entered(),
            state_of(*final(self), *module).extends(state_of(*old(self), *module)),
    {
        self.symbol_table.push();
    }

    /// Leaves the innermost scope, which must be there.
    pub fn leave(&mut self, module: &HirModuleContext)
        requires
            old(self)@.scopes.len() > 0,
        ensures
            state_of(*final(self), *module) == state_of(*old(self), *module).left(),
            state_of(*final(self), *module).extends(state_of(*old(self), *module)),
    {
        self.symbol_table.pop();
    }

    /// Lowers a statement. There must be a scope for what it declares.
    pub fn lower_statement(
        &mut self,
        module: &mut HirModuleContext,
        statement: &Statement,
        span: Span,
    ) -> (result: LowerResult<HirStatementId>)
        requires
            old(module)@.wf(),
            old(self)@.scopes.len() > 0,
        ensures
            final(module)@.wf(),
            state_of(*final(self), *final(module)).extends(state_of(*old(self), *old(module))),
            lower_statement(state_of(*old(self), *old(module)), *statement, span) == (Step {
                state: state_of(*final(self), *final(module)),
                result,
            }),
            result is Ok ==> final(self)@.scopes.len() == old(self)@.scopes.len(),
            result matches Ok(id) ==> id.raw < final(self)@.statements.len(),
        decreases statement,
    {
        match statement {
            Statement::Empty => self.push_statement(module, HirStatementKind::Empty, span),
            Statement::Break => self.push_statement(module, HirStatementKind::Break, span),
            Statement::Continue => self.push_statement(module, HirStatementKind::Continue, span),
            Statement::Expr(inner) => {
                let value = match self.lower_expr(module, &inner.expr.value, inner.expr.span) {
                    Ok(value) => value,
                    Err(error) => {
                        return Err(error);
                    },
                };
                self.push_statement(module, HirStatementKind::Expr(value), span)
            },
            Statement::Use(inner) => {
                let path = match self.intern(module, join_path(&inner.path.value)) {
                    Ok(path) => path,
                    Err(error) => {
                        return Err(error);
                    },
                };
                self.push_statement(module, HirStatementKind::Use(path), span)
            },
            Statement::VarDecl(decl) => {
                let name = vstd::slice::slice_to_vec(decl.identifier.value.value.as_slice());
                let variable = match self.declare_variable(
                    module,
                    name,
                    span,
                    decl.identifier.span,
                ) {
                    Ok(variable) => variable,
                    Err(error) => {
                        return Err(error);
                    },
                };
                let expr = match self.lower_optional_expr(module, &decl.expr) {
                    Ok(expr) => expr,
                    Err(error) => {
                        return Err(error);
                    },
                };
                self.push_statement(module, HirStatementKind::VarDecl { variable, expr }, span)
            },
            Statement::Return(inner) => {
                let expr = match self.lower_optional_expr(module, &inner.expr) {
                    Ok(expr) => expr,
                    Err(error) => {
                        return Err(error);
                    },
                };
                self.push_statement(module, HirStatementKind::Return(expr), span)
            },
            Statement::If(inner) => {
                let condition = match self.lower_expr(
                    module,
                    &inner.condition.value,
                    inner.condition.span,
                ) {
                    Ok(condition) => condition,
                    Err(error) => {
                        return Err(error);
                    },
                };
                let body = match self.lower_statement(module, &inner.body.value, inner.body.span) {
                    Ok(body) => body,
                    Err(error) => {
                        return Err(error);
                    },
                };
                let otherwise = match &inner.otherwise {
                    None => None,
                    Some(otherwise) => match self.lower_statement(
                        module,
                        &otherwise.value,
                        otherwise.span,
                    ) {
                        Ok(other) => Some(other),
                        Err(error) => {
                            return Err(error);
                        },
                    },
                };
                self.push_statement(module, HirStatementKind::If { condition, body, otherwise }, span)
            },
            Statement::While(inner) => {
                let condition = match self.lower_expr(
                    module,
                    &inner.condition.value,
                    inner.condition.span,
                ) {
                    Ok(condition) => condition,
                    Err(error) => {
                        return Err(error);
                    },
                };
                let body = match self.lower_statement(module, &inner.body.value, inner.body.span) {
                    Ok(body) => body,
                    Err(error) => {
                        return Err(error);
                    },
                };
                self.push_statement(module, HirStatementKind::While { condition, body }, span)
            },
            Statement::Block(block) => {
                self.enter(module);
                let statements = match self.lower_statements(module, &block.statements) {
                    Ok(statements) => statements,
                    Err(error) => {
                        return Err(error);
                    },
                };
                self.leave(module);
                self.push_statement(module, HirStatementKind::Block(statements), span)
            },
        }
    }

    /// Lowers a run of statements in order.
    pub fn lower_statements(
        &mut self,
        module: &mut HirModuleContext,
        statements: &Vec<Spanned<Statement>>,
    ) -> (result: LowerResult<Vec<HirStatementId>>)
        requires
            old(module)@.wf(),
            old(self)@.scopes.len() > 0,
        ensures
            final(module)@.wf(),
            state_of(*final(self), *final(module)).extends(state_of(*old(self), *old(module))),
            lower_statements(state_of(*old(self), *old(module)), statements@) == (Step {
                state: state_of(*final(self), *final(module)),
                result: handles(result),
            }),
            result is Ok ==> final(self)@.scopes.len() == old(self)@.scopes.len(),
        decreases statements,
    {
        let ghost start = state_of(*self, *module);
        let mut ids: Vec<HirStatementId> = Vec::new();
        let mut i: usize = 0;
        assert(statements@.subrange(0, 0) =~= Seq::<Spanned<Statement>>::empty());
        while i < statements.len()
            invariant
                i <= statements@.len(),
                module@.wf(),
                start == state_of(*old(self), *old(module)),
                state_of(*self, *module).extends(start),
                self@.scopes.len() == old(self)@.scopes.len() > 0,
                lower_statements(start, statements@.subrange(0, i as int)) == (Step {
                    state: state_of(*self, *module),
                    result: Ok::<Seq<HirStatementId>, LowerError>(ids@),
                }),
            decreases statements@.len() - i,
        {
            assert(statements@.subrange(0, i + 1).drop_last() =~= statements@.subrange(
                0,
                i as int,
            ));
            let next = &statements[i];
            match self.lower_statement(module, &next.value, next.span) {
                Ok(id) => {
                    ids.push(id);
                },
                Err(error) => {
                    proof {
                        lemma_lower_statements_stops(start, statements@, i + 1);
                    }
                    return Err(error);
                },
            }
            i = i + 1;
        }
        assert(statements@.subrange(0, i as int) =~= statements@);
        Ok(ids)
    }

    /// Makes a variable of each parameter, in order.
    fn lower_parameters(
        &mut self,
        module: &mut HirModuleContext,
        parameters: &Vec<Spanned<ParameterDecl>>,
    ) -> (result: LowerResult<()>)
        requires
            old(module)@.wf(),
            old(self)@.scopes.len() > 0,
        ensures
            final(module)@.wf(),
            state_of(*final(self), *final(module)).extends(state_of(*old(self), *old(module))),
            lower_parameters(
                state_of(*old(self), *old(module)),
                parameters@,
                parameters@.len() as int,
            ) == (Step { state: state_of(*final(self), *final(module)), result }),
            final(self)@.scopes.len() == old(self)@.scopes.len(),
    {
        let ghost start = state_of(*self, *module);
        let mut i: usize = 0;
        while i < parameters.len()
            invariant
                i <= parameters@.len(),
                module@.wf(),
                start == state_of(*old(self), *old(module)),
                state_of(*self, *module).extends(start),
                self@.scopes.len() == old(self)@.scopes.len() > 0,
                lower_parameters(start, parameters@, i as int) == (Step {
                    state: state_of(*self, *module),
                    result: Ok::<(), LowerError>(()),
                }),
            decreases parameters@.len() - i,
        {
            let parameter = &parameters[i];
            let name = vstd::slice::slice_to_vec(parameter.value.name.value.value.as_slice());
            match self.declare_variable(
                module,
                name,
                parameter.span,
                parameter.value.name.span,
            ) {
                Ok(_) => {},
                Err(error) => {
                    proof {
                        lemma_lower_parameters_stops(
                            start,
                            parameters@,
                            i + 1,
                            parameters@.len() as int,
                        );
                    }
                    return Err(error);
                },
            }
            i = i + 1;
        }
        Ok(())
    }

    /// Lowers a function into this context, which becomes part of the
    /// result: in a scope of its own the parameters are declared, in order,
    /// and the body is lowered; the scope is left before the function is
    /// handed out.
    pub fn lower_function(
        self,
        module: &mut HirModuleContext,
        function_header: HirFunctionHeader,
        function_decl: &FunctionDecl,
    ) -> (result: LowerResult<HirFunctionData>)
        requires
            old(module)@.wf(),
        ensures
            final(module)@.wf(),
            match result {
                Ok(data) => lower_function(state_of(self, *old(module)), *function_decl) == (Step {
                    state: state_of(data.context, *final(module)),
                    result: Ok::<HirStatementId, LowerError>(data.root_statement),
                }) && data.header == function_header && data.root_statement.raw
                    < data.context@.statements.len() && data.context@.scopes.len()
                    == self@.scopes.len() && state_of(data.context, *final(module)).extends(
                    state_of(self, *old(module)),
                ),
                Err(error) => lower_function(
                    state_of(self, *old(module)),
                    *function_decl,
                ).result == Err::<HirStatementId, LowerError>(error) && lower_function(
                    state_of(self, *old(module)),
                    *function_decl,
                ).state.module == final(module)@,
            },
    {
        let mut context = self;
        context.enter(module);
        match context.lower_parameters(module, &function_decl.parameters.value) {
            Ok(_) => {},
            Err(error) => {
                return Err(error);
            },
        }
        let root_statement = match context.lower_statement(
            module,
            &function_decl.body.value,
            function_decl.body.span,
        ) {
            Ok(root) => root,
            Err(error) => {
                return Err(error);
            },
        };
        context.leave(module);
        Ok(HirFunctionData { context, header: function_header, root_statement })
    }
}

} // verus!
