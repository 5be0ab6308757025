//! What holds of lowering on every input.

use crate::ast::expr::Expr;
use crate::ast::ident::IdentifierPath;
use crate::ast::stmt::{BlockStatement, Statement, VarDeclStatement};
use crate::hir::arena::{interned, lemma_place_of, place_of};
use crate::ast::unit::CompilationUnitMember;
use crate::hir::context::{LowerError, ModuleView};
use crate::hir::lowerer::{
    lemma_lower_statements_stops, lower_expr, lower_exprs, lower_optional_expr, lower_statement,
    lower_statements, path_text, reference, FunctionView, LowerState,
};
use crate::hir::nodes::{
    ExprNode, ExprNodeKind, HirExprId, HirFunctionHeader, HirFunctionId, HirStatementId,
    HirStringId, HirVariable, HirVariableId, StatementNode, StatementNodeKind,
};
use crate::hir::sym::resolved;
use crate::span::{Span, Spanned};
use vstd::prelude::*;

verus! {

impl LowerState {
    /// `self` differs from `before` in nothing but expressions and strings
    /// that were stored behind those of `before`.
    pub open spec fn grew_by_exprs(self, before: LowerState) -> bool {
        &&& self.function.scopes == before.function.scopes
        &&& self.function.variables == before.function.variables
        &&& self.function.statements == before.function.statements
        &&& self.module.table == before.module.table
        &&& self.module.functions == before.module.functions
        &&& before.module.strings.is_prefix_of(self.module.strings)
        &&& before.function.exprs.is_prefix_of(self.function.exprs)
    }
}

/// Interning stores at most one string, behind those that are there, and
/// fails only for want of a handle.
pub proof fn lemma_with_string(state: LowerState, text: Seq<u8>)
    ensures
        state.with_string(text).state.grew_by_exprs(state),
        state.with_string(text).state.function.exprs == state.function.exprs,
        state.with_string(text).result matches Err(error) ==> error == LowerError::OutOfHandles,
        state.module.wf() ==> state.with_string(text).state.module.wf(),
        state.module.wf() ==> (state.with_string(text).result matches Ok(id) ==> id.raw
            < state.with_string(text).state.module.strings.len() && state.with_string(
            text,
        ).state.module.strings[id.raw as int] == text && id.raw == place_of(
            state.module.strings,
            text,
        )),
{
    lemma_place_of(state.module.strings, text);
    crate::hir::arena::lemma_interned(state.module.strings, text);
    let after = interned(state.module.strings, text);
    assert(state.module.strings =~= after.subrange(0, state.module.strings.len() as int));
}

/// Storing an expression stores exactly that, behind those that are there,
/// and fails only for want of a handle.
pub proof fn lemma_with_expr(state: LowerState, node: ExprNode)
    ensures
        state.with_expr(node).state.grew_by_exprs(state),
        state.with_expr(node).result matches Err(error) ==> error == LowerError::OutOfHandles,
        state.with_expr(node).result matches Ok(id) ==> id.raw == state.function.exprs.len()
            && state.with_expr(node).state.function.exprs == state.function.exprs.push(node),
{
    let after = state.with_expr(node).state;
    assert(state.function.exprs =~= after.function.exprs.subrange(
        0,
        state.function.exprs.len() as int,
    ));
    assert(state.module.strings =~= after.module.strings.subrange(
        0,
        state.module.strings.len() as int,
    ));
}

/// What grew by expressions twice grew by expressions.
pub proof fn lemma_grew_by_exprs_twice(first: LowerState, second: LowerState, third: LowerState)
    requires
        second.grew_by_exprs(first),
        third.grew_by_exprs(second),
    ensures
        third.grew_by_exprs(first),
{
    assert(first.module.strings =~= third.module.strings.subrange(
        0,
        first.module.strings.len() as int,
    ));
    assert(first.function.exprs =~= third.function.exprs.subrange(
        0,
        first.function.exprs.len() as int,
    ));
}

/// Lowering an expression touches nothing but the expressions and the
/// strings, which only grow; it declares nothing and leaves every scope as
/// it is. It fails only where an arena has no handle left: no name that is
/// unknown, or known only later in the file, makes it fail. The handle it
/// hands out is that of an expression that is stored.
#[verifier::spinoff_prover]
#[verifier::rlimit(50)]
pub proof fn lemma_lower_expr(state: LowerState, expr: Expr, span: Span)
    ensures
        lower_expr(state, expr, span).state.grew_by_exprs(state),
        state.module.wf() ==> lower_expr(state, expr, span).state.module.wf(),
        lower_expr(state, expr, span).result matches Err(error) ==> error
            == LowerError::OutOfHandles,
        lower_expr(state, expr, span).result matches Ok(id) ==> id.raw < lower_expr(
            state,
            expr,
            span,
        ).state.function.exprs.len(),
    decreases expr,
{
    let whole = lower_expr(state, expr, span);
    match expr {
        Expr::Bool(_) => {
            lemma_store_behind(state, state, whole.state.function.exprs.last());
        },
        Expr::Int(_) => {
            lemma_store_behind(state, state, whole.state.function.exprs.last());
        },
        Expr::Float(float) => {
            lemma_with_string(state, float.digits@);
            let digits = state.with_string(float.digits@);
            if digits.result is Ok {
                lemma_store_behind(state, digits.state, whole.state.function.exprs.last());
            }
        },
        Expr::String(text) => {
            lemma_with_string(state, text@);
            let interned = state.with_string(text@);
            if interned.result is Ok {
                lemma_store_behind(state, interned.state, whole.state.function.exprs.last());
            }
        },
        Expr::IdentifierPath(path) => {
            lemma_with_string(state, path_text(*path));
            let name = state.with_string(path_text(*path));
            if name.result is Ok {
                lemma_store_behind(state, name.state, whole.state.function.exprs.last());
            }
        },
        Expr::Unary(unary) => {
            lemma_lower_expr(state, unary.value.value, unary.value.span);
            let value = lower_expr(state, unary.value.value, unary.value.span);
            if value.result is Ok {
                lemma_store_behind(state, value.state, whole.state.function.exprs.last());
            }
        },
        Expr::Binary(binary) => {
            lemma_lower_expr(state, binary.left.value, binary.left.span);
            let left = lower_expr(state, binary.left.value, binary.left.span);
            if left.result is Ok {
                lemma_lower_expr(left.state, binary.right.value, binary.right.span);
                let right = lower_expr(left.state, binary.right.value, binary.right.span);
                lemma_grew_by_exprs_twice(state, left.state, right.state);
                if right.result is Ok {
                    lemma_store_behind(state, right.state, whole.state.function.exprs.last());
                }
            }
        },
        Expr::Assignment(assignment) => {
            lemma_lower_expr(state, assignment.lvalue.value, assignment.lvalue.span);
            let target = lower_expr(state, assignment.lvalue.value, assignment.lvalue.span);
            if target.result is Ok {
                lemma_lower_expr(target.state, assignment.rvalue.value, assignment.rvalue.span);
                let value = lower_expr(
                    target.state,
                    assignment.rvalue.value,
                    assignment.rvalue.span,
                );
                lemma_grew_by_exprs_twice(state, target.state, value.state);
                if value.result is Ok {
                    lemma_store_behind(state, value.state, whole.state.function.exprs.last());
                }
            }
        },
        Expr::MemberAccess(access) => {
            lemma_lower_expr(state, access.owner.value, access.owner.span);
            let owner = lower_expr(state, access.owner.value, access.owner.span);
            if owner.result is Ok {
                lemma_with_string(owner.state, access.member.value.value@);
                let member = owner.state.with_string(access.member.value.value@);
                lemma_grew_by_exprs_twice(state, owner.state, member.state);
                if member.result is Ok {
                    lemma_store_behind(state, member.state, whole.state.function.exprs.last());
                }
            }
        },
        Expr::Index(index) => {
            lemma_lower_expr(state, index.owner.value, index.owner.span);
            let owner = lower_expr(state, index.owner.value, index.owner.span);
            if owner.result is Ok {
                lemma_lower_expr(owner.state, index.index.value, index.index.span);
                let place = lower_expr(owner.state, index.index.value, index.index.span);
                lemma_grew_by_exprs_twice(state, owner.state, place.state);
                if place.result is Ok {
                    lemma_store_behind(state, place.state, whole.state.function.exprs.last());
                }
            }
        },
        Expr::FunctionCall(call) => {
            lemma_lower_expr(state, call.identity.value, call.identity.span);
            let callee = lower_expr(state, call.identity.value, call.identity.span);
            if callee.result is Ok {
                lemma_lower_exprs(callee.state, call.arguments.value@);
                let arguments = lower_exprs(callee.state, call.arguments.value@);
                lemma_grew_by_exprs_twice(state, callee.state, arguments.state);
                if arguments.result is Ok {
                    lemma_store_behind(state, arguments.state, whole.state.function.exprs.last());
                }
            }
        },
    }
}

/// An expression stored in a state that grew by expressions makes a state
/// that grew by expressions, whatever the expression is.
pub proof fn lemma_store_behind(first: LowerState, second: LowerState, node: ExprNode)
    requires
        second.grew_by_exprs(first),
    ensures
        second.with_expr(node).state.grew_by_exprs(first),
        second.with_expr(node).state.module == second.module,
        second.with_expr(node).result matches Err(error) ==> error == LowerError::OutOfHandles,
        second.with_expr(node).result matches Ok(id) ==> id.raw < second.with_expr(
            node,
        ).state.function.exprs.len(),
{
    lemma_with_expr(second, node);
    lemma_grew_by_exprs_twice(first, second, second.with_expr(node).state);
}

/// Lowering a run of expressions touches nothing but the expressions and
/// the strings, and fails only where an arena has no handle left.
pub proof fn lemma_lower_exprs(state: LowerState, exprs: Seq<Spanned<Expr>>)
    ensures
        lower_exprs(state, exprs).state.grew_by_exprs(state),
        state.module.wf() ==> lower_exprs(state, exprs).state.module.wf(),
        lower_exprs(state, exprs).result matches Err(error) ==> error == LowerError::OutOfHandles,
    decreases exprs,
{
    if exprs.len() == 0 {
        assert(state.module.strings =~= state.module.strings.subrange(
            0,
            state.module.strings.len() as int,
        ));
        assert(state.function.exprs =~= state.function.exprs.subrange(
            0,
            state.function.exprs.len() as int,
        ));
    } else {
        lemma_lower_exprs(state, exprs.drop_last());
        let before = lower_exprs(state, exprs.drop_last());
        if before.result is Ok {
            lemma_lower_expr(before.state, exprs.last().value, exprs.last().span);
            let last = lower_expr(before.state, exprs.last().value, exprs.last().span);
            lemma_grew_by_exprs_twice(state, before.state, last.state);
        }
    }
}

impl LowerState {
    /// Every arena of `self` begins with what `before` holds, and the
    /// functions of the module are declared as they were.
    pub open spec fn grew(self, before: LowerState) -> bool {
        self.extends(before) && self.module.table == before.module.table
    }

    /// `self` has the scopes of `before`: as many, the outer ones as they
    /// were, and the innermost with everything it declared, as it declared it.
    pub open spec fn kept_scopes(self, before: LowerState) -> bool {
        let mine = self.function.scopes;
        let theirs = before.function.scopes;
        &&& mine.len() == theirs.len()
        &&& forall|i: int| 0 <= i < mine.len() - 1 ==> mine[i] == theirs[i]
        &&& mine.len() > 0 ==> forall|key: u32| #[trigger]
            theirs.last().contains_key(key) ==> mine.last().contains_key(key) && mine.last()[key]
                == theirs.last()[key]
    }
}

/// What grew twice grew.
pub proof fn lemma_grew_twice(first: LowerState, second: LowerState, third: LowerState)
    requires
        second.grew(first),
        third.grew(second),
    ensures
        third.grew(first),
{
    assert(first.module.strings =~= third.module.strings.subrange(
        0,
        first.module.strings.len() as int,
    ));
    assert(first.module.functions =~= third.module.functions.subrange(
        0,
        first.module.functions.len() as int,
    ));
    assert(first.function.exprs =~= third.function.exprs.subrange(
        0,
        first.function.exprs.len() as int,
    ));
    assert(first.function.statements =~= third.function.statements.subrange(
        0,
        first.function.statements.len() as int,
    ));
    assert(first.function.variables =~= third.function.variables.subrange(
        0,
        first.function.variables.len() as int,
    ));
}

/// Scopes that were kept twice were kept.
pub proof fn lemma_kept_scopes_twice(first: LowerState, second: LowerState, third: LowerState)
    requires
        second.kept_scopes(first),
        third.kept_scopes(second),
    ensures
        third.kept_scopes(first),
{
    if first.function.scopes.len() > 0 {
        assert forall|key: u32| #[trigger]
            first.function.scopes.last().contains_key(key) implies third.function.scopes.last().contains_key(
            key,
        ) && third.function.scopes.last()[key] == first.function.scopes.last()[key] by {
            assert(second.function.scopes.last().contains_key(key));
        }
    }
}

/// A state has grown from itself and has kept its scopes.
pub proof fn lemma_unchanged(state: LowerState)
    ensures
        state.grew(state),
        state.grew_by_exprs(state),
        state.kept_scopes(state),
{
    assert(state.module.strings =~= state.module.strings.subrange(
        0,
        state.module.strings.len() as int,
    ));
    assert(state.module.functions =~= state.module.functions.subrange(
        0,
        state.module.functions.len() as int,
    ));
    assert(state.function.exprs =~= state.function.exprs.subrange(
        0,
        state.function.exprs.len() as int,
    ));
    assert(state.function.statements =~= state.function.statements.subrange(
        0,
        state.function.statements.len() as int,
    ));
    assert(state.function.variables =~= state.function.variables.subrange(
        0,
        state.function.variables.len() as int,
    ));
}

/// What grew by expressions grew, and kept its scopes.
pub proof fn lemma_grew_by_exprs(first: LowerState, second: LowerState)
    requires
        second.grew_by_exprs(first),
    ensures
        second.grew(first),
        second.kept_scopes(first),
{
    lemma_unchanged(first);
}

/// Storing a statement stores exactly that, behind those that are there,
/// and fails only for want of a handle.
pub proof fn lemma_with_statement(state: LowerState, node: StatementNode)
    ensures
        state.with_statement(node).state.grew(state),
        state.with_statement(node).state.kept_scopes(state),
        state.with_statement(node).state.function.scopes == state.function.scopes,
        state.with_statement(node).state.function.variables == state.function.variables,
        state.with_statement(node).state.function.exprs == state.function.exprs,
        state.with_statement(node).state.module == state.module,
        state.with_statement(node).result matches Err(error) ==> error == LowerError::OutOfHandles,
        state.with_statement(node).result matches Ok(id) ==> id.raw
            == state.function.statements.len() && state.with_statement(
            node,
        ).state.function.statements == state.function.statements.push(node),
{
    lemma_unchanged(state);
    let after = state.with_statement(node).state;
    assert(state.function.statements =~= after.function.statements.subrange(
        0,
        state.function.statements.len() as int,
    ));
}

/// Making a variable stores one variable, named by the handle of its
/// interned name, and declares it in the innermost scope, where the name
/// then resolves to it. It fails as a duplicate exactly where the innermost
/// scope already declares the name, or there is no scope; apart from that
/// only for want of a handle.
#[verifier::spinoff_prover]
#[verifier::rlimit(50)]
pub proof fn lemma_with_variable(state: LowerState, text: Seq<u8>, location: Span, name_span: Span)
    requires
        state.module.wf(),
    ensures
        state.with_variable(text, location, name_span).state.grew(state),
        state.with_variable(text, location, name_span).state.module.wf(),
        state.with_variable(text, location, name_span).state.function.exprs
            == state.function.exprs,
        state.with_variable(text, location, name_span).state.function.statements
            == state.function.statements,
        match state.with_variable(text, location, name_span).result {
            Ok(variable) => {
                let after = state.with_variable(text, location, name_span).state;
                let name = HirStringId { raw: place_of(state.module.strings, text) as u32 };
                &&& after.kept_scopes(state)
                &&& name.raw == place_of(after.module.strings, text)
                &&& name.raw < after.module.strings.len()
                &&& after.module.strings[name.raw as int] == text
                &&& variable.raw == state.function.variables.len()
                &&& after.function.variables == state.function.variables.push(
                    HirVariable { name, location },
                )
                &&& !state.function.scopes.last().contains_key(name.raw)
                &&& after.function.scopes.last().contains_key(name.raw)
                &&& after.function.scopes.last()[name.raw] == variable
                &&& resolved(after.function.scopes, name.raw) == Some(variable)
            },
            Err(LowerError::DuplicateDeclaration { name, span }) => {
                &&& span == name_span
                &&& name.raw == place_of(state.module.strings, text)
                &&& (state.function.scopes.len() == 0 || state.function.scopes.last().contains_key(
                    name.raw,
                ))
            },
            Err(LowerError::OutOfHandles) => true,
        },
{
    lemma_with_string(state, text);
    crate::hir::arena::lemma_interned(state.module.strings, text);
    let named = state.with_string(text);
    lemma_grew_by_exprs(state, named.state);
    if named.result is Ok && named.state.function.variables.len() <= u32::MAX {
        let name = named.result->Ok_0;
        let variable = HirVariableId { raw: named.state.function.variables.len() as u32 };
        let stored = LowerState {
            function: FunctionView {
                variables: named.state.function.variables.push(HirVariable { name, location }),
                ..named.state.function
            },
            ..named.state
        };
        assert(named.state.function.variables =~= stored.function.variables.subrange(
            0,
            named.state.function.variables.len() as int,
        ));
        assert(stored.grew(named.state));
        lemma_grew_twice(state, named.state, stored);
        let after = state.with_variable(text, location, name_span).state;
        assert(after.grew(stored));
        lemma_grew_twice(state, stored, after);
    }
}

/// Lowering an expression that may be absent does what lowering an
/// expression does.
pub proof fn lemma_lower_optional_expr(state: LowerState, expr: Option<Spanned<Expr>>)
    requires
        state.module.wf(),
    ensures
        lower_optional_expr(state, expr).state.grew_by_exprs(state),
        lower_optional_expr(state, expr).state.module.wf(),
        lower_optional_expr(state, expr).result matches Err(error) ==> error
            == LowerError::OutOfHandles,
{
    lemma_unchanged(state);
    if expr is Some {
        lemma_lower_expr(state, expr->0.value, expr->0.span);
    }
}

/// Opening a scope and leaving it again changes nothing, whatever was
/// lowered in between, as long as that kept the scopes.
pub proof fn lemma_left(state: LowerState, inside: LowerState)
    requires
        inside.kept_scopes(state.entered()),
        inside.grew(state.entered()),
    ensures
        inside.left().function.scopes == state.function.scopes,
        inside.left().grew(state),
        inside.left().kept_scopes(state),
        inside.left().module == inside.module,
{
    assert(inside.left().function.scopes =~= state.function.scopes);
    lemma_unchanged(state);
}

/// A step that grew from a state that grew and kept the scopes, and kept
/// the scopes itself, grew and kept the scopes from the start.
pub proof fn lemma_then(first: LowerState, second: LowerState, third: LowerState)
    requires
        second.grew(first),
        second.kept_scopes(first),
        third.grew(second),
        third.kept_scopes(second),
    ensures
        third.grew(first),
        third.kept_scopes(first),
{
    lemma_grew_twice(first, second, third);
    lemma_kept_scopes_twice(first, second, third);
}

/// Lowering a statement only adds to the arenas. Where it succeeds, the
/// scopes are as many as before, the outer ones are as they were, and the
/// innermost has kept every declaration it had: a statement can declare in
/// the scope it stands in, and in no other. The handle it hands out is that
/// of a statement that is stored.
#[verifier::spinoff_prover]
#[verifier::rlimit(50)]
pub proof fn lemma_lower_statement(state: LowerState, statement: Statement, span: Span)
    requires
        state.module.wf(),
    ensures
        lower_statement(state, statement, span).state.grew(state),
        lower_statement(state, statement, span).state.module.wf(),
        lower_statement(state, statement, span).result matches Ok(id) ==> lower_statement(
            state,
            statement,
            span,
        ).state.kept_scopes(state) && id.raw < lower_statement(
            state,
            statement,
            span,
        ).state.function.statements.len(),
        statement is Block && lower_statement(state, statement, span).result is Ok
            ==> lower_statement(state, statement, span).state.function.scopes
            == state.function.scopes,
    decreases statement,
{
    let whole = lower_statement(state, statement, span);
    lemma_unchanged(state);
    match statement {
        Statement::Empty => {
            lemma_with_statement(state, whole.state.function.statements.last());
        },
        Statement::Break => {
            lemma_with_statement(state, whole.state.function.statements.last());
        },
        Statement::Continue => {
            lemma_with_statement(state, whole.state.function.statements.last());
        },
        Statement::Expr(inner) => {
            lemma_lower_expr(state, inner.expr.value, inner.expr.span);
            let value = lower_expr(state, inner.expr.value, inner.expr.span);
            lemma_grew_by_exprs(state, value.state);
            if value.result is Ok {
                lemma_with_statement(value.state, whole.state.function.statements.last());
                lemma_then(state, value.state, whole.state);
            }
        },
        Statement::Use(inner) => {
            lemma_with_string(state, path_text(inner.path.value));
            let path = state.with_string(path_text(inner.path.value));
            lemma_grew_by_exprs(state, path.state);
            if path.result is Ok {
                lemma_with_statement(path.state, whole.state.function.statements.last());
                lemma_then(state, path.state, whole.state);
            }
        },
        Statement::VarDecl(decl) => {
            lemma_with_variable(state, decl.identifier.value.value@, span, decl.identifier.span);
            let variable = state.with_variable(
                decl.identifier.value.value@,
                span,
                decl.identifier.span,
            );
            if variable.result is Ok {
                lemma_lower_optional_expr(variable.state, decl.expr);
                let value = lower_optional_expr(variable.state, decl.expr);
                lemma_grew_by_exprs(variable.state, value.state);
                lemma_then(state, variable.state, value.state);
                if value.result is Ok {
                    lemma_with_statement(value.state, whole.state.function.statements.last());
                    lemma_then(state, value.state, whole.state);
                }
            }
        },
        Statement::Return(inner) => {
            lemma_lower_optional_expr(state, inner.expr);
            let value = lower_optional_expr(state, inner.expr);
            lemma_grew_by_exprs(state, value.state);
            if value.result is Ok {
                lemma_with_statement(value.state, whole.state.function.statements.last());
                lemma_then(state, value.state, whole.state);
            }
        },
        Statement::If(inner) => {
            lemma_lower_expr(state, inner.condition.value, inner.condition.span);
            let condition = lower_expr(state, inner.condition.value, inner.condition.span);
            lemma_grew_by_exprs(state, condition.state);
            if condition.result is Ok {
                lemma_lower_statement(condition.state, inner.body.value, inner.body.span);
                let body = lower_statement(condition.state, inner.body.value, inner.body.span);
                lemma_grew_twice(state, condition.state, body.state);
                if body.result is Ok {
                    lemma_then(state, condition.state, body.state);
                    match inner.otherwise {
                        None => {
                            lemma_with_statement(
                                body.state,
                                whole.state.function.statements.last(),
                            );
                            lemma_then(state, body.state, whole.state);
                        },
                        Some(otherwise) => {
                            lemma_lower_statement(body.state, otherwise.value, otherwise.span);
                            let other = lower_statement(
                                body.state,
                                otherwise.value,
                                otherwise.span,
                            );
                            lemma_grew_twice(state, body.state, other.state);
                            if other.result is Ok {
                                lemma_then(state, body.state, other.state);
                                lemma_with_statement(
                                    other.state,
                                    whole.state.function.statements.last(),
                                );
                                lemma_then(state, other.state, whole.state);
                            }
                        },
                    }
                }
            }
        },
        Statement::While(inner) => {
            lemma_lower_expr(state, inner.condition.value, inner.condition.span);
            let condition = lower_expr(state, inner.condition.value, inner.condition.span);
            lemma_grew_by_exprs(state, condition.state);
            if condition.result is Ok {
                lemma_lower_statement(condition.state, inner.body.value, inner.body.span);
                let body = lower_statement(condition.state, inner.body.value, inner.body.span);
                lemma_grew_twice(state, condition.state, body.state);
                if body.result is Ok {
                    lemma_then(state, condition.state, body.state);
                    lemma_with_statement(body.state, whole.state.function.statements.last());
                    lemma_then(state, body.state, whole.state);
                }
            }
        },
        Statement::Block(block) => {
            lemma_unchanged(state.entered());
            assert(state.entered().grew(state));
            lemma_lower_statements(state.entered(), block.statements@);
            let inside = lower_statements(state.entered(), block.statements@);
            lemma_grew_twice(state, state.entered(), inside.state);
            if inside.result is Ok {
                lemma_left(state, inside.state);
                lemma_with_statement(
                    inside.state.left(),
                    whole.state.function.statements.last(),
                );
                lemma_then(state, inside.state.left(), whole.state);
            }
        },
    }
}

/// Lowering a run of statements only adds to the arenas and, where it
/// succeeds, keeps the scopes.
pub proof fn lemma_lower_statements(state: LowerState, statements: Seq<Spanned<Statement>>)
    requires
        state.module.wf(),
    ensures
        lower_statements(state, statements).state.grew(state),
        lower_statements(state, statements).state.module.wf(),
        lower_statements(state, statements).result is Ok ==> lower_statements(
            state,
            statements,
        ).state.kept_scopes(state),
    decreases statements,
{
    lemma_unchanged(state);
    if statements.len() > 0 {
        lemma_lower_statements(state, statements.drop_last());
        let before = lower_statements(state, statements.drop_last());
        if before.result is Ok {
            lemma_lower_statement(before.state, statements.last().value, statements.last().span);
            let last = lower_statement(
                before.state,
                statements.last().value,
                statements.last().span,
            );
            lemma_grew_twice(state, before.state, last.state);
            if last.result is Ok {
                lemma_then(state, before.state, last.state);
            }
        }
    }
}

/// A string that is interned keeps its place when more strings are stored
/// behind it.
pub proof fn lemma_place_is_kept(strings: Seq<Seq<u8>>, longer: Seq<Seq<u8>>, value: Seq<u8>)
    requires
        strings.is_prefix_of(longer),
        place_of(strings, value) < strings.len(),
    ensures
        place_of(longer, value) == place_of(strings, value),
    decreases longer.len(),
{
    lemma_place_of(strings, value);
    if longer.len() > strings.len() {
        assert(strings =~= longer.drop_last().subrange(0, strings.len() as int));
        lemma_place_is_kept(strings, longer.drop_last(), value);
    } else {
        assert(strings =~= longer);
    }
}

/// What a `let` adds to the arenas: one variable, named by the handle of
/// its interned name.
pub open spec fn one_more_variable(
    before: LowerState,
    after: LowerState,
    text: Seq<u8>,
    location: Span,
) -> bool {
    &&& after.module.wf()
    &&& after.grew(before)
    &&& place_of(after.module.strings, text) < after.module.strings.len()
    &&& after.module.strings[place_of(after.module.strings, text)] == text
    &&& after.function.variables == before.function.variables.push(
        HirVariable {
            name: HirStringId { raw: place_of(after.module.strings, text) as u32 },
            location,
        },
    )
}

/// The statement of a `let`.
pub open spec fn let_statement(decl: VarDeclStatement) -> Statement {
    Statement::VarDecl(Box::new(decl))
}

/// A `let` that is lowered makes exactly one variable. The variable is
/// named by the handle of the interned name and placed where the statement
/// stands, the name resolves to it from then on, and the statement that is
/// stored, the last one, refers to the variable and to the expression of
/// the initial value, if there is one. Nothing else is declared.
#[verifier::spinoff_prover]
#[verifier::rlimit(50)]
pub proof fn lemma_let(state: LowerState, decl: VarDeclStatement, span: Span)
    requires
        state.module.wf(),
        lower_statement(state, let_statement(decl), span).result is Ok,
    ensures
        ({
            let after = lower_statement(state, let_statement(decl), span).state;
            let name = HirStringId {
                raw: place_of(after.module.strings, decl.identifier.value.value@) as u32,
            };
            let variable = HirVariableId { raw: state.function.variables.len() as u32 };
            &&& place_of(after.module.strings, decl.identifier.value.value@)
                < after.module.strings.len()
            &&& name.raw < after.module.strings.len()
            &&& after.module.strings[name.raw as int] == decl.identifier.value.value@
            &&& variable.raw == state.function.variables.len()
            &&& after.function.variables == state.function.variables.push(
                HirVariable { name, location: span },
            )
            &&& !state.function.scopes.last().contains_key(name.raw)
            &&& after.function.scopes.last().contains_key(name.raw)
            &&& resolved(after.function.scopes, name.raw) == Some(variable)
            &&& after.kept_scopes(state)
            &&& one_more_variable(state, after, decl.identifier.value.value@, span)
            &&& after.function.statements.len() == state.function.statements.len() + 1
            &&& after.function.statements.last().span == span
            &&& after.function.statements.last().kind matches StatementNodeKind::VarDecl {
                variable: stored,
                expr,
            } && stored == variable && (expr is Some <==> decl.expr is Some) && (expr matches Some(
                id,
            ) ==> id.raw < after.function.exprs.len())
        }),
{
    let text = decl.identifier.value.value@;
    lemma_with_variable(state, text, span, decl.identifier.span);
    let variable = state.with_variable(text, span, decl.identifier.span);
    lemma_lower_optional_expr(variable.state, decl.expr);
    let value = lower_optional_expr(variable.state, decl.expr);
    if decl.expr is Some {
        lemma_lower_expr(variable.state, decl.expr->0.value, decl.expr->0.span);
    }
    let after = lower_statement(state, let_statement(decl), span).state;
    lemma_with_statement(value.state, after.function.statements.last());
    lemma_place_is_kept(variable.state.module.strings, after.module.strings, text);
    lemma_grew_by_exprs(variable.state, value.state);
    lemma_kept_scopes_twice(state, variable.state, value.state);
    lemma_lower_statement(state, let_statement(decl), span);
}

/// A `let` of a name that the innermost scope does not declare never fails
/// as a duplicate, whatever the scopes outside declare: it fails only for
/// want of a handle.
pub proof fn lemma_let_of_new_name(state: LowerState, decl: VarDeclStatement, span: Span)
    requires
        state.module.wf(),
        state.function.scopes.len() > 0,
        !state.function.scopes.last().contains_key(
            place_of(state.module.strings, decl.identifier.value.value@) as u32,
        ),
    ensures
        lower_statement(state, let_statement(decl), span).result matches Err(error) ==> error
            == LowerError::OutOfHandles,
{
    let text = decl.identifier.value.value@;
    lemma_with_variable(state, text, span, decl.identifier.span);
    let variable = state.with_variable(text, span, decl.identifier.span);
    if variable.result is Ok {
        lemma_lower_optional_expr(variable.state, decl.expr);
        let value = lower_optional_expr(variable.state, decl.expr);
        if value.result is Ok {
            let after = lower_statement(state, let_statement(decl), span).state;
            lemma_with_statement(value.state, after.function.statements.last());
        }
    }
}

/// The first `let` in a scope that was just opened never fails as a
/// duplicate: a name can always be declared again in a new scope.
pub proof fn lemma_let_in_new_scope(state: LowerState, decl: VarDeclStatement, span: Span)
    requires
        state.module.wf(),
    ensures
        lower_statement(state.entered(), let_statement(decl), span).result matches Err(error)
            ==> error == LowerError::OutOfHandles,
{
    lemma_let_of_new_name(state.entered(), decl, span);
}

/// A `let` of a name that the innermost scope declares fails.
pub proof fn lemma_let_of_declared_name(state: LowerState, decl: VarDeclStatement, span: Span)
    requires
        state.module.wf(),
        state.function.scopes.len() > 0,
        place_of(state.module.strings, decl.identifier.value.value@) < state.module.strings.len(),
        state.function.scopes.last().contains_key(
            place_of(state.module.strings, decl.identifier.value.value@) as u32,
        ),
    ensures
        lower_statement(state, let_statement(decl), span).result is Err,
        state.function.variables.len() <= u32::MAX ==> lower_statement(
            state,
            let_statement(decl),
            span,
        ).result == Err::<HirStatementId, LowerError>(
            LowerError::DuplicateDeclaration {
                name: HirStringId {
                    raw: place_of(state.module.strings, decl.identifier.value.value@) as u32,
                },
                span: decl.identifier.span,
            },
        ),
{
    let text = decl.identifier.value.value@;
    lemma_with_variable(state, text, span, decl.identifier.span);
    lemma_with_string(state, text);
}

/// Where a run of statements is lowered, every shorter run of them is,
/// and what follows the shorter run only adds to the arenas and keeps the
/// scopes.
pub proof fn lemma_lowered_so_far(
    state: LowerState,
    statements: Seq<Spanned<Statement>>,
    from: int,
    to: int,
)
    requires
        state.module.wf(),
        0 <= from <= to <= statements.len(),
        lower_statements(state, statements.subrange(0, to)).result is Ok,
    ensures
        lower_statements(state, statements.subrange(0, from)).result is Ok,
        lower_statements(state, statements.subrange(0, from)).state.module.wf(),
        lower_statements(state, statements.subrange(0, from)).state.kept_scopes(state),
        lower_statements(state, statements.subrange(0, to)).state.grew(
            lower_statements(state, statements.subrange(0, from)).state,
        ),
        lower_statements(state, statements.subrange(0, to)).state.kept_scopes(
            lower_statements(state, statements.subrange(0, from)).state,
        ),
    decreases to - from,
{
    lemma_lower_statements(state, statements.subrange(0, from));
    if from == to {
        lemma_unchanged(lower_statements(state, statements.subrange(0, from)).state);
    } else {
        assert(statements.subrange(0, to).drop_last() =~= statements.subrange(0, to - 1));
        lemma_lowered_so_far(state, statements, from, to - 1);
        let early = lower_statements(state, statements.subrange(0, from)).state;
        let before = lower_statements(state, statements.subrange(0, to - 1));
        lemma_lower_statements(state, statements.subrange(0, to - 1));
        let last = statements.subrange(0, to).last();
        lemma_lower_statement(before.state, last.value, last.span);
        lemma_then(early, before.state, lower_statement(before.state, last.value, last.span).state);
    }
}

/// A name cannot be declared twice in one scope: where two `let`s of the
/// same name stand in one run of statements, whatever stands between them,
/// lowering the run fails.
pub proof fn lemma_second_let_fails(
    state: LowerState,
    statements: Seq<Spanned<Statement>>,
    i: int,
    j: int,
    first: VarDeclStatement,
    second: VarDeclStatement,
)
    requires
        state.module.wf(),
        state.function.scopes.len() > 0,
        0 <= i < j < statements.len(),
        statements[i].value == let_statement(first),
        statements[j].value == let_statement(second),
        first.identifier.value.value@ == second.identifier.value.value@,
    ensures
        lower_statements(state, statements).result is Err,
{
    let text = first.identifier.value.value@;
    assert(statements.subrange(0, j + 1).drop_last() =~= statements.subrange(0, j));
    assert(statements.subrange(0, j + 1).last() == statements[j]);
    let so_far = lower_statements(state, statements.subrange(0, j));
    if so_far.result is Ok {
        lemma_lowered_so_far(state, statements, i + 1, j);
        let declared = lower_statements(state, statements.subrange(0, i + 1));
        assert(statements.subrange(0, i + 1).drop_last() =~= statements.subrange(0, i));
        assert(statements.subrange(0, i + 1).last() == statements[i]);
        let before = lower_statements(state, statements.subrange(0, i));
        lemma_lower_statements(state, statements.subrange(0, i));
        assert(declared.state == lower_statement(
            before.state,
            statements[i].value,
            statements[i].span,
        ).state);
        lemma_let(before.state, first, statements[i].span);
        lemma_place_is_kept(declared.state.module.strings, so_far.state.module.strings, text);
        let place = place_of(so_far.state.module.strings, text);
        assert(declared.state.function.scopes.last().contains_key(place as u32));
        assert(so_far.state.function.scopes.last().contains_key(place as u32));
        lemma_lower_statements(state, statements.subrange(0, j));
        lemma_let_of_declared_name(so_far.state, second, statements[j].span);
    }
    lemma_lower_statements_stops(state, statements, j + 1);
}

/// The statement of a block.
pub open spec fn block_statement(block: BlockStatement) -> Statement {
    Statement::Block(Box::new(block))
}

/// A block that holds two `let`s of the same name directly in it is not
/// lowered: lowering it fails.
pub proof fn lemma_duplicate_in_block(
    state: LowerState,
    block: BlockStatement,
    span: Span,
    i: int,
    j: int,
    first: VarDeclStatement,
    second: VarDeclStatement,
)
    requires
        state.module.wf(),
        0 <= i < j < block.statements@.len(),
        block.statements@[i].value == let_statement(first),
        block.statements@[j].value == let_statement(second),
        first.identifier.value.value@ == second.identifier.value.value@,
    ensures
        lower_statement(state, block_statement(block), span).result is Err,
{
    lemma_second_let_fails(state.entered(), block.statements@, i, j, first, second);
}

/// A block is lowered in a scope of its own: where it is lowered, the
/// scopes are afterwards exactly what they were, so that what the block
/// declared is declared no more, and what it hid is in sight again.
pub proof fn lemma_block_restores_the_scopes(state: LowerState, block: BlockStatement, span: Span)
    requires
        state.module.wf(),
        lower_statement(state, block_statement(block), span).result is Ok,
    ensures
        lower_statement(state, block_statement(block), span).state.function.scopes
            == state.function.scopes,
        forall|name: u32|
            resolved(
                lower_statement(state, block_statement(block), span).state.function.scopes,
                name,
            ) == resolved(state.function.scopes, name),
{
    lemma_lower_statement(state, block_statement(block), span);
}

/// Lowering a run of one statement is lowering the statement.
pub proof fn lemma_lower_one(state: LowerState, statement: Spanned<Statement>)
    ensures
        lower_statements(state, seq![statement]).state == lower_statement(
            state,
            statement.value,
            statement.span,
        ).state,
        lower_statements(state, seq![statement]).result is Ok <==> lower_statement(
            state,
            statement.value,
            statement.span,
        ).result is Ok,
        lower_statements(state, seq![statement]).result matches Err(error) ==> lower_statement(
            state,
            statement.value,
            statement.span,
        ).result == Err::<HirStatementId, LowerError>(error),
{
    let run = seq![statement];
    assert(run.drop_last() =~= Seq::<Spanned<Statement>>::empty());
    assert(run.last() == statement);
    assert(lower_statements(state, run.drop_last()) == state.done(Seq::<HirStatementId>::empty()));
}

/// What a block makes of what was lowered inside it: it fails as the
/// inside failed, or for want of a handle for itself; it adds nothing but
/// its own statement; and it leaves the scopes as they were before it.
pub proof fn lemma_block(state: LowerState, block: BlockStatement, span: Span)
    requires
        state.module.wf(),
    ensures
        ({
            let inside = lower_statements(state.entered(), block.statements@);
            let whole = lower_statement(state, block_statement(block), span);
            &&& whole.state.grew(state)
            &&& whole.state.module == inside.state.module
            &&& whole.state.module.wf()
            &&& whole.state.function.variables == inside.state.function.variables
            &&& inside.result matches Err(error) ==> whole.result == Err::<
                HirStatementId,
                LowerError,
            >(error)
            &&& inside.result is Ok ==> (whole.result matches Err(error) ==> error
                == LowerError::OutOfHandles)
            &&& whole.result is Ok ==> whole.state.function.scopes == state.function.scopes
        }),
{
    let inside = lower_statements(state.entered(), block.statements@);
    let whole = lower_statement(state, block_statement(block), span);
    lemma_lower_statement(state, block_statement(block), span);
    lemma_lower_statements(state.entered(), block.statements@);
    if inside.result is Ok {
        lemma_with_statement(inside.state.left(), whole.state.function.statements.last());
    }
}

/// A block that holds one `let` and nothing else is lowered unless a
/// handle is wanting, whatever the scopes around it declare; it makes one
/// variable and leaves the scopes as they were.
pub proof fn lemma_block_of_one_let(
    state: LowerState,
    decl: Spanned<VarDeclStatement>,
    block: Spanned<BlockStatement>,
)
    requires
        state.module.wf(),
        block.value.statements@ == seq![
            Spanned { value: let_statement(decl.value), span: decl.span },
        ],
    ensures
        lower_statement(state, block_statement(block.value), block.span).result matches Err(error)
            ==> error == LowerError::OutOfHandles,
        lower_statement(state, block_statement(block.value), block.span).result is Ok ==> {
            &&& lower_statement(
                state,
                block_statement(block.value),
                block.span,
            ).state.function.scopes == state.function.scopes
            &&& one_more_variable(
                state,
                lower_statement(state, block_statement(block.value), block.span).state,
                decl.value.identifier.value.value@,
                decl.span,
            )
        },
{
    let only = Spanned { value: let_statement(decl.value), span: decl.span };
    let opened = state.entered();
    let one = lower_statement(opened, only.value, only.span);
    let inside = lower_statements(opened, block.value.statements@);
    let whole = lower_statement(state, block_statement(block.value), block.span);
    let text = decl.value.identifier.value.value@;
    assert(inside.state == one.state && (inside.result is Ok <==> one.result is Ok)) by {
        lemma_lower_one(opened, only);
    }
    assert(one.result matches Err(error) ==> error == LowerError::OutOfHandles) by {
        lemma_let_in_new_scope(state, decl.value, decl.span);
    }
    assert(inside.result matches Err(error) ==> error == LowerError::OutOfHandles) by {
        lemma_lower_one(opened, only);
    }
    assert(one.result is Ok ==> one_more_variable(opened, one.state, text, decl.span)) by {
        if one.result is Ok {
            lemma_let(opened, decl.value, decl.span);
        }
    }
    assert({
        &&& whole.state.grew(state)
        &&& whole.state.module == inside.state.module
        &&& whole.state.function.variables == inside.state.function.variables
        &&& inside.result matches Err(error) ==> whole.result == Err::<HirStatementId, LowerError>(
            error,
        )
        &&& inside.result is Ok ==> (whole.result matches Err(error) ==> error
            == LowerError::OutOfHandles)
        &&& whole.result is Ok ==> whole.state.function.scopes == state.function.scopes
    }) by {
        lemma_block(state, block.value, block.span);
    }
    assert(opened.function.variables == state.function.variables);
}

/// Lowering a run of two statements is lowering the one and then the other.
proof fn lemma_two_statements(
    state: LowerState,
    first: Spanned<Statement>,
    second: Spanned<Statement>,
)
    ensures
        ({
            let one = lower_statement(state, first.value, first.span);
            let two = lower_statement(one.state, second.value, second.span);
            let both = lower_statements(state, seq![first, second]);
            &&& one.result matches Err(error) ==> both.result == Err::<
                Seq<HirStatementId>,
                LowerError,
            >(error) && both.state == one.state
            &&& one.result is Ok ==> both.state == two.state && (both.result is Ok
                <==> two.result is Ok) && (two.result matches Err(error) ==> both.result == Err::<
                Seq<HirStatementId>,
                LowerError,
            >(error))
        }),
{
    let run = seq![first, second];
    assert(run.drop_last() =~= seq![first]);
    assert(run.last() == second);
    lemma_lower_one(state, first);
}

/// Two variables of one name, made one after the other.
proof fn lemma_two_variables(
    state: LowerState,
    opened: LowerState,
    one: LowerState,
    two: LowerState,
    whole: LowerState,
    text: Seq<u8>,
    first: Span,
    second: Span,
)
    requires
        opened.function.variables == state.function.variables,
        one_more_variable(opened, one, text, first),
        one_more_variable(one, two, text, second),
        whole.module == two.module,
        whole.function.variables == two.function.variables,
    ensures
        whole.module.strings[place_of(whole.module.strings, text)] == text,
        whole.function.variables == state.function.variables.push(
            HirVariable {
                name: HirStringId { raw: place_of(whole.module.strings, text) as u32 },
                location: first,
            },
        ).push(
            HirVariable {
                name: HirStringId { raw: place_of(whole.module.strings, text) as u32 },
                location: second,
            },
        ),
{
    lemma_place_is_kept(one.module.strings, two.module.strings, text);
}

/// A name that a block declares can be declared again in a block nested in
/// it. Lowering `{ let x ..; { let x ..; } }` fails only for want of a
/// handle; where it succeeds it has made two variables, both named by the
/// handle of the one name, the first for the outer `let` and the second
/// for the inner, and the scopes are what they were before the block.
#[verifier::spinoff_prover]
pub proof fn lemma_shadowing_in_nested_block(
    state: LowerState,
    first: Spanned<VarDeclStatement>,
    second: Spanned<VarDeclStatement>,
    inner: Spanned<BlockStatement>,
    outer: Spanned<BlockStatement>,
)
    requires
        state.module.wf(),
        first.value.identifier.value.value@ == second.value.identifier.value.value@,
        inner.value.statements@ == seq![
            Spanned { value: let_statement(second.value), span: second.span },
        ],
        outer.value.statements@ == seq![
            Spanned { value: let_statement(first.value), span: first.span },
            Spanned { value: block_statement(inner.value), span: inner.span },
        ],
    ensures
        lower_statement(state, block_statement(outer.value), outer.span).result matches Err(error)
            ==> error == LowerError::OutOfHandles,
        lower_statement(state, block_statement(outer.value), outer.span).result is Ok ==> ({
            let after = lower_statement(state, block_statement(outer.value), outer.span).state;
            let name = HirStringId {
                raw: place_of(after.module.strings, first.value.identifier.value.value@) as u32,
            };
            &&& after.function.scopes == state.function.scopes
            &&& after.module.strings[place_of(
                after.module.strings,
                first.value.identifier.value.value@,
            )] == first.value.identifier.value.value@
            &&& after.function.variables == state.function.variables.push(
                HirVariable { name, location: first.span },
            ).push(HirVariable { name, location: second.span })
        }),
{
    let text = first.value.identifier.value.value@;
    let declare = Spanned { value: let_statement(first.value), span: first.span };
    let nested = Spanned { value: block_statement(inner.value), span: inner.span };
    let opened = state.entered();
    let one = lower_statement(opened, declare.value, declare.span);
    let two = lower_statement(one.state, nested.value, nested.span);
    let inside = lower_statements(opened, outer.value.statements@);
    let whole = lower_statement(state, block_statement(outer.value), outer.span);
    assert({
        &&& one.result matches Err(error) ==> inside.result == Err::<
            Seq<HirStatementId>,
            LowerError,
        >(error)
        &&& one.result is Ok ==> inside.state == two.state && (inside.result is Ok
            <==> two.result is Ok) && (two.result matches Err(error) ==> inside.result == Err::<
            Seq<HirStatementId>,
            LowerError,
        >(error))
    }) by {
        lemma_two_statements(opened, declare, nested);
    }
    assert(one.result matches Err(error) ==> error == LowerError::OutOfHandles) by {
        lemma_let_in_new_scope(state, first.value, first.span);
    }
    assert(one.result is Ok ==> one_more_variable(opened, one.state, text, first.span)) by {
        if one.result is Ok {
            lemma_let(opened, first.value, first.span);
        }
    }
    assert(one.result is Ok ==> (two.result matches Err(error) ==> error
        == LowerError::OutOfHandles) && (two.result is Ok ==> one_more_variable(
        one.state,
        two.state,
        text,
        second.span,
    ))) by {
        if one.result is Ok {
            lemma_let(opened, first.value, first.span);
            lemma_block_of_one_let(one.state, second, inner);
        }
    }
    assert({
        &&& whole.state.module == inside.state.module
        &&& whole.state.function.variables == inside.state.function.variables
        &&& inside.result matches Err(error) ==> whole.result == Err::<HirStatementId, LowerError>(
            error,
        )
        &&& inside.result is Ok ==> (whole.result matches Err(error) ==> error
            == LowerError::OutOfHandles)
        &&& whole.result is Ok ==> whole.state.function.scopes == state.function.scopes
    }) by {
        lemma_block(state, outer.value, outer.span);
    }
    if whole.result is Ok {
        lemma_two_variables(
            state,
            opened,
            one.state,
            two.state,
            whole.state,
            text,
            first.span,
            second.span,
        );
    }
}

/// The name of a member that is a function.
pub open spec fn function_name(member: Spanned<CompilationUnitMember>) -> Option<Seq<u8>> {
    match member.value {
        CompilationUnitMember::Function(decl) => Some(decl.name.value.value@),
        _ => None,
    }
}

/// No two functions among the members have the same name.
pub open spec fn distinct_functions(members: Seq<Spanned<CompilationUnitMember>>) -> bool {
    forall|i: int, j: int|
        0 <= i < j < members.len() && function_name(members[i]) is Some && function_name(
            members[j],
        ) is Some ==> function_name(members[i]) != function_name(members[j])
}

/// The module that holds nothing yet.
pub open spec fn new_module() -> ModuleView {
    ModuleView {
        strings: Seq::empty(),
        functions: Seq::empty(),
        table: seq![Map::<u32, HirFunctionId>::empty()],
    }
}

/// The function of the given name is registered: the name is interned,
/// and under its handle the table declares a header that bears it.
pub open spec fn is_registered(module: ModuleView, name: Seq<u8>) -> bool {
    let place = place_of(module.strings, name);
    &&& place < module.strings.len()
    &&& module.table.len() == 1
    &&& module.table[0].contains_key(place as u32)
    &&& resolved(module.table, place as u32) == Some(module.table[0][place as u32])
    &&& module.table[0][place as u32].raw < module.functions.len()
    &&& module.functions[module.table[0][place as u32].raw as int].name.raw == place
}

/// What holds of the module after the first `count` members were scanned.
pub open spec fn scanned(
    module: ModuleView,
    members: Seq<Spanned<CompilationUnitMember>>,
    count: int,
) -> bool {
    &&& module.wf()
    &&& module.strings.len() <= count
    &&& module.functions.len() <= count
    &&& forall|key: u32| #[trigger] module.table[0].contains_key(key) ==> key < module.strings.len()
    &&& forall|j: int|
        count <= j < members.len() && function_name(#[trigger] members[j]) is Some ==> place_of(
            module.strings,
            function_name(members[j])->0,
        ) == module.strings.len()
    &&& forall|i: int|
        0 <= i < count && function_name(#[trigger] members[i]) is Some ==> is_registered(
            module,
            function_name(members[i])->0,
        )
}

/// Registering one more name keeps what was registered.
proof fn lemma_stays_registered(
    module: ModuleView,
    name: Seq<u8>,
    added: Seq<u8>,
    handle: HirFunctionId,
)
    requires
        module.wf(),
        is_registered(module, name),
        place_of(module.strings, added) == module.strings.len(),
        module.strings.len() <= u32::MAX,
        module.functions.len() <= u32::MAX,
    ensures
        is_registered(
            ModuleView {
                strings: module.strings.push(added),
                functions: module.functions.push(
                    HirFunctionHeader { name: HirStringId { raw: module.strings.len() as u32 } },
                ),
                table: seq![
                    module.table[0].insert(module.strings.len() as u32, handle),
                ],
            },
            name,
        ),
{
    let longer = module.strings.push(added);
    assert(module.strings =~= longer.subrange(0, module.strings.len() as int));
    lemma_place_is_kept(module.strings, longer, name);
    let table = seq![module.table[0].insert(module.strings.len() as u32, handle)];
    assert(table.drop_last() =~= Seq::<Map<u32, HirFunctionId>>::empty());
    assert(table.last() == table[0]);
}

/// Before any body is lowered, every function of the unit is registered:
/// where the functions have names of their own and there are no more
/// members than handles, the scan of a new module succeeds, and leaves
/// every function it has passed registered under its name, wherever in
/// the file it stands.
pub proof fn lemma_pre_scan(members: Seq<Spanned<CompilationUnitMember>>, count: int)
    requires
        distinct_functions(members),
        0 <= count <= members.len() <= u32::MAX,
    ensures
        new_module().pre_scan(members, count).1 is Ok,
        scanned(new_module().pre_scan(members, count).0, members, count),
    decreases count,
{
    let start = new_module();
    if count == 0 {
        assert forall|j: int|
            0 <= j < members.len() && function_name(#[trigger] members[j]) is Some implies place_of(
            start.strings,
            function_name(members[j])->0,
        ) == start.strings.len() by {}
    } else {
        lemma_pre_scan(members, count - 1);
        let before = start.pre_scan(members, count - 1).0;
        let member = members[count - 1];
        match function_name(member) {
            None => {
                assert(start.pre_scan(members, count).0 == before);
            },
            Some(name) => {
                let place = before.strings.len();
                assert(place_of(before.strings, name) == place);
                crate::hir::arena::lemma_interned(before.strings, name);
                let handle = HirFunctionId { raw: before.functions.len() as u32 };
                let after = ModuleView {
                    strings: before.strings.push(name),
                    functions: before.functions.push(
                        HirFunctionHeader { name: HirStringId { raw: place as u32 } },
                    ),
                    table: seq![before.table[0].insert(place as u32, handle)],
                };
                assert(!before.table.last().contains_key(place as u32));
                assert(before.table.update(0, before.table.last().insert(place as u32, handle))
                    =~= after.table);
                assert(before.register(name, member.value->Function_0.name.span) == (
                    after,
                    Ok::<HirFunctionId, LowerError>(handle),
                ));
                assert(start.pre_scan(members, count).0 == after);
                assert(after.table.drop_last() =~= Seq::<Map<u32, HirFunctionId>>::empty());
                assert(is_registered(after, name)) by {
                    assert(place_of(after.strings, name) == place);
                }
                assert forall|i: int|
                    0 <= i < count && function_name(
                        #[trigger] members[i],
                    ) is Some implies is_registered(after, function_name(members[i])->0) by {
                    if i < count - 1 {
                        lemma_stays_registered(before, function_name(members[i])->0, name, handle);
                    }
                }
                assert forall|j: int|
                    count <= j < members.len() && function_name(
                        #[trigger] members[j],
                    ) is Some implies place_of(after.strings, function_name(members[j])->0)
                    == after.strings.len() by {
                    let later = function_name(members[j])->0;
                    assert(later != name);
                    assert(after.strings.drop_last() =~= before.strings);
                    assert(place_of(before.strings, later) == before.strings.len());
                }
            },
        }
    }
}

/// A function that is registered stays registered while the arenas grow,
/// as they do when functions are lowered: its name keeps its handle, the
/// table keeps its entry, and the header keeps its place.
pub proof fn lemma_registered_for_good(before: LowerState, after: LowerState, name: Seq<u8>)
    requires
        after.grew(before),
        is_registered(before.module, name),
    ensures
        is_registered(after.module, name),
{
    lemma_place_is_kept(before.module.strings, after.module.strings, name);
    let place = place_of(before.module.strings, name);
    let handle = before.module.table[0][place as u32];
    assert(after.module.functions.subrange(0, before.module.functions.len() as int)[handle.raw as int]
        == after.module.functions[handle.raw as int]);
}

/// The expression of a path.
pub open spec fn path_expr(path: IdentifierPath) -> Expr {
    Expr::IdentifierPath(Box::new(path))
}

/// The name of a registered function, where no variable of that name is
/// in scope, loads the function, wherever in the file the function is
/// declared: lowering the name fails only for want of a handle, and the
/// expression it stores is the load of the header that bears the name.
pub proof fn lemma_name_of_registered_function(state: LowerState, path: IdentifierPath, span: Span)
    requires
        state.module.wf(),
        path.qualifier@.len() == 0,
        is_registered(state.module, path.local_name.value.value@),
        resolved(
            state.function.scopes,
            place_of(state.module.strings, path.local_name.value.value@) as u32,
        ) is None,
    ensures
        lower_expr(state, path_expr(path), span).result matches Err(error) ==> error
            == LowerError::OutOfHandles,
        lower_expr(state, path_expr(path), span).result matches Ok(id) ==> ({
            let after = lower_expr(state, path_expr(path), span).state;
            &&& id.raw == state.function.exprs.len()
            &&& after.module == state.module
            &&& after.function.exprs == state.function.exprs.push(
                ExprNode {
                    kind: ExprNodeKind::LoadFunction(
                        state.module.table[0][place_of(
                            state.module.strings,
                            path.local_name.value.value@,
                        ) as u32],
                    ),
                    span,
                },
            )
            &&& state.module.functions[state.module.table[0][place_of(
                state.module.strings,
                path.local_name.value.value@,
            ) as u32].raw as int].name.raw == place_of(
                state.module.strings,
                path.local_name.value.value@,
            )
        }),
{
    let name = path.local_name.value.value@;
    assert(path_text(path) =~= name) by {
        assert(crate::hir::lowerer::qualifier_text(path.qualifier@) =~= Seq::<u8>::empty());
    }
    lemma_with_string(state, name);
    crate::hir::arena::lemma_interned(state.module.strings, name);
    let named = state.with_string(name);
    assert(named.state.module.strings == state.module.strings);
    assert(named.state == state);
    lemma_with_expr(
        state,
        ExprNode {
            kind: reference(state, path, HirStringId { raw: place_of(state.module.strings, name) as u32 }),
            span,
        },
    );
}

} // verus!
