//! Function declarations.

use crate::ast::ident::{Identifier, IdentifierPath};
use crate::ast::stmt::{optional_path_tree, statement_tree, Statement};
use crate::ast::tree::{NodeKind, Syntax, Tree};
use crate::span::{Span, Spanned};
use vstd::prelude::*;

verus! {

#[derive(Debug, PartialEq, Eq)]
pub struct ParameterDecl {
    pub name: Spanned<Identifier>,
    pub type_path: Spanned<IdentifierPath>,
}

/// The prototype of a function that is defined elsewhere.
#[derive(Debug, PartialEq, Eq)]
pub struct ExternFunctionDecl {
    pub name: Spanned<Identifier>,
    pub parameters: Spanned<Vec<Spanned<ParameterDecl>>>,
    pub return_type: Option<Spanned<IdentifierPath>>,
}

#[derive(Debug, PartialEq, Eq)]
pub struct FunctionDecl {
    pub name: Spanned<Identifier>,
    pub parameters: Spanned<Vec<Spanned<ParameterDecl>>>,
    pub return_type: Option<Spanned<IdentifierPath>>,
    pub body: Spanned<Statement>,
}

impl Syntax for ParameterDecl {
    open spec fn tree(self, span: Span) -> Tree {
        Tree::node(
            NodeKind::Parameter,
            span,
            seq![self.name.value.tree(self.name.span), self.type_path.value.tree(self.type_path.span)],
        )
    }
}

/// The tree of a parameter list.
pub open spec fn parameters_tree(parameters: Spanned<Vec<Spanned<ParameterDecl>>>) -> Tree {
    Tree::node(
        NodeKind::Parameters,
        parameters.span,
        Seq::new(
            parameters.value@.len(),
            |i: int| parameters.value@[i].value.tree(parameters.value@[i].span),
        ),
    )
}

impl Syntax for ExternFunctionDecl {
    open spec fn tree(self, span: Span) -> Tree {
        Tree::node(
            NodeKind::ExternFunction { typed: self.return_type is Some },
            span,
            seq![self.name.value.tree(self.name.span), parameters_tree(self.parameters)]
                + optional_path_tree(self.return_type),
        )
    }
}

impl Syntax for FunctionDecl {
    open spec fn tree(self, span: Span) -> Tree {
        Tree::node(
            NodeKind::Function { typed: self.return_type is Some },
            span,
            seq![self.name.value.tree(self.name.span), parameters_tree(self.parameters)]
                + optional_path_tree(self.return_type) + seq![
                statement_tree(self.body.value, self.body.span),
            ],
        )
    }
}

} // verus!
