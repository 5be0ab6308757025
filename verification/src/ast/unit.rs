//! Compilation units: the declarations of one source file.

use crate::ast::func::{ExternFunctionDecl, FunctionDecl};
use crate::ast::ident::IdentifierPath;
use crate::ast::structs::StructDecl;
use crate::ast::tree::{NodeKind, Syntax, Tree};
use crate::span::{Span, Spanned};
use vstd::prelude::*;

verus! {

#[derive(Debug, PartialEq, Eq)]
pub struct UseDecl {
    pub path: Spanned<IdentifierPath>,
}

#[derive(Debug, PartialEq, Eq)]
pub enum CompilationUnitMember {
    Use(Box<UseDecl>),
    ExternFunction(Box<ExternFunctionDecl>),
    Function(Box<FunctionDecl>),
    Struct(Box<StructDecl>),
}

/// The declarations of one source file. The name serves diagnostics only.
#[derive(Debug, PartialEq, Eq)]
pub struct CompilationUnit {
    pub name: String,
    pub members: Vec<Spanned<CompilationUnitMember>>,
}

impl Syntax for CompilationUnitMember {
    open spec fn tree(self, span: Span) -> Tree {
        match self {
            CompilationUnitMember::Use(decl) => Tree::node(
                NodeKind::UseDecl,
                span,
                seq![decl.path.value.tree(decl.path.span)],
            ),
            CompilationUnitMember::ExternFunction(decl) => decl.tree(span),
            CompilationUnitMember::Function(decl) => decl.tree(span),
            CompilationUnitMember::Struct(decl) => decl.tree(span),
        }
    }
}

/// The trees of a run of top-level declarations.
pub open spec fn unit_member_trees(members: Seq<Spanned<CompilationUnitMember>>) -> Seq<Tree> {
    Seq::new(members.len(), |i: int| members[i].value.tree(members[i].span))
}

impl Syntax for CompilationUnit {
    open spec fn tree(self, span: Span) -> Tree {
        Tree::node(NodeKind::CompilationUnit, span, unit_member_trees(self.members@))
    }
}

} // verus!
