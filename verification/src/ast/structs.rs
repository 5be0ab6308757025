//! Struct declarations.

use crate::ast::ident::{Identifier, IdentifierPath};
use crate::ast::tree::{NodeKind, Syntax, Tree};
use crate::span::{Span, Spanned};
use vstd::prelude::*;

verus! {

#[derive(Debug, PartialEq, Eq)]
pub struct StructMemberDecl {
    pub identifier: Spanned<Identifier>,
    pub type_path: Spanned<IdentifierPath>,
}

#[derive(Debug, PartialEq, Eq)]
pub struct StructDecl {
    pub identifier: Spanned<Identifier>,
    pub members: Vec<Spanned<StructMemberDecl>>,
}

impl Syntax for StructMemberDecl {
    open spec fn tree(self, span: Span) -> Tree {
        Tree::node(
            NodeKind::StructMember,
            span,
            seq![
                self.identifier.value.tree(self.identifier.span),
                self.type_path.value.tree(self.type_path.span),
            ],
        )
    }
}

/// The trees of a run of struct members.
pub open spec fn member_trees(members: Seq<Spanned<StructMemberDecl>>) -> Seq<Tree> {
    Seq::new(members.len(), |i: int| members[i].value.tree(members[i].span))
}

impl Syntax for StructDecl {
    open spec fn tree(self, span: Span) -> Tree {
        Tree::node(
            NodeKind::Struct,
            span,
            seq![self.identifier.value.tree(self.identifier.span)] + member_trees(self.members@),
        )
    }
}

} // verus!
