//! Identifiers and `::`-qualified paths.

use crate::ast::tree::{NodeKind, Syntax, Tree};
use crate::span::{Span, Spanned};
use vstd::prelude::*;
use vstd::slice::slice_to_vec;
use vstd::string::StringSliceAdditionalSpecFns;
use vstd::utf8::encode_utf8;

verus! {

/// A name, as the bytes it is written with.
#[derive(Clone, Debug, PartialEq, Eq)]
pub struct Identifier {
    pub value: Vec<u8>,
}

impl Identifier {
    pub fn from_str(value: &str) -> (identifier: Identifier)
        ensures
            identifier.value@ == value.spec_bytes(),
    {
        Identifier { value: slice_to_vec(value.as_bytes()) }
    }

    pub fn from_string(value: String) -> (identifier: Identifier)
        ensures
            identifier.value@ == encode_utf8(value@),
    {
        Identifier { value: slice_to_vec(value.as_str().as_bytes()) }
    }

    pub fn from_boxed_str(value: Box<str>) -> (identifier: Identifier)
        ensures
            identifier.value@ == value.spec_bytes(),
    {
        Identifier { value: slice_to_vec(value.as_bytes()) }
    }

    /// The identifier made of the given bytes.
    pub fn from_bytes(value: Vec<u8>) -> (identifier: Identifier)
        ensures
            identifier.value == value,
    {
        Identifier { value }
    }
}

impl Syntax for Identifier {
    open spec fn tree(self, span: Span) -> Tree {
        Tree::leaf(NodeKind::Identifier(self.value@), span)
    }
}

/// A path of identifiers separated by `::`; the last is the local name.
#[derive(Clone, Debug, PartialEq, Eq)]
pub struct IdentifierPath {
    pub qualifier: Vec<Spanned<Identifier>>,
    pub local_name: Spanned<Identifier>,
}

/// The trees of a run of identifiers.
pub open spec fn identifier_trees(identifiers: Seq<Spanned<Identifier>>) -> Seq<Tree> {
    Seq::new(identifiers.len(), |i: int| identifiers[i].value.tree(identifiers[i].span))
}

impl Syntax for IdentifierPath {
    open spec fn tree(self, span: Span) -> Tree {
        Tree::node(
            NodeKind::IdentifierPath,
            span,
            identifier_trees(self.qualifier@).push(self.local_name.value.tree(self.local_name.span)),
        )
    }
}

} // verus!
