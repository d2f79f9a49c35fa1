//! What every kind of node offers: its size, its text, and, for the
//! identifiers, the node they refer to.
use vstd::prelude::*;

use crate::ast::module::Module;
use crate::ast::nodes::ASTSize;

verus! {

/// A node whose size can be measured.
pub trait SizedAst {
    /// Whether the node can be measured in `module`: following references
    /// from the node ends, at nodes of the module.
    spec fn measurable(&self, module: &Module) -> bool;

    /// The size of the node in `module`.
    spec fn spec_size(&self, module: &Module) -> nat;

    /// The size of the node in `module` (see `spec_size`).
    fn size(&self, module: &Module) -> (r: ASTSize)
        requires
            self.measurable(module),
            self.spec_size(module) <= usize::MAX,
        ensures
            r == self.spec_size(module),
    ;
}

/// A node that can be written as Erlang text.
pub trait AstNode: SizedAst {
    /// The text of the node in `module`.
    spec fn text(&self, module: &Module) -> Seq<char>;

    /// Appends the node's text (see `text`) to `f`.
    fn fmt(&self, module: &Module, f: &mut String)
        requires
            self.measurable(module),
        ensures
            final(f)@ == old(f)@ + self.text(module),
    ;
}

/// An identifier of a node of a module.
pub trait NodeId {
    type Node;

    /// Whether `module` has the node the identifier refers to.
    spec fn in_module(&self, module: &Module) -> bool;

    /// The node the identifier refers to.
    spec fn node(&self, module: &Module) -> Self::Node;

    /// The node the identifier refers to (see `node`).
    fn get<'a>(&self, module: &'a Module<'_>) -> (r: &'a Self::Node)
        requires
            self.in_module(module),
        ensures
            *r == self.node(module),
    ;
}

} // verus!
