//! The nodes that the scanner hands out.
use vstd::prelude::*;

verus! {

/// What a [`NodeKind`] holds.
pub enum NodeView {
    Key(Seq<u8>),
    ScalarPlain(Seq<u8>),
}

/// A unit of output: the key of a mapping entry, or a plain scalar. The text
/// is made of ASCII letters, spaces and tabs.
#[derive(Debug, Clone, PartialEq, Eq)]
pub enum NodeKind {
    Key(Vec<u8>),
    ScalarPlain(Vec<u8>),
}

impl View for NodeKind {
    type V = NodeView;

    open spec fn view(&self) -> NodeView {
        match *self {
            NodeKind::Key(text) => NodeView::Key(text@),
            NodeKind::ScalarPlain(text) => NodeView::ScalarPlain(text@),
        }
    }
}

impl NodeKind {
    /// The text of the node.
    pub fn text(&self) -> (r: &Vec<u8>)
        ensures
            r@ == node_text(self@),
    {
        match self {
            NodeKind::Key(text) => text,
            NodeKind::ScalarPlain(text) => text,
        }
    }
}

/// The text that a node carries.
pub open spec fn node_text(node: NodeView) -> Seq<u8> {
    match node {
        NodeView::Key(text) => text,
        NodeView::ScalarPlain(text) => text,
    }
}

} // verus!
