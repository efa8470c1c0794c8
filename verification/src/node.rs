//! The AST node model: a tagged node kind plus the fields every node shares.
//!
//! Nodes live in a flat arena (`Vec<Node>`) addressed by index; parent/child
//! links are arena indices, which sidesteps ownership conflicts between a
//! node and its not-yet-closed children. Index 0 is always the document root.

use vstd::prelude::*;

verus! {

/// The kind tag of a node.
#[derive(Clone, Copy, Debug, PartialEq, Eq, Structural)]
pub enum NodeKind {
    /// The document root; created once, never popped.
    Root,
    /// An ordinary element, such as `<div>`.
    Element,
    /// A component reference, recognized by an upper-case initial.
    InlineComponent,
    /// A `<!-- ... -->` comment; always a leaf.
    Comment,
    /// The `svelte:head` meta element.
    Head,
    /// The `svelte:options` meta element.
    Options,
    /// The `svelte:window` meta element.
    Window,
    /// The `svelte:body` meta element.
    Body,
    /// The `svelte:fragment` marker.
    Slot,
    /// The `svelte:self` marker.
    SelfRef,
    /// The `svelte:component` marker.
    ComponentRef,
    /// The `svelte:element` marker.
    DynamicElement,
}

/// One node of the tree. `end` stays `None` until the node closes.
///
/// `data` and `ignores` carry a comment's payload: the raw text, and the
/// lint-suppression directives an external extractor may collect from it
/// (this core leaves `ignores` empty; extraction belongs to a collaborator).
/// `elseif` and `is_else` are flags of control-flow template constructs
/// elsewhere in the grammar; this core only stores them.
#[derive(Debug)]
pub struct Node {
    /// Which construct this node is.
    pub kind: NodeKind,
    /// Offset of the construct's first character.
    pub start: usize,
    /// Offset just past the construct, fixed when the node closes.
    pub end: Option<usize>,
    /// The raw tag name, empty for the root and for comments.
    pub name: Vec<char>,
    /// Arena indices of the children, in document order.
    pub children: Vec<usize>,
    /// A comment's raw text.
    pub data: Vec<char>,
    /// Lint-suppression directive names extracted from a comment.
    pub ignores: Vec<Vec<char>>,
    /// Flag of `else if`-like constructs; stored only.
    pub elseif: bool,
    /// Flag of `else`-like constructs; stored only.
    pub is_else: bool,
}

impl Node {
    /// A fresh, still-open node of the given kind, spanning from `start`.
    pub fn open(kind: NodeKind, start: usize, name: Vec<char>) -> (r: Node)
        ensures
            r.kind == kind,
            r.start == start,
            r.end is None,
            r.name == name,
            r.children@.len() == 0,
            r.data@.len() == 0,
            r.ignores@.len() == 0,
            !r.elseif,
            !r.is_else,
    {
        Node {
            kind,
            start,
            end: None,
            name,
            children: Vec::new(),
            data: Vec::new(),
            ignores: Vec::new(),
            elseif: false,
            is_else: false,
        }
    }
}

/// Whether a kind is one of the four singleton meta elements.
pub open spec fn is_meta_kind(kind: NodeKind) -> bool {
    kind is Head || kind is Options || kind is Window || kind is Body
}

/// Whether a kind must stay content-free (`svelte:window`, `svelte:body`).
pub open spec fn is_content_free_kind(kind: NodeKind) -> bool {
    kind is Window || kind is Body
}

} // verus!
