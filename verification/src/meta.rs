//! The per-parse registry of meta tags already seen. The set of recognized
//! names is a fixed constant table; these "seen" flags are the only mutable
//! part, owned by one parser instance.

use vstd::prelude::*;
use crate::node::NodeKind;
use crate::node::is_meta_kind;

verus! {

/// One "already seen" flag per singleton meta tag, scoped to one parse.
#[derive(Clone, Copy, Debug, PartialEq, Eq, Structural)]
pub struct MetaTagRegistry {
    /// `svelte:head` was closed without violations.
    pub head: bool,
    /// `svelte:options` was closed without violations.
    pub options: bool,
    /// `svelte:window` was closed without violations.
    pub window: bool,
    /// `svelte:body` was closed without violations.
    pub body: bool,
}

impl MetaTagRegistry {
    /// Whether this meta kind is marked seen; false for non-meta kinds.
    pub open spec fn spec_seen(self, kind: NodeKind) -> bool {
        match kind {
            NodeKind::Head => self.head,
            NodeKind::Options => self.options,
            NodeKind::Window => self.window,
            NodeKind::Body => self.body,
            _ => false,
        }
    }

    /// The registry with this meta kind marked seen.
    pub open spec fn spec_mark(self, kind: NodeKind) -> MetaTagRegistry {
        match kind {
            NodeKind::Head => MetaTagRegistry { head: true, ..self },
            NodeKind::Options => MetaTagRegistry { options: true, ..self },
            NodeKind::Window => MetaTagRegistry { window: true, ..self },
            NodeKind::Body => MetaTagRegistry { body: true, ..self },
            _ => self,
        }
    }

    /// A registry with no meta tag seen yet.
    pub fn new() -> (r: MetaTagRegistry)
        ensures
            r == (MetaTagRegistry { head: false, options: false, window: false, body: false }),
    {
        MetaTagRegistry { head: false, options: false, window: false, body: false }
    }

    /// Whether this meta kind is marked seen.
    pub fn seen(&self, kind: NodeKind) -> (r: bool)
        requires
            is_meta_kind(kind),
        ensures
            r == self.spec_seen(kind),
    {
        match kind {
            NodeKind::Head => self.head,
            NodeKind::Options => self.options,
            NodeKind::Window => self.window,
            _ => self.body,
        }
    }

    /// Mark this meta kind seen.
    pub fn mark(&mut self, kind: NodeKind)
        requires
            is_meta_kind(kind),
        ensures
            *final(self) == old(self).spec_mark(kind),
    {
        match kind {
            NodeKind::Head => {
                self.head = true;
            },
            NodeKind::Options => {
                self.options = true;
            },
            NodeKind::Window => {
                self.window = true;
            },
            _ => {
                self.body = true;
            },
        }
    }
}

} // verus!
