//! The four reserved component markers (`svelte:self`, `svelte:component`,
//! `svelte:fragment`, `svelte:element`). Each denotes a special node kind
//! rather than a literal element, and is recognized only when followed by a
//! boundary character, so that a longer identifier sharing the prefix is not
//! mistaken for it. The matcher has no lookahead: the marker is consumed
//! together with its boundary character, then the cursor steps back by one so
//! the boundary character is re-presented to downstream consumers.

use vstd::prelude::*;
use crate::grammar::chars_of;
use crate::node::NodeKind;
use crate::parser::Parser;
use crate::parser::lit_with_boundary_at;

verus! {

/// The `svelte:self` marker name.
pub open spec fn self_lit() -> Seq<char> {
    "svelte:self"@
}

/// The `svelte:component` marker name.
pub open spec fn component_lit() -> Seq<char> {
    "svelte:component"@
}

/// The `svelte:fragment` marker name.
pub open spec fn fragment_lit() -> Seq<char> {
    "svelte:fragment"@
}

/// The `svelte:element` marker name.
pub open spec fn element_lit() -> Seq<char> {
    "svelte:element"@
}

/// The marker name that announces a given special node kind.
pub open spec fn marker_lit(kind: NodeKind) -> Seq<char> {
    match kind {
        NodeKind::SelfRef => self_lit(),
        NodeKind::ComponentRef => component_lit(),
        NodeKind::Slot => fragment_lit(),
        NodeKind::DynamicElement => element_lit(),
        _ => Seq::empty(),
    }
}

/// The special node kind announced at position `i` of `s`, where one of the
/// four marker names stands there with its boundary character.
pub open spec fn marker_kind_at(s: Seq<char>, i: int) -> Option<NodeKind> {
    if lit_with_boundary_at(s, i, self_lit()) {
        Some(NodeKind::SelfRef)
    } else if lit_with_boundary_at(s, i, component_lit()) {
        Some(NodeKind::ComponentRef)
    } else if lit_with_boundary_at(s, i, fragment_lit()) {
        Some(NodeKind::Slot)
    } else if lit_with_boundary_at(s, i, element_lit()) {
        Some(NodeKind::DynamicElement)
    } else {
        None
    }
}

/// Recognize a reserved component marker at the cursor. On success the
/// marker name is consumed, its boundary character is left in place, and the
/// special kind and the name are handed back; otherwise nothing is consumed.
pub fn resolve_component_marker(parser: &mut Parser) -> (r: Option<(NodeKind, Vec<char>)>)
    requires
        old(parser).index <= old(parser).source@.len(),
    ensures
        final(parser).cursor_only(*old(parser)),
        final(parser).index <= final(parser).source@.len(),
        match r {
            Some((kind, name)) => {
                &&& marker_kind_at(old(parser).source@, old(parser).index as int) == Some(kind)
                &&& name@ == marker_lit(kind)
                &&& final(parser).index == old(parser).index + marker_lit(kind).len()
            },
            None => {
                &&& marker_kind_at(old(parser).source@, old(parser).index as int) is None
                &&& final(parser).index == old(parser).index
            },
        },
{
    let lit = chars_of("svelte:self");
    if parser.match_with_boundary(&lit) {
        parser.unconsume_one();
        return Some((NodeKind::SelfRef, lit));
    }
    let lit = chars_of("svelte:component");
    if parser.match_with_boundary(&lit) {
        parser.unconsume_one();
        return Some((NodeKind::ComponentRef, lit));
    }
    let lit = chars_of("svelte:fragment");
    if parser.match_with_boundary(&lit) {
        parser.unconsume_one();
        return Some((NodeKind::Slot, lit));
    }
    let lit = chars_of("svelte:element");
    if parser.match_with_boundary(&lit) {
        parser.unconsume_one();
        return Some((NodeKind::DynamicElement, lit));
    }
    None
}

/// Whether `s` starts with `lit` followed by a boundary character.
pub fn lit_with_boundary_match(s: &str, lit: &Vec<char>) -> (r: bool)
    ensures
        r == lit_with_boundary_at(s@, 0, lit@),
{
    let v = chars_of(s);
    let n = lit.len();
    if n >= v.len() {
        return false;
    }
    let mut j: usize = 0;
    while j < n
        invariant
            j <= n,
            n == lit@.len(),
            n < v@.len(),
            v@ == s@,
            forall|t: int| 0 <= t < j ==> v@[t] == lit@[t],
        decreases n - j,
    {
        if v[j] != lit[j] {
            proof {
                assert(s@.subrange(0, n as int) != lit@) by {
                    assert(s@.subrange(0, n as int)[j as int] != lit@[j as int]);
                }
            }
            return false;
        }
        j = j + 1;
    }
    proof {
        assert(s@.subrange(0, n as int) =~= lit@);
    }
    crate::grammar::boundary(v[n])
}

/// Whether `s` starts with `svelte:self` and a boundary character.
pub fn self_marker_match(s: &str) -> (r: bool)
    ensures
        r == lit_with_boundary_at(s@, 0, self_lit()),
{
    lit_with_boundary_match(s, &chars_of("svelte:self"))
}

/// Whether `s` starts with `svelte:component` and a boundary character.
pub fn component_marker_match(s: &str) -> (r: bool)
    ensures
        r == lit_with_boundary_at(s@, 0, component_lit()),
{
    lit_with_boundary_match(s, &chars_of("svelte:component"))
}

/// Whether `s` starts with `svelte:fragment` and a boundary character.
pub fn slot_marker_match(s: &str) -> (r: bool)
    ensures
        r == lit_with_boundary_at(s@, 0, fragment_lit()),
{
    lit_with_boundary_match(s, &chars_of("svelte:fragment"))
}

/// Whether `s` starts with `svelte:element` and a boundary character.
pub fn element_marker_match(s: &str) -> (r: bool)
    ensures
        r == lit_with_boundary_at(s@, 0, element_lit()),
{
    lit_with_boundary_match(s, &chars_of("svelte:element"))
}

} // verus!
