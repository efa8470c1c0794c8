//! Reading tag names, classifying them, and enforcing the meta-tag rules.

use vstd::prelude::*;
use crate::diag::Diagnostic;
use crate::diag::ErrorCode;
use crate::node::Node;
use crate::parser::find_lit;
use crate::parser::lit_at;
use crate::parser::lemma_find_lit;
use crate::grammar::letter;
use crate::grammar::letter_run_end;
use crate::grammar::name_tail;
use crate::grammar::tag_name_at;
use crate::grammar::tag_name_end;
use crate::grammar::tag_name_exists;
use crate::grammar::tail_run_end;
use crate::grammar::lemma_tag_name_end_bounds;
use crate::node::NodeKind;
use crate::node::is_content_free_kind;
use crate::node::is_meta_kind;
use crate::parser::Parser;
use crate::parser::subvec;

verus! {

/// Consume the longest tag name at the cursor: an optional `!`, one or more
/// letters, an optional `:`, then letters, digits and hyphens. A tag name is
/// mandatory here: where none starts at the cursor, fail with
/// `InvalidTagName` and consume nothing. Trailing whitespace and the boundary
/// character stay unconsumed.
pub fn read_tag_name(parser: &mut Parser) -> (r: Result<Vec<char>, Diagnostic>)
    requires
        old(parser).index <= old(parser).source@.len(),
    ensures
        final(parser).cursor_only(*old(parser)),
        final(parser).index <= final(parser).source@.len(),
        match r {
            Ok(name) => {
                &&& tag_name_exists(old(parser).source@, old(parser).index as int)
                &&& final(parser).index == tag_name_end(
                    old(parser).source@,
                    old(parser).index as int,
                )
                &&& name@ == tag_name_at(old(parser).source@, old(parser).index as int)
                &&& name@.len() > 0
                &&& old(parser).index < final(parser).index
            },
            Err(e) => {
                &&& !tag_name_exists(old(parser).source@, old(parser).index as int)
                &&& e == (Diagnostic { code: ErrorCode::InvalidTagName, offset: old(parser).index })
                &&& *final(parser) == *old(parser)
            },
        },
{
    let ghost s = old(parser).source@;
    let ghost i0 = old(parser).index as int;
    let slen = parser.source.len();
    let start = parser.index;

    let exists_here = if start >= slen {
        false
    } else if parser.source[start] == '!' {
        start + 1 < slen && letter(parser.source[start + 1])
    } else {
        letter(parser.source[start])
    };
    if !exists_here {
        return Err(Diagnostic { code: ErrorCode::InvalidTagName, offset: start });
    }

    if parser.source[parser.index] == '!' {
        parser.index = parser.index + 1;
    }
    let ghost j0 = parser.index as int;

    while parser.index < slen && letter(parser.source[parser.index])
        invariant
            parser.cursor_only(*old(parser)),
            s == parser.source@,
            slen == s.len(),
            j0 <= parser.index as int <= slen as int,
            letter_run_end(s, j0) == letter_run_end(s, parser.index as int),
        decreases slen - parser.index,
    {
        parser.index = parser.index + 1;
    }
    proof {
        assert(letter_run_end(s, parser.index as int) == parser.index as int);
    }

    if parser.index < slen && parser.source[parser.index] == ':' {
        parser.index = parser.index + 1;
    }
    let ghost m0 = parser.index as int;

    while parser.index < slen && name_tail(parser.source[parser.index])
        invariant
            parser.cursor_only(*old(parser)),
            s == parser.source@,
            slen == s.len(),
            m0 <= parser.index as int <= slen as int,
            tail_run_end(s, m0) == tail_run_end(s, parser.index as int),
        decreases slen - parser.index,
    {
        parser.index = parser.index + 1;
    }
    proof {
        assert(tail_run_end(s, parser.index as int) == parser.index as int);
        assert(parser.index as int == tag_name_end(s, i0));
        lemma_tag_name_end_bounds(s, i0);
    }

    let name = subvec(&parser.source, start, parser.index);
    Ok(name)
}

/// The node kind a raw tag name denotes: one of the four meta kinds for the
/// reserved meta-tag names; otherwise a component reference when the name
/// starts with an upper-case letter, and an ordinary element when it does
/// not.
pub open spec fn spec_classify(name: Seq<char>) -> NodeKind {
    if name == "svelte:head"@ {
        NodeKind::Head
    } else if name == "svelte:options"@ {
        NodeKind::Options
    } else if name == "svelte:window"@ {
        NodeKind::Window
    } else if name == "svelte:body"@ {
        NodeKind::Body
    } else if name.len() > 0 && 'A' <= name[0] && name[0] <= 'Z' {
        NodeKind::InlineComponent
    } else {
        NodeKind::Element
    }
}

/// Whether two character vectors hold the same text.
pub fn chars_eq(a: &Vec<char>, b: &Vec<char>) -> (r: bool)
    ensures
        r == (a@ == b@),
{
    if a.len() != b.len() {
        return false;
    }
    let n = a.len();
    let mut j: usize = 0;
    while j < n
        invariant
            j <= n,
            n == a@.len() == b@.len(),
            forall|t: int| 0 <= t < j ==> a@[t] == b@[t],
        decreases n - j,
    {
        if a[j] != b[j] {
            return false;
        }
        j = j + 1;
    }
    proof {
        assert(a@ =~= b@);
    }
    true
}

/// Classify a raw tag name, as `spec_classify` does.
pub fn classify(name: &Vec<char>) -> (k: NodeKind)
    ensures
        k == spec_classify(name@),
{
    if chars_eq(name, &crate::grammar::chars_of("svelte:head")) {
        NodeKind::Head
    } else if chars_eq(name, &crate::grammar::chars_of("svelte:options")) {
        NodeKind::Options
    } else if chars_eq(name, &crate::grammar::chars_of("svelte:window")) {
        NodeKind::Window
    } else if chars_eq(name, &crate::grammar::chars_of("svelte:body")) {
        NodeKind::Body
    } else if name.len() > 0 && 'A' <= name[0] && name[0] <= 'Z' {
        NodeKind::InlineComponent
    } else {
        NodeKind::Element
    }
}

/// Whether the node being closed holds content it must not hold: only
/// `svelte:window` and `svelte:body` are content-free, and this one has
/// accumulated children.
pub open spec fn content_violation(p: Parser, node: int) -> bool {
    is_content_free_kind(p.nodes@[node].kind) && p.nodes@[node].children@.len() > 0
}

/// Whether this meta kind was already seen in this parse.
pub open spec fn dup_violation(p: Parser, node: int) -> bool {
    p.meta_tags.spec_seen(p.nodes@[node].kind)
}

/// The diagnostics one meta-tag closing event appends: a content violation
/// positioned at the first child, a duplicate violation and a placement
/// violation positioned at the opening tag. The checks are independent; none
/// suppresses the others.
pub open spec fn meta_close_diags(p: Parser, node: int, nested: bool) -> Seq<Diagnostic> {
    let n = p.nodes@[node];
    let content_seq: Seq<Diagnostic> = if content_violation(p, node) {
        seq![
            Diagnostic {
                code: ErrorCode::InvalidElementContent,
                offset: p.nodes@[n.children@[0] as int].start,
            },
        ]
    } else {
        Seq::empty()
    };
    let dup_seq: Seq<Diagnostic> = if dup_violation(p, node) {
        seq![Diagnostic { code: ErrorCode::DuplicateElement, offset: n.start }]
    } else {
        Seq::empty()
    };
    let place_seq: Seq<Diagnostic> = if nested {
        seq![Diagnostic { code: ErrorCode::InvalidElementPlacement, offset: n.start }]
    } else {
        Seq::empty()
    };
    content_seq + dup_seq + place_seq
}

/// The registry after one meta-tag closing event: the kind is marked seen
/// exactly when no check raised a violation.
pub open spec fn meta_close_registry(
    p: Parser,
    node: int,
    nested: bool,
) -> crate::meta::MetaTagRegistry {
    if !content_violation(p, node) && !dup_violation(p, node) && !nested {
        p.meta_tags.spec_mark(p.nodes@[node].kind)
    } else {
        p.meta_tags
    }
}

/// Enforce the singleton, placement and content rules when the meta element
/// held in arena slot `node` closes. `nested` says whether the element's
/// parent was not the document root. All violations are recoverable: each is
/// recorded and the parse goes on.
pub fn resolve_meta_close(parser: &mut Parser, node: usize, nested: bool)
    requires
        node < old(parser).nodes@.len(),
        is_meta_kind(old(parser).nodes@[node as int].kind),
        old(parser).children_wf(),
    ensures
        final(parser).source == old(parser).source,
        final(parser).index == old(parser).index,
        final(parser).nodes == old(parser).nodes,
        final(parser).stack == old(parser).stack,
        final(parser).diagnostics@ == old(parser).diagnostics@ + meta_close_diags(
            *old(parser),
            node as int,
            nested,
        ),
        final(parser).meta_tags == meta_close_registry(*old(parser), node as int, nested),
{
    let ghost p0 = *old(parser);
    let kind = parser.nodes[node].kind;
    let node_start = parser.nodes[node].start;

    let content_free = match kind {
        NodeKind::Window => true,
        NodeKind::Body => true,
        _ => false,
    };
    let content = content_free && parser.nodes[node].children.len() > 0;
    if content {
        let first = parser.nodes[node].children[0];
        let off = parser.nodes[first].start;
        parser.report(ErrorCode::InvalidElementContent, off);
    }

    let dup = parser.meta_tags.seen(kind);
    if dup {
        parser.report(ErrorCode::DuplicateElement, node_start);
    }

    if nested {
        parser.report(ErrorCode::InvalidElementPlacement, node_start);
    }

    if !content && !dup && !nested {
        parser.meta_tags.mark(kind);
    }
    proof {
        assert(parser.diagnostics@ =~= p0.diagnostics@ + meta_close_diags(p0, node as int, nested));
    }
}

/// Whether the construct at `<` is a comment: the source shows `!--` right
/// after the `<` at position `i`.
pub open spec fn comment_open_at(s: Seq<char>, i: int) -> bool {
    lit_at(s, i + 1, "!--"@)
}

/// Where the text of a comment opened at `i` begins: just after `<!--`.
pub open spec fn comment_data_start(i: int) -> int {
    i + 4
}

/// Where the text of a comment opened at `i` ends: at the first `-->` after
/// the opener, or at the end of input where the terminator never comes.
pub open spec fn comment_data_end(s: Seq<char>, i: int) -> int {
    find_lit(s, comment_data_start(i), "-->"@)
}

/// Whether a comment opened at `i` is terminated by `-->` before the input
/// ends.
pub open spec fn comment_terminated(s: Seq<char>, i: int) -> bool {
    lit_at(s, comment_data_end(s, i), "-->"@)
}

/// `n` is `base` with its `end` offset fixed at `e`, all else unchanged.
pub open spec fn with_end(n: Node, base: Node, e: usize) -> bool {
    &&& n.kind == base.kind
    &&& n.start == base.start
    &&& n.end == Some(e)
    &&& n.name == base.name
    &&& n.children == base.children
    &&& n.data == base.data
    &&& n.ignores == base.ignores
    &&& n.elseif == base.elseif
    &&& n.is_else == base.is_else
}

/// `n` is `base` with arena index `c` appended to its children, all else
/// unchanged.
pub open spec fn with_child(n: Node, base: Node, c: usize) -> bool {
    &&& n.kind == base.kind
    &&& n.start == base.start
    &&& n.end == base.end
    &&& n.name == base.name
    &&& n.children@ == base.children@.push(c)
    &&& n.data == base.data
    &&& n.ignores == base.ignores
    &&& n.elseif == base.elseif
    &&& n.is_else == base.is_else
}

/// The transition signal handed back to the outer dispatcher after one
/// construct.
#[derive(Clone, Copy, Debug, PartialEq, Eq, Structural)]
pub enum StateReturn {
    /// No explicit next state: the dispatcher falls back to its default
    /// text/tag detection.
    Fallback,
    /// An explicit request to resume in the text state, used after a
    /// self-closed element to skip redundant re-scanning.
    ResumeText,
}

/// Handle a comment construct, entered with `<!--` already consumed and
/// `start` at its `<`. Consumes the text up to and including the first
/// `-->`; appends one Comment node, a leaf, to the current parent. The node
/// spans the raw text between the delimiters. Where the terminator never
/// comes, fails with `UnclosedComment` at the comment's start and appends
/// nothing.
fn handle_comment(parser: &mut Parser, start: usize) -> (r: Result<StateReturn, Diagnostic>)
    requires
        old(parser).wf(),
        old(parser).index == start + 4,
        start + 4 <= old(parser).source@.len(),
    ensures
        final(parser).wf(),
        final(parser).source == old(parser).source,
        final(parser).stack == old(parser).stack,
        final(parser).meta_tags == old(parser).meta_tags,
        final(parser).diagnostics == old(parser).diagnostics,
        final(parser).index > start,
        final(parser).index <= final(parser).source@.len(),
        old(parser).starts_below_cursor() ==> final(parser).starts_below_cursor(),
        match r {
            Ok(st) => {
                let s = old(parser).source@;
                let c = old(parser).nodes@.len() as int;
                let top = old(parser).stack@.last() as int;
                &&& comment_terminated(s, start as int)
                &&& st is Fallback
                &&& final(parser).index == comment_data_end(s, start as int) + 3
                &&& final(parser).nodes@.len() == c + 1
                &&& final(parser).nodes@[c].kind is Comment
                &&& final(parser).nodes@[c].start == comment_data_start(start as int)
                &&& final(parser).nodes@[c].end == Some(
                    comment_data_end(s, start as int) as usize,
                )
                &&& final(parser).nodes@[c].data@ == s.subrange(
                    comment_data_start(start as int),
                    comment_data_end(s, start as int),
                )
                &&& final(parser).nodes@[c].children@.len() == 0
                &&& final(parser).nodes@[c].ignores@.len() == 0
                &&& with_child(
                    final(parser).nodes@[top],
                    old(parser).nodes@[top],
                    c as usize,
                )
                &&& forall|t: int|
                    0 <= t < c && t != top ==> final(parser).nodes@[t] == old(parser).nodes@[t]
            },
            Err(e) => {
                &&& !comment_terminated(old(parser).source@, start as int)
                &&& e == (Diagnostic { code: ErrorCode::UnclosedComment, offset: start })
                &&& final(parser).nodes == old(parser).nodes
                &&& final(parser).index == old(parser).source@.len()
            },
        },
{
    let ghost s = old(parser).source@;
    let terminator = crate::grammar::chars_of("-->");
    proof {
        reveal_strlit("-->");
        lemma_find_lit(s, parser.index as int, "-->"@);
    }
    let data = parser.read_until(&terminator);
    if !parser.eat(&terminator) {
        return Err(Diagnostic { code: ErrorCode::UnclosedComment, offset: start });
    }
    let dstart = start + 4;
    let dend = parser.index - 3;
    let node = Node {
        kind: NodeKind::Comment,
        start: dstart,
        end: Some(dend),
        name: Vec::new(),
        children: Vec::new(),
        data,
        ignores: Vec::new(),
        elseif: false,
        is_else: false,
    };
    let c = parser.nodes.len();
    parser.nodes.push(node);
    let top = parser.current();
    parser.nodes[top].children.push(c);
    proof {
        let p = *parser;
        assert(p.on_stack(top as int)) by {
            assert(p.stack@[p.stack@.len() - 1] == top);
        }
        assert forall|k: int| 1 <= k < p.nodes@.len() && !p.on_stack(k) implies {
            &&& (#[trigger] p.nodes@[k]).end is Some
            &&& p.nodes@[k].end->0 >= p.nodes@[k].start
            &&& !(p.nodes@[k].kind is Comment) ==> p.nodes@[k].end->0 > p.nodes@[k].start
        } by {
            if k < c {
                assert(old(parser).nodes@[k] == p.nodes@[k] || k == top);
            }
        }
    }
    Ok(StateReturn::Fallback)
}

/// The stack position of the node a closing tag for `name` closes: the
/// topmost open non-root node at or below position `j` whose name is `name`,
/// or -1 where none is open.
pub open spec fn match_from(p: Parser, name: Seq<char>, j: int) -> int
    decreases j,
{
    if j < 1 {
        -1
    } else if p.nodes@[p.stack@[j] as int].name@ == name {
        j
    } else {
        match_from(p, name, j - 1)
    }
}

/// `match_from` reads only the arena and the stack: two states that agree on
/// them agree on the match.
pub proof fn lemma_match_from_same(p1: Parser, p2: Parser, name: Seq<char>, j: int)
    requires
        p1.nodes == p2.nodes,
        p1.stack == p2.stack,
    ensures
        match_from(p1, name, j) == match_from(p2, name, j),
    decreases j,
{
    if j >= 1 {
        lemma_match_from_same(p1, p2, name, j - 1);
    }
}

/// The meta-close effects read only the arena and the registry: two states
/// that agree on them agree on the diagnostics appended and on the registry
/// left behind.
pub proof fn lemma_meta_close_same(p1: Parser, p2: Parser, node: int, nested: bool)
    requires
        p1.nodes == p2.nodes,
        p1.meta_tags == p2.meta_tags,
    ensures
        meta_close_diags(p1, node, nested) == meta_close_diags(p2, node, nested),
        meta_close_registry(p1, node, nested) == meta_close_registry(p2, node, nested),
{
}

/// A match found by `match_from` lies between the root and `j`.
pub proof fn lemma_match_from_bounds(p: Parser, name: Seq<char>, j: int)
    ensures
        match_from(p, name, j) == -1 || 1 <= match_from(p, name, j) <= j,
    decreases j,
{
    if j >= 1 && p.nodes@[p.stack@[j] as int].name@ != name {
        lemma_match_from_bounds(p, name, j - 1);
    }
}

/// Scan the stack from the top for the open node a closing tag for `name`
/// closes; hand back its stack position, or nothing where no open node
/// matches.
fn find_match(parser: &Parser, name: &Vec<char>) -> (r: Option<usize>)
    requires
        parser.stack_wf(),
    ensures
        match r {
            Some(j) => {
                &&& j as int == match_from(*parser, name@, parser.stack@.len() - 1)
                &&& 1 <= j < parser.stack@.len()
            },
            None => match_from(*parser, name@, parser.stack@.len() - 1) == -1,
        },
{
    let mut j = parser.stack.len() - 1;
    loop
        invariant
            parser.stack_wf(),
            0 <= j < parser.stack@.len(),
            match_from(*parser, name@, parser.stack@.len() - 1) == match_from(
                *parser,
                name@,
                j as int,
            ),
        decreases j,
    {
        if j == 0 {
            proof {
                assert(match_from(*parser, name@, 0) == -1);
            }
            return None;
        }
        let idx = parser.stack[j];
        if chars_eq(&parser.nodes[idx].name, name) {
            proof {
                assert(parser.nodes@[parser.stack@[j as int] as int].name@ == name@);
                assert(match_from(*parser, name@, j as int) == j as int);
            }
            return Some(j);
        }
        j = j - 1;
    }
}

/// Whether some entry of `stack` at or above position `j` is the arena
/// index `k`.
pub open spec fn popped_in(stack: Seq<usize>, j: int, k: int) -> bool {
    exists|t: int| j <= t < stack.len() && stack[t] as int == k
}

/// Handle an opening tag, entered with the name consumed, `start` at the
/// `<`, and `kind` the classification of `name`. Creates the node, appends
/// it to the current parent, and pushes it onto the stack unless the tag
/// closes itself with `/>`; a self-closed meta element is checked against
/// the meta-tag rules on the spot.
fn handle_opening(parser: &mut Parser, start: usize, name: Vec<char>, kind: NodeKind) -> (r:
    StateReturn)
    requires
        old(parser).wf(),
        old(parser).starts_below_cursor(),
        start < old(parser).index,
        old(parser).index <= old(parser).source@.len(),
    ensures
        final(parser).wf(),
        final(parser).starts_below_cursor(),
        final(parser).source == old(parser).source,
        final(parser).index >= old(parser).index,
        final(parser).index <= final(parser).source@.len(),
        ({
            let s = old(parser).source@;
            let i1 = old(parser).index as int;
            let k = old(parser).nodes@.len() as int;
            let top = old(parser).stack@.last() as int;
            let w = crate::grammar::space_run_end(s, i1);
            let selfc = lit_at(s, w, "/"@);
            let w2 = if selfc {
                w + 1
            } else {
                w
            };
            let idx = if lit_at(s, w2, ">"@) {
                w2 + 1
            } else {
                w2
            };
            let dup = old(parser).meta_tags.spec_seen(kind);
            let nested = old(parser).stack@.len() >= 2;
            &&& final(parser).index == idx
            &&& final(parser).nodes@.len() == k + 1
            &&& final(parser).nodes@[k].kind == kind
            &&& final(parser).nodes@[k].start == start
            &&& final(parser).nodes@[k].name@ == name@
            &&& final(parser).nodes@[k].children@.len() == 0
            &&& final(parser).nodes@[k].data@.len() == 0
            &&& with_child(final(parser).nodes@[top], old(parser).nodes@[top], k as usize)
            &&& forall|t: int|
                0 <= t < k && t != top ==> final(parser).nodes@[t] == old(parser).nodes@[t]
            &&& if selfc {
                &&& r is ResumeText
                &&& final(parser).stack == old(parser).stack
                &&& final(parser).nodes@[k].end == Some(idx as usize)
                &&& if is_meta_kind(kind) {
                    &&& final(parser).diagnostics@ == old(parser).diagnostics@ + (if dup {
                        seq![Diagnostic { code: ErrorCode::DuplicateElement, offset: start }]
                    } else {
                        Seq::empty()
                    }) + (if nested {
                        seq![
                            Diagnostic {
                                code: ErrorCode::InvalidElementPlacement,
                                offset: start,
                            },
                        ]
                    } else {
                        Seq::empty()
                    })
                    &&& final(parser).meta_tags == (if !dup && !nested {
                        old(parser).meta_tags.spec_mark(kind)
                    } else {
                        old(parser).meta_tags
                    })
                } else {
                    &&& final(parser).diagnostics == old(parser).diagnostics
                    &&& final(parser).meta_tags == old(parser).meta_tags
                }
            } else {
                &&& r is Fallback
                &&& final(parser).stack@ == old(parser).stack@.push(k as usize)
                &&& final(parser).nodes@[k].end is None
                &&& final(parser).diagnostics == old(parser).diagnostics
                &&& final(parser).meta_tags == old(parser).meta_tags
            }
        }),
{
    let ghost p0 = *old(parser);
    let k = parser.nodes.len();
    let node = Node::open(kind, start, name);
    parser.nodes.push(node);
    let top = parser.current();
    parser.nodes[top].children.push(k);
    proof {
        assert(parser.on_stack(top as int)) by {
            assert(parser.stack@[parser.stack@.len() - 1] == top);
        }
    }
    parser.skip_whitespace();
    let slash = crate::grammar::chars_of("/");
    let gt = crate::grammar::chars_of(">");
    proof {
        reveal_strlit("/");
        reveal_strlit(">");
    }
    let self_closing = parser.eat(&slash);
    parser.eat(&gt);
    if self_closing {
        let e = parser.index;
        parser.nodes[k].end = Some(e);
        let is_meta = match kind {
            NodeKind::Head => true,
            NodeKind::Options => true,
            NodeKind::Window => true,
            NodeKind::Body => true,
            _ => false,
        };
        if is_meta {
            let nested = parser.stack.len() >= 2;
            let ghost pm = *parser;
            resolve_meta_close(parser, k, nested);
            proof {
                assert(!content_violation(pm, k as int));
                assert(parser.diagnostics@ =~= pm.diagnostics@ + meta_close_diags(
                    pm,
                    k as int,
                    nested,
                ));
            }
        }
        proof {
            let p = *parser;
            assert forall|t: int| 1 <= t < p.nodes@.len() && !p.on_stack(t) implies {
                &&& (#[trigger] p.nodes@[t]).end is Some
                &&& p.nodes@[t].end->0 >= p.nodes@[t].start
                &&& !(p.nodes@[t].kind is Comment) ==> p.nodes@[t].end->0 > p.nodes@[t].start
            } by {
                if t < k as int {
                    assert(p0.nodes@[t] == p.nodes@[t] || t == p0.stack@.last() as int);
                }
            }
        }
        StateReturn::ResumeText
    } else {
        parser.stack.push(k);
        proof {
            let p = *parser;
            assert(p.stack@[p.stack@.len() - 1] == k);
            assert forall|t: int| 1 <= t < p.nodes@.len() && !p.on_stack(t) implies {
                &&& (#[trigger] p.nodes@[t]).end is Some
                &&& p.nodes@[t].end->0 >= p.nodes@[t].start
                &&& !(p.nodes@[t].kind is Comment) ==> p.nodes@[t].end->0 > p.nodes@[t].start
            } by {
                assert(t != k as int);
                assert(!p0.on_stack(t) ==> (p0.nodes@[t].end is Some));
                if p0.on_stack(t) {
                    let j = choose|j: int|
                        0 <= j < p0.stack@.len() && p0.stack@[j] as int == t;
                    assert(p.stack@[j] as int == t);
                    assert(p.on_stack(t));
                }
                assert(p0.nodes@[t] == p.nodes@[t] || t == p0.stack@.last() as int);
            }
            assert forall|j: int| 1 <= j < p.stack@.len() implies p.nodes@[(#[trigger] p.stack@[j]) as int].start < p.index by {
                if j < p.stack@.len() - 1 {
                    assert(p.stack@[j] == p0.stack@[j]);
                }
            }
        }
        StateReturn::Fallback
    }
}

/// Handle a closing tag, entered with the name consumed and `start` at the
/// `<`. The matching ancestor is located by scanning the stack from the top;
/// it is popped with its `end` offset fixed past the consumed `>`, and any
/// still-open descendants above it are popped with their `end` offsets fixed
/// at this closing tag's start. A closing meta element is checked against the
/// meta-tag rules first. Where nothing open matches, fails with
/// `UnmatchedClosingTag` at the tag's start and changes nothing.
fn handle_closing(parser: &mut Parser, start: usize, name: &Vec<char>) -> (r: Result<
    StateReturn,
    Diagnostic,
>)
    requires
        old(parser).wf(),
        old(parser).starts_before(start as int),
        start < old(parser).index,
        old(parser).index <= old(parser).source@.len(),
    ensures
        final(parser).wf(),
        final(parser).starts_below_cursor(),
        final(parser).source == old(parser).source,
        final(parser).index >= old(parser).index,
        final(parser).index <= final(parser).source@.len(),
        match r {
            Err(e) => {
                &&& match_from(*old(parser), name@, old(parser).stack@.len() - 1) == -1
                &&& e == (Diagnostic { code: ErrorCode::UnmatchedClosingTag, offset: start })
                &&& *final(parser) == *old(parser)
            },
            Ok(st) => {
                let p0 = *old(parser);
                let s = p0.source@;
                let i1 = p0.index as int;
                let j = match_from(p0, name@, p0.stack@.len() - 1);
                let m = p0.stack@[j] as int;
                let w = crate::grammar::space_run_end(s, i1);
                let idx = if lit_at(s, w, ">"@) {
                    w + 1
                } else {
                    w
                };
                &&& st is Fallback
                &&& 1 <= j < p0.stack@.len()
                &&& final(parser).index == idx
                &&& final(parser).stack@ == p0.stack@.subrange(0, j)
                &&& final(parser).nodes@.len() == p0.nodes@.len()
                &&& with_end(final(parser).nodes@[m], p0.nodes@[m], idx as usize)
                &&& forall|t: int|
                    j < t < p0.stack@.len() ==> with_end(
                        final(parser).nodes@[(#[trigger] p0.stack@[t]) as int],
                        p0.nodes@[p0.stack@[t] as int],
                        start,
                    )
                &&& forall|k: int|
                    0 <= k < p0.nodes@.len() && !popped_in(p0.stack@, j, k)
                        ==> final(parser).nodes@[k] == p0.nodes@[k]
                &&& if is_meta_kind(p0.nodes@[m].kind) {
                    &&& final(parser).diagnostics@ == p0.diagnostics@ + meta_close_diags(
                        p0,
                        m,
                        j >= 2,
                    )
                    &&& final(parser).meta_tags == meta_close_registry(p0, m, j >= 2)
                } else {
                    &&& final(parser).diagnostics == p0.diagnostics
                    &&& final(parser).meta_tags == p0.meta_tags
                }
            },
        },
{
    let ghost p0 = *old(parser);
    let found = find_match(parser, name);
    let j = match found {
        Option::None => {
            return Err(Diagnostic { code: ErrorCode::UnmatchedClosingTag, offset: start });
        },
        Option::Some(j) => j,
    };
    proof {
        lemma_match_from_bounds(p0, name@, p0.stack@.len() - 1);
    }
    let m = parser.stack[j];
    let kind = parser.nodes[m].kind;
    let is_meta = match kind {
        NodeKind::Head => true,
        NodeKind::Options => true,
        NodeKind::Window => true,
        NodeKind::Body => true,
        _ => false,
    };
    if is_meta {
        let nested = j >= 2;
        resolve_meta_close(parser, m, nested);
    }
    parser.skip_whitespace();
    let gt = crate::grammar::chars_of(">");
    proof {
        reveal_strlit(">");
    }
    parser.eat(&gt);
    let e = parser.index;
    let ghost pm = *parser;

    while parser.stack.len() > j + 1
        invariant
            1 <= j,
            (j as int) < p0.stack@.len(),
            j + 1 <= parser.stack@.len() <= p0.stack@.len(),
            parser.stack@ == p0.stack@.subrange(0, parser.stack@.len() as int),
            parser.source == p0.source,
            parser.index == pm.index,
            parser.diagnostics == pm.diagnostics,
            parser.meta_tags == pm.meta_tags,
            parser.nodes@.len() == p0.nodes@.len(),
            pm.nodes == p0.nodes,
            p0.wf(),
            p0.starts_before(start as int),
            forall|t: int|
                parser.stack@.len() <= t < p0.stack@.len() ==> with_end(
                    parser.nodes@[(#[trigger] p0.stack@[t]) as int],
                    p0.nodes@[p0.stack@[t] as int],
                    start,
                ),
            forall|k: int|
                0 <= k < p0.nodes@.len() && !popped_in(
                    p0.stack@,
                    parser.stack@.len() as int,
                    k,
                ) ==> parser.nodes@[k] == p0.nodes@[k],
        decreases parser.stack@.len(),
    {
        let lastpos = parser.stack.len() - 1;
        let t = parser.stack[lastpos];
        parser.stack.truncate(lastpos);
        proof {
            assert(parser.stack@ =~= p0.stack@.subrange(0, parser.stack@.len() as int));
            assert(!popped_in(p0.stack@, lastpos + 1, t as int)) by {
                assert(forall|u: int|
                    lastpos + 1 <= u < p0.stack@.len() ==> p0.stack@[u] != p0.stack@[lastpos as int]);
            }
        }
        parser.nodes[t].end = Some(start);
        proof {
            assert forall|k: int|
                0 <= k < p0.nodes@.len() && !popped_in(
                    p0.stack@,
                    parser.stack@.len() as int,
                    k,
                ) implies parser.nodes@[k] == p0.nodes@[k] by {
                assert(k != t as int) by {
                    assert(p0.stack@[lastpos as int] == t);
                }
            }
        }
    }

    let lastpos = parser.stack.len() - 1;
    let matched = parser.stack[lastpos];
    proof {
        assert(matched == p0.stack@[j as int]);
        assert(!popped_in(p0.stack@, j + 1, matched as int)) by {
            assert(forall|u: int|
                j + 1 <= u < p0.stack@.len() ==> p0.stack@[u] != p0.stack@[j as int]);
        }
    }
    parser.stack.truncate(lastpos);
    parser.nodes[matched].end = Some(e);
    proof {
        assert(parser.stack@ =~= p0.stack@.subrange(0, j as int));
        let p = *parser;
        assert(p.stack@[0] == p0.stack@[0]);
        assert forall|k: int| 1 <= k < p.nodes@.len() && !p.on_stack(k) implies {
            &&& (#[trigger] p.nodes@[k]).end is Some
            &&& p.nodes@[k].end->0 >= p.nodes@[k].start
            &&& !(p.nodes@[k].kind is Comment) ==> p.nodes@[k].end->0 > p.nodes@[k].start
        } by {
            if popped_in(p0.stack@, j as int, k) {
                let u = choose|u: int|
                    j <= u < p0.stack@.len() && p0.stack@[u] as int == k;
                assert(p0.starts_before(start as int));
                assert(p0.nodes@[k].start < start);
            } else {
                assert(p.nodes@[k] == p0.nodes@[k]);
                if p0.on_stack(k) {
                    let u = choose|u: int|
                        0 <= u < p0.stack@.len() && p0.stack@[u] as int == k;
                    assert(u < j);
                    assert(p.stack@[u] as int == k);
                    assert(p.on_stack(k));
                }
            }
        }
        assert forall|jj: int| 1 <= jj < p.stack@.len() implies p.nodes@[(
        #[trigger] p.stack@[jj]) as int].start < p.index by {
            assert(p.stack@[jj] == p0.stack@[jj]);
            assert(!popped_in(p0.stack@, j as int, p.stack@[jj] as int)) by {
                assert(forall|u: int|
                    j <= u < p0.stack@.len() ==> p0.stack@[u] != p0.stack@[jj]);
            }
            assert(p.nodes@[p.stack@[jj] as int].start < start);
        }
    }
    Ok(StateReturn::Fallback)
}

/// Whether the construct at the `<` at position `i` is a closing tag.
pub open spec fn closing_at(s: Seq<char>, i: int) -> bool {
    lit_at(s, i + 1, "/"@)
}

/// Where the tag name of the construct at position `i` begins: after the `<`
/// and, for a closing tag, after the `/`.
pub open spec fn name_pos(s: Seq<char>, i: int) -> int {
    if closing_at(s, i) {
        i + 2
    } else {
        i + 1
    }
}

/// Whether a tag name can be read for the construct at position `i`: a
/// reserved marker with its boundary stands at the name position, or the
/// name grammar matches there.
pub open spec fn name_readable(s: Seq<char>, i: int) -> bool {
    crate::markers::marker_kind_at(s, name_pos(s, i)) is Some || tag_name_exists(
        s,
        name_pos(s, i),
    )
}

/// The tag name of the construct at position `i`: the marker literal where a
/// marker stands there, else the longest name the grammar matches.
pub open spec fn read_name_spec(s: Seq<char>, i: int) -> Seq<char> {
    match crate::markers::marker_kind_at(s, name_pos(s, i)) {
        Some(k) => crate::markers::marker_lit(k),
        None => tag_name_at(s, name_pos(s, i)),
    }
}

/// The node kind of the construct at position `i`: the marker's special kind
/// where a marker stands there, else the classification of the name.
pub open spec fn read_kind_spec(s: Seq<char>, i: int) -> NodeKind {
    match crate::markers::marker_kind_at(s, name_pos(s, i)) {
        Some(k) => k,
        None => spec_classify(tag_name_at(s, name_pos(s, i))),
    }
}

/// Where the cursor stands once the tag name of the construct at position
/// `i` is consumed.
pub open spec fn name_end_spec(s: Seq<char>, i: int) -> int {
    name_pos(s, i) + read_name_spec(s, i).len()
}

/// One full recognize-and-mutate step on the construct at the cursor, which
/// must stand on a `<`. Decides among a comment, a closing tag and an
/// opening tag, mutates the tree of open elements accordingly, records
/// recoverable meta-tag violations, and hands the dispatcher its transition
/// signal. The three fatal defects return an error instead and leave the
/// tree, the registry and the recorded diagnostics untouched:
/// `UnclosedComment`, `InvalidTagName` and `UnmatchedClosingTag`, each
/// positioned at this construct's start.
///
/// Attribute lists belong to an external collaborator: after the name this
/// core consumes only whitespace, an optional self-closing `/` and the
/// closing `>`.
pub fn tag(parser: &mut Parser) -> (r: Result<StateReturn, Diagnostic>)
    requires
        old(parser).wf(),
        old(parser).starts_below_cursor(),
        old(parser).index < old(parser).source@.len(),
        old(parser).source@[old(parser).index as int] == '<',
    ensures
        final(parser).wf(),
        final(parser).starts_below_cursor(),
        final(parser).source == old(parser).source,
        old(parser).index < final(parser).index,
        final(parser).index <= final(parser).source@.len(),
        r is Err ==> {
            &&& final(parser).nodes == old(parser).nodes
            &&& final(parser).stack == old(parser).stack
            &&& final(parser).diagnostics == old(parser).diagnostics
            &&& final(parser).meta_tags == old(parser).meta_tags
        },
        forall|k: NodeKind|
            old(parser).meta_tags.spec_seen(k) ==> final(parser).meta_tags.spec_seen(k),
        final(parser).diagnostics@.len() >= old(parser).diagnostics@.len(),
        final(parser).diagnostics@.subrange(0, old(parser).diagnostics@.len() as int) == old(
            parser,
        ).diagnostics@,
        ({
            let p0 = *old(parser);
            let s = p0.source@;
            let i0 = p0.index as int;
            if comment_open_at(s, i0) {
                if comment_terminated(s, i0) {
                    let c = p0.nodes@.len() as int;
                    let top = p0.stack@.last() as int;
                    &&& r == Ok::<StateReturn, Diagnostic>(StateReturn::Fallback)
                    &&& final(parser).index == comment_data_end(s, i0) + 3
                    &&& final(parser).stack == p0.stack
                    &&& final(parser).meta_tags == p0.meta_tags
                    &&& final(parser).diagnostics == p0.diagnostics
                    &&& final(parser).nodes@.len() == c + 1
                    &&& final(parser).nodes@[c].kind is Comment
                    &&& final(parser).nodes@[c].start == comment_data_start(i0)
                    &&& final(parser).nodes@[c].end == Some(comment_data_end(s, i0) as usize)
                    &&& final(parser).nodes@[c].data@ == s.subrange(
                        comment_data_start(i0),
                        comment_data_end(s, i0),
                    )
                    &&& final(parser).nodes@[c].children@.len() == 0
                    &&& final(parser).nodes@[c].ignores@.len() == 0
                    &&& with_child(final(parser).nodes@[top], p0.nodes@[top], c as usize)
                    &&& forall|t: int|
                        0 <= t < c && t != top ==> final(parser).nodes@[t] == p0.nodes@[t]
                } else {
                    r == Err::<StateReturn, Diagnostic>(
                        Diagnostic { code: ErrorCode::UnclosedComment, offset: p0.index },
                    )
                }
            } else if !name_readable(s, i0) {
                &&& r == Err::<StateReturn, Diagnostic>(
                    Diagnostic { code: ErrorCode::InvalidTagName, offset: p0.index },
                )
                &&& final(parser).index == name_pos(s, i0)
            } else if closing_at(s, i0) {
                let name = read_name_spec(s, i0);
                let i1 = name_end_spec(s, i0);
                let j = match_from(p0, name, p0.stack@.len() - 1);
                if j == -1 {
                    &&& r == Err::<StateReturn, Diagnostic>(
                        Diagnostic { code: ErrorCode::UnmatchedClosingTag, offset: p0.index },
                    )
                    &&& final(parser).index == i1
                } else {
                    let m = p0.stack@[j] as int;
                    let w = crate::grammar::space_run_end(s, i1);
                    let idx = if lit_at(s, w, ">"@) {
                        w + 1
                    } else {
                        w
                    };
                    &&& r == Ok::<StateReturn, Diagnostic>(StateReturn::Fallback)
                    &&& 1 <= j < p0.stack@.len()
                    &&& final(parser).index == idx
                    &&& final(parser).stack@ == p0.stack@.subrange(0, j)
                    &&& final(parser).nodes@.len() == p0.nodes@.len()
                    &&& with_end(final(parser).nodes@[m], p0.nodes@[m], idx as usize)
                    &&& forall|t: int|
                        j < t < p0.stack@.len() ==> with_end(
                            final(parser).nodes@[(#[trigger] p0.stack@[t]) as int],
                            p0.nodes@[p0.stack@[t] as int],
                            p0.index,
                        )
                    &&& forall|k: int|
                        0 <= k < p0.nodes@.len() && !popped_in(p0.stack@, j, k)
                            ==> final(parser).nodes@[k] == p0.nodes@[k]
                    &&& if is_meta_kind(p0.nodes@[m].kind) {
                        &&& final(parser).diagnostics@ == p0.diagnostics@ + meta_close_diags(
                            p0,
                            m,
                            j >= 2,
                        )
                        &&& final(parser).meta_tags == meta_close_registry(p0, m, j >= 2)
                    } else {
                        &&& final(parser).diagnostics == p0.diagnostics
                        &&& final(parser).meta_tags == p0.meta_tags
                    }
                }
            } else {
                let name = read_name_spec(s, i0);
                let kind = read_kind_spec(s, i0);
                let i1 = name_end_spec(s, i0);
                let k = p0.nodes@.len() as int;
                let top = p0.stack@.last() as int;
                let w = crate::grammar::space_run_end(s, i1);
                let selfc = lit_at(s, w, "/"@);
                let w2 = if selfc {
                    w + 1
                } else {
                    w
                };
                let idx = if lit_at(s, w2, ">"@) {
                    w2 + 1
                } else {
                    w2
                };
                let dup = p0.meta_tags.spec_seen(kind);
                let nested = p0.stack@.len() >= 2;
                &&& final(parser).index == idx
                &&& final(parser).nodes@.len() == k + 1
                &&& final(parser).nodes@[k].kind == kind
                &&& final(parser).nodes@[k].start == p0.index
                &&& final(parser).nodes@[k].name@ == name
                &&& final(parser).nodes@[k].children@.len() == 0
                &&& final(parser).nodes@[k].data@.len() == 0
                &&& with_child(final(parser).nodes@[top], p0.nodes@[top], k as usize)
                &&& forall|t: int|
                    0 <= t < k && t != top ==> final(parser).nodes@[t] == p0.nodes@[t]
                &&& if selfc {
                    &&& r == Ok::<StateReturn, Diagnostic>(StateReturn::ResumeText)
                    &&& final(parser).stack == p0.stack
                    &&& final(parser).nodes@[k].end == Some(idx as usize)
                    &&& if is_meta_kind(kind) {
                        &&& final(parser).diagnostics@ == p0.diagnostics@ + (if dup {
                            seq![
                                Diagnostic {
                                    code: ErrorCode::DuplicateElement,
                                    offset: p0.index,
                                },
                            ]
                        } else {
                            Seq::empty()
                        }) + (if nested {
                            seq![
                                Diagnostic {
                                    code: ErrorCode::InvalidElementPlacement,
                                    offset: p0.index,
                                },
                            ]
                        } else {
                            Seq::empty()
                        })
                        &&& final(parser).meta_tags == (if !dup && !nested {
                            p0.meta_tags.spec_mark(kind)
                        } else {
                            p0.meta_tags
                        })
                    } else {
                        &&& final(parser).diagnostics == p0.diagnostics
                        &&& final(parser).meta_tags == p0.meta_tags
                    }
                } else {
                    &&& r == Ok::<StateReturn, Diagnostic>(StateReturn::Fallback)
                    &&& final(parser).stack@ == p0.stack@.push(k as usize)
                    &&& final(parser).nodes@[k].end is None
                    &&& final(parser).diagnostics == p0.diagnostics
                    &&& final(parser).meta_tags == p0.meta_tags
                }
            }
        }),
{
    let ghost p0 = *old(parser);
    let ghost s = p0.source@;
    let ghost i0 = p0.index as int;
    let start = parser.index;
    let slen = parser.source.len();
    proof {
        assert(start < slen);
    }
    parser.index = parser.index + 1;
    let bang = crate::grammar::chars_of("!--");
    proof {
        reveal_strlit("!--");
        reveal_strlit("/");
    }
    if parser.eat(&bang) {
        return handle_comment(parser, start);
    }
    let slash = crate::grammar::chars_of("/");
    let is_closing = parser.eat(&slash);
    let marker = crate::markers::resolve_component_marker(parser);
    let (name, kind) = match marker {
        Option::Some((k, nm)) => (nm, k),
        Option::None => {
            let nm = match read_tag_name(parser) {
                Ok(nm) => nm,
                Err(_) => {
                    return Err(
                        Diagnostic { code: ErrorCode::InvalidTagName, offset: start },
                    );
                },
            };
            let k = classify(&nm);
            (nm, k)
        },
    };
    if is_closing {
        let ghost pm = *parser;
        proof {
            lemma_match_from_same(pm, p0, name@, p0.stack@.len() - 1);
        }
        let res = handle_closing(parser, start, &name);
        proof {
            let j = match_from(p0, name@, p0.stack@.len() - 1);
            if res is Ok && j >= 0 {
                lemma_meta_close_same(pm, p0, p0.stack@[j] as int, j >= 2);
            }
        }
        res
    } else {
        proof {
            assert(parser.starts_below_cursor());
        }
        Ok(handle_opening(parser, start, name, kind))
    }
}

/// The answer `parent_is_head` gives on a stack of node kinds, scanned from
/// the top: true at the first `Head`, false at the first `Element` or
/// `InlineComponent`, false when neither occurs.
pub open spec fn spec_parent_is_head(p: Parser, j: int) -> bool
    recommends
        j <= p.stack@.len(),
    decreases j,
{
    if j <= 0 {
        false
    } else {
        let kind = p.nodes@[p.stack@[j - 1] as int].kind;
        if kind is Head {
            true
        } else if kind is Element || kind is InlineComponent {
            false
        } else {
            spec_parent_is_head(p, j - 1)
        }
    }
}

/// Whether the nearest enclosing element on the open stack, skipping kinds
/// that are neither elements nor component references, is a `svelte:head`.
pub fn parent_is_head(parser: &Parser) -> (r: bool)
    requires
        parser.stack_wf(),
    ensures
        r == spec_parent_is_head(*parser, parser.stack@.len() as int),
{
    let mut j = parser.stack.len();
    while j > 0
        invariant
            j <= parser.stack@.len(),
            parser.stack_wf(),
            spec_parent_is_head(*parser, parser.stack@.len() as int) == spec_parent_is_head(
                *parser,
                j as int,
            ),
        decreases j,
    {
        let idx = parser.stack[j - 1];
        let kind = parser.nodes[idx].kind;
        match kind {
            NodeKind::Head => {
                return true;
            },
            NodeKind::Element => {
                return false;
            },
            NodeKind::InlineComponent => {
                return false;
            },
            _ => {
                j = j - 1;
            },
        }
    }
    false
}

} // verus!
