//! The parser state: an immutable source buffer, a cursor, the node arena,
//! the stack of open elements, the meta-tag registry and the recoverable
//! diagnostics recorded so far; plus the primitive cursor operations.

use vstd::prelude::*;
use crate::diag::Diagnostic;
use crate::diag::ErrorCode;
use crate::grammar::is_boundary;
use crate::grammar::space_run_end;
use crate::grammar::space;
use crate::grammar::boundary;
use crate::meta::MetaTagRegistry;
use crate::node::Node;
use crate::node::NodeKind;

verus! {

/// Whether the literal `lit` occurs in `s` at position `i`.
pub open spec fn lit_at(s: Seq<char>, i: int, lit: Seq<char>) -> bool {
    0 <= i && i + lit.len() <= s.len() && s.subrange(i, i + lit.len()) == lit
}

/// Whether `lit` occurs at position `i` of `s` followed by one boundary
/// character (whitespace, `/` or `>`).
pub open spec fn lit_with_boundary_at(s: Seq<char>, i: int, lit: Seq<char>) -> bool {
    lit_at(s, i, lit) && i + lit.len() < s.len() && is_boundary(s[i + lit.len()])
}

/// The first position `t >= i` where `lit` occurs in `s`, or `s.len()` when
/// it occurs nowhere at or after `i`.
pub open spec fn find_lit(s: Seq<char>, i: int, lit: Seq<char>) -> int
    recommends
        0 <= i <= s.len(),
    decreases s.len() - i,
{
    if i >= s.len() {
        s.len() as int
    } else if lit_at(s, i, lit) {
        i
    } else {
        find_lit(s, i + 1, lit)
    }
}

/// `find_lit` stays within bounds, finds a real occurrence unless it answers
/// `s.len()`, and skips no earlier occurrence.
pub proof fn lemma_find_lit(s: Seq<char>, i: int, lit: Seq<char>)
    requires
        0 <= i <= s.len(),
    ensures
        i <= find_lit(s, i, lit) <= s.len(),
        find_lit(s, i, lit) < s.len() ==> lit_at(s, find_lit(s, i, lit), lit),
        forall|t: int| i <= t < find_lit(s, i, lit) ==> !lit_at(s, t, lit),
    decreases s.len() - i,
{
    if i < s.len() && !lit_at(s, i, lit) {
        lemma_find_lit(s, i + 1, lit);
    }
}

/// The characters of `v` from `a` up to `b`, as a fresh vector.
pub fn subvec(v: &Vec<char>, a: usize, b: usize) -> (r: Vec<char>)
    requires
        a <= b <= v@.len(),
    ensures
        r@ == v@.subrange(a as int, b as int),
{
    let mut r: Vec<char> = Vec::new();
    let mut i = a;
    while i < b
        invariant
            a <= i <= b <= v@.len(),
            r@ == v@.subrange(a as int, i as int),
        decreases b - i,
    {
        r.push(v[i]);
        i = i + 1;
        proof {
            assert(r@ =~= v@.subrange(a as int, i as int));
        }
    }
    proof {
        assert(r@ =~= v@.subrange(a as int, b as int));
    }
    r
}

/// The parser state for one parse of one document.
#[derive(Debug)]
pub struct Parser {
    /// The source buffer, as a sequence of characters; never mutated.
    pub source: Vec<char>,
    /// The cursor: the offset of the next character to read.
    pub index: usize,
    /// The node arena; `nodes[0]` is the document root.
    pub nodes: Vec<Node>,
    /// The open-element stack, as arena indices; `stack[0]` is the root.
    pub stack: Vec<usize>,
    /// Which singleton meta tags were already seen in this parse.
    pub meta_tags: MetaTagRegistry,
    /// The recoverable diagnostics recorded so far, in order.
    pub diagnostics: Vec<Diagnostic>,
}

impl Parser {
    /// Whether arena index `k` is on the open-element stack.
    pub open spec fn on_stack(self, k: int) -> bool {
        exists|j: int| 0 <= j < self.stack@.len() && self.stack@[j] as int == k
    }

    /// The stack is rooted, within the arena, and free of duplicates.
    pub open spec fn stack_wf(self) -> bool {
        &&& self.stack@.len() >= 1
        &&& self.stack@[0] == 0usize
        &&& forall|j: int|
            0 <= j < self.stack@.len() ==> (#[trigger] self.stack@[j]) < self.nodes@.len()
        &&& forall|j1: int, j2: int|
            0 <= j1 < j2 < self.stack@.len() ==> self.stack@[j1] != self.stack@[j2]
    }

    /// Every non-root node that is not open is closed: its `end` offset is
    /// set at or past its `start` offset, strictly past it for everything but
    /// a comment (a comment spans only the raw text between its delimiters,
    /// which may be empty).
    pub open spec fn nodes_closed(self) -> bool {
        forall|k: int|
            1 <= k < self.nodes@.len() && !self.on_stack(k) ==> {
                &&& (#[trigger] self.nodes@[k]).end is Some
                &&& self.nodes@[k].end->0 >= self.nodes@[k].start
                &&& !(self.nodes@[k].kind is Comment) ==> self.nodes@[k].end->0
                    > self.nodes@[k].start
            }
    }

    /// Every child link points to a non-root node of the arena.
    pub open spec fn children_wf(self) -> bool {
        forall|k: int, c: int|
            0 <= k < self.nodes@.len() && 0 <= c < (#[trigger] self.nodes@[k]).children@.len()
                ==> 0 < #[trigger] self.nodes@[k].children@[c] < self.nodes@.len()
    }

    /// Well-formedness of the whole parser state.
    pub open spec fn wf(self) -> bool {
        &&& self.nodes@.len() >= 1
        &&& self.nodes@[0].kind is Root
        &&& self.index <= self.source@.len()
        &&& self.stack_wf()
        &&& self.nodes_closed()
        &&& self.children_wf()
    }

    /// Every open non-root node started strictly before position `pos`.
    pub open spec fn starts_before(self, pos: int) -> bool {
        forall|j: int|
            1 <= j < self.stack@.len() ==> self.nodes@[(#[trigger] self.stack@[j]) as int].start
                < pos
    }

    /// Every open non-root node started strictly before the cursor.
    pub open spec fn starts_below_cursor(self) -> bool {
        self.starts_before(self.index as int)
    }

    /// The two states agree on everything but the cursor.
    pub open spec fn cursor_only(self, other: Parser) -> bool {
        &&& self.source == other.source
        &&& self.nodes == other.nodes
        &&& self.stack == other.stack
        &&& self.meta_tags == other.meta_tags
        &&& self.diagnostics == other.diagnostics
    }

    /// A fresh parse of `source`: cursor at the start, an arena holding only
    /// the root, the root alone open, nothing seen, nothing reported.
    pub fn new(source: &str) -> (r: Parser)
        ensures
            r.wf(),
            r.starts_below_cursor(),
            r.source@ == source@,
            r.index == 0,
            r.nodes@.len() == 1,
            r.nodes@[0].kind is Root,
            r.nodes@[0].start == 0,
            r.nodes@[0].end is None,
            r.nodes@[0].children@.len() == 0,
            r.stack@ == seq![0usize],
            r.meta_tags == (MetaTagRegistry { head: false, options: false, window: false, body: false }),
            r.diagnostics@.len() == 0,
    {
        let root = Node::open(NodeKind::Root, 0, Vec::new());
        let mut nodes: Vec<Node> = Vec::new();
        nodes.push(root);
        let mut stack: Vec<usize> = Vec::new();
        stack.push(0);
        let r = Parser {
            source: crate::grammar::chars_of(source),
            index: 0,
            nodes,
            stack,
            meta_tags: MetaTagRegistry::new(),
            diagnostics: Vec::new(),
        };
        proof {
            assert(r.stack@ =~= seq![0usize]);
        }
        r
    }

    /// The arena index of the current parent: the top of the stack.
    pub fn current(&self) -> (r: usize)
        requires
            self.stack@.len() >= 1,
        ensures
            r == self.stack@[self.stack@.len() - 1],
    {
        self.stack[self.stack.len() - 1]
    }

    /// Whether `lit` occurs in the source at position `i`.
    pub fn lit_at_index(&self, i: usize, lit: &Vec<char>) -> (r: bool)
        requires
            i <= self.source@.len(),
        ensures
            r == lit_at(self.source@, i as int, lit@),
    {
        let n = lit.len();
        let slen = self.source.len();
        if n > slen - i {
            proof {
                assert(!lit_at(self.source@, i as int, lit@));
            }
            return false;
        }
        let mut j: usize = 0;
        while j < n
            invariant
                j <= n,
                i + n <= slen,
                slen == self.source@.len(),
                n == lit@.len(),
                forall|t: int| 0 <= t < j ==> self.source@[i + t] == lit@[t],
            decreases n - j,
        {
            if self.source[i + j] != lit[j] {
                proof {
                    assert(self.source@.subrange(i as int, i + n) != lit@) by {
                        assert(self.source@.subrange(i as int, i + n)[j as int] != lit@[j as int]);
                    }
                }
                return false;
            }
            j = j + 1;
        }
        proof {
            assert(self.source@.subrange(i as int, i + n) =~= lit@);
        }
        true
    }

    /// Consume the exact literal `lit` where the source shows it at the
    /// cursor; report whether it matched.
    pub fn eat(&mut self, lit: &Vec<char>) -> (r: bool)
        requires
            old(self).index <= old(self).source@.len(),
        ensures
            final(self).cursor_only(*old(self)),
            r == lit_at(old(self).source@, old(self).index as int, lit@),
            r ==> final(self).index == old(self).index + lit@.len(),
            !r ==> final(self).index == old(self).index,
            final(self).index <= final(self).source@.len(),
    {
        if self.lit_at_index(self.index, lit) {
            let slen = self.source.len();
            proof {
                assert(self.index + lit@.len() <= slen);
            }
            self.index = self.index + lit.len();
            true
        } else {
            false
        }
    }

    /// The first position at or after `from` where the source shows `lit`,
    /// or the source length where it shows it nowhere.
    pub fn find(&self, from: usize, lit: &Vec<char>) -> (t: usize)
        requires
            from <= self.source@.len(),
        ensures
            t == find_lit(self.source@, from as int, lit@),
    {
        let ghost s = self.source@;
        let slen = self.source.len();
        let mut t = from;
        loop
            invariant
                from <= t <= slen,
                slen == s.len(),
                s == self.source@,
                find_lit(s, from as int, lit@) == find_lit(s, t as int, lit@),
            decreases slen - t,
        {
            if t >= slen {
                return t;
            }
            if self.lit_at_index(t, lit) {
                return t;
            }
            t = t + 1;
        }
    }

    /// Consume up to, but excluding, the first occurrence of `lit`; hand back
    /// the consumed text. Where `lit` never occurs, consume the rest.
    pub fn read_until(&mut self, lit: &Vec<char>) -> (r: Vec<char>)
        requires
            old(self).index <= old(self).source@.len(),
            lit@.len() > 0,
        ensures
            final(self).cursor_only(*old(self)),
            final(self).index == find_lit(old(self).source@, old(self).index as int, lit@),
            final(self).index <= final(self).source@.len(),
            r@ == old(self).source@.subrange(old(self).index as int, final(self).index as int),
    {
        proof {
            lemma_find_lit(self.source@, self.index as int, lit@);
        }
        let t = self.find(self.index, lit);
        let text = subvec(&self.source, self.index, t);
        self.index = t;
        text
    }

    /// Consume `lit` and one required boundary character after it, as a
    /// single step; report whether the source shows both at the cursor.
    /// On failure nothing is consumed.
    pub fn match_with_boundary(&mut self, lit: &Vec<char>) -> (r: bool)
        requires
            old(self).index <= old(self).source@.len(),
        ensures
            final(self).cursor_only(*old(self)),
            r == lit_with_boundary_at(old(self).source@, old(self).index as int, lit@),
            r ==> final(self).index == old(self).index + lit@.len() + 1,
            !r ==> final(self).index == old(self).index,
            final(self).index <= final(self).source@.len(),
    {
        if !self.lit_at_index(self.index, lit) {
            return false;
        }
        let slen = self.source.len();
        proof {
            assert(self.index + lit@.len() <= slen);
        }
        let after = self.index + lit.len();
        if after < self.source.len() && boundary(self.source[after]) {
            self.index = after + 1;
            true
        } else {
            false
        }
    }

    /// Step the cursor back by exactly one character, re-presenting the
    /// character just consumed to the next consumer.
    pub fn unconsume_one(&mut self)
        requires
            old(self).index >= 1,
        ensures
            final(self).cursor_only(*old(self)),
            final(self).index == old(self).index - 1,
    {
        self.index = self.index - 1;
    }

    /// Consume the maximal run of whitespace at the cursor.
    pub fn skip_whitespace(&mut self)
        requires
            old(self).index <= old(self).source@.len(),
        ensures
            final(self).cursor_only(*old(self)),
            final(self).index == space_run_end(old(self).source@, old(self).index as int),
            final(self).index >= old(self).index,
            final(self).index <= final(self).source@.len(),
    {
        let ghost s = self.source@;
        let ghost i0 = self.index as int;
        while self.index < self.source.len() && space(self.source[self.index])
            invariant
                self.cursor_only(*old(self)),
                s == self.source@,
                i0 <= self.index as int <= s.len(),
                space_run_end(s, i0) == space_run_end(s, self.index as int),
            decreases s.len() - self.index,
        {
            self.index = self.index + 1;
        }
        proof {
            assert(space_run_end(s, self.index as int) == self.index as int);
        }
    }

    /// Record a recoverable diagnostic and continue.
    pub fn report(&mut self, code: ErrorCode, offset: usize)
        ensures
            final(self).diagnostics@ == old(self).diagnostics@.push(
                Diagnostic { code, offset },
            ),
            final(self).source == old(self).source,
            final(self).index == old(self).index,
            final(self).nodes == old(self).nodes,
            final(self).stack == old(self).stack,
            final(self).meta_tags == old(self).meta_tags,
    {
        self.diagnostics.push(Diagnostic { code, offset });
    }
}

} // verus!
