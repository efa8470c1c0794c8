//! A minimal document driver around the tag-parsing core: it walks the
//! source, hands every `<`-prefixed construct to the core, and skips plain
//! text, which belongs to an outer dispatcher. It exists so that whole
//! documents can be parsed and the tree-shape guarantees stated end to end.

use vstd::prelude::*;
use crate::diag::Diagnostic;
use crate::diag::spec_is_fatal;
use crate::parser::Parser;
use crate::tag::tag;

verus! {

/// Parse a whole document: one recognize-and-mutate step per `<`, every
/// other character skipped as text. A fatal defect aborts the parse and is
/// handed back; otherwise the finished parser state is, its cursor at the
/// end of input and only recoverable diagnostics recorded.
pub fn parse(source: &str) -> (r: Result<Parser, Diagnostic>)
    ensures
        match r {
            Ok(p) => {
                &&& p.wf()
                &&& p.starts_below_cursor()
                &&& p.source@ == source@
                &&& p.index == p.source@.len()
                &&& forall|t: int|
                    0 <= t < p.diagnostics@.len() ==> !spec_is_fatal(
                        (#[trigger] p.diagnostics@[t]).code,
                    )
            },
            Err(e) => spec_is_fatal(e.code),
        },
{
    let mut p = Parser::new(source);
    let slen = p.source.len();
    while p.index < slen
        invariant
            p.wf(),
            p.starts_below_cursor(),
            slen == p.source@.len(),
            p.source@ == source@,
            forall|t: int|
                0 <= t < p.diagnostics@.len() ==> !spec_is_fatal(
                    (#[trigger] p.diagnostics@[t]).code,
                ),
        decreases slen - p.index,
    {
        if p.source[p.index] == '<' {
            let ghost d0 = p.diagnostics@;
            match tag(&mut p) {
                Ok(_) => {
                    proof {
                        assert forall|t: int|
                            0 <= t < p.diagnostics@.len() implies !spec_is_fatal(
                            (#[trigger] p.diagnostics@[t]).code,
                        ) by {
                            if t >= d0.len() {
                                assert(!spec_is_fatal(p.diagnostics@[t].code));
                            }
                        }
                    }
                },
                Err(e) => {
                    return Err(e);
                },
            }
        } else {
            p.index = p.index + 1;
        }
    }
    Ok(p)
}

/// Round-trip law: when a parse returns to containing only the root node —
/// as it does for well-formed input with balanced tags — every non-root node
/// has been closed: its `end` offset is set at or past its `start` offset,
/// and strictly past it for every node but a comment, whose span holds only
/// the raw text between its delimiters and may be empty.
pub proof fn lemma_balanced_parse_all_closed(p: Parser)
    requires
        p.wf(),
        p.stack@.len() == 1,
    ensures
        forall|k: int|
            1 <= k < p.nodes@.len() ==> {
                &&& (#[trigger] p.nodes@[k]).end is Some
                &&& p.nodes@[k].end->0 >= p.nodes@[k].start
                &&& !(p.nodes@[k].kind is Comment) ==> p.nodes@[k].end->0 > p.nodes@[k].start
            },
{
    assert forall|k: int| 1 <= k < p.nodes@.len() implies {
        &&& (#[trigger] p.nodes@[k]).end is Some
        &&& p.nodes@[k].end->0 >= p.nodes@[k].start
        &&& !(p.nodes@[k].kind is Comment) ==> p.nodes@[k].end->0 > p.nodes@[k].start
    } by {
        if p.on_stack(k) {
            let j = choose|j: int| 0 <= j < p.stack@.len() && p.stack@[j] as int == k;
            assert(j == 0);
            assert(p.stack@[0] == 0usize);
        }
    }
}

} // verus!
