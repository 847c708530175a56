use vstd::prelude::*;

use crate::buffer::Line;
use crate::config::WindowSpec;
use crate::matcher::{seq_contains_idx, strictly_ascending};

verus! {

/// One line of the final output: its original index, its text, and
/// whether it is a hit (as opposed to a context line).
pub struct OutputEntry {
    pub index: usize,
    pub text: String,
    pub is_hit: bool,
}

/// Index `i` lies in the context window around the hit `h`.
pub open spec fn window_covers(h: usize, w: WindowSpec, i: int) -> bool {
    h - w.before <= i <= h + w.after
}

/// Index `i` lies in the window of at least one hit.
pub open spec fn in_some_window(hits: Seq<usize>, w: WindowSpec, i: int) -> bool {
    exists|k: int| 0 <= k < hits.len() && #[trigger] window_covers(hits[k], w, i)
}

/// The output entry that the assembler emits for buffer index `i`.
pub open spec fn entry_at(buffer: Seq<Line>, hits: Seq<usize>, i: int) -> OutputEntry {
    OutputEntry { index: i as usize, text: buffer[i].text, is_hit: seq_contains_idx(hits, i) }
}

/// The assembled output restricted to the first `n` buffer indices:
/// every index within some hit's window, in ascending order, each
/// exactly once.
pub open spec fn assemble_upto(buffer: Seq<Line>, hits: Seq<usize>, w: WindowSpec, n: int) -> Seq<
    OutputEntry,
>
    decreases n,
{
    if n <= 0 {
        Seq::empty()
    } else {
        assemble_upto(buffer, hits, w, n - 1) + if in_some_window(hits, w, n - 1) {
            seq![entry_at(buffer, hits, n - 1)]
        } else {
            Seq::empty()
        }
    }
}

/// The assembled output over the whole buffer.
pub open spec fn assemble_spec(buffer: Seq<Line>, hits: Seq<usize>, w: WindowSpec) -> Seq<
    OutputEntry,
> {
    assemble_upto(buffer, hits, w, buffer.len() as int)
}

/// Entry indices are strictly ascending, so no index appears twice.
pub open spec fn entries_ascending(out: Seq<OutputEntry>) -> bool {
    forall|k1: int, k2: int| 0 <= k1 < k2 < out.len() ==> out[k1].index < out[k2].index
}

/// One output entry is well-formed: in bounds, carrying the buffer's
/// text for its index, flagged as hit exactly when its index is a hit,
/// and lying in some hit's window.
pub open spec fn entry_ok(
    buffer: Seq<Line>,
    hits: Seq<usize>,
    w: WindowSpec,
    e: OutputEntry,
) -> bool {
    &&& e.index < buffer.len()
    &&& e.text == buffer[e.index as int].text
    &&& e.is_hit == seq_contains_idx(hits, e.index as int)
    &&& in_some_window(hits, w, e.index as int)
}

/// Some entry of the output carries buffer index `i`.
pub open spec fn out_has_index(out: Seq<OutputEntry>, i: int) -> bool {
    exists|k: int| 0 <= k < out.len() && #[trigger] out[k].index == i
}

/// The full assembler contract: the output is strictly ascending by
/// index, every entry is well-formed, and every in-window buffer index
/// is present.
pub open spec fn assembled_correctly(
    buffer: Seq<Line>,
    hits: Seq<usize>,
    w: WindowSpec,
    out: Seq<OutputEntry>,
) -> bool {
    &&& entries_ascending(out)
    &&& forall|k: int| 0 <= k < out.len() ==> entry_ok(buffer, hits, w, #[trigger] out[k])
    &&& forall|i: int|
        0 <= i < buffer.len() && #[trigger] in_some_window(hits, w, i) ==> out_has_index(out, i)
}

/// The assembled output satisfies the assembler contract, with every
/// entry index below `n`.
pub proof fn lemma_assemble_upto_correct(
    buffer: Seq<Line>,
    hits: Seq<usize>,
    w: WindowSpec,
    n: int,
)
    requires
        n <= buffer.len(),
        n <= usize::MAX,
    ensures
        entries_ascending(assemble_upto(buffer, hits, w, n)),
        forall|k: int|
            0 <= k < assemble_upto(buffer, hits, w, n).len() ==> entry_ok(
                buffer,
                hits,
                w,
                #[trigger] assemble_upto(buffer, hits, w, n)[k],
            ) && assemble_upto(buffer, hits, w, n)[k].index < n,
        forall|i: int|
            0 <= i < n && #[trigger] in_some_window(hits, w, i) ==> out_has_index(
                assemble_upto(buffer, hits, w, n),
                i,
            ),
    decreases n,
{
    if n > 0 {
        lemma_assemble_upto_correct(buffer, hits, w, n - 1);
        let prev = assemble_upto(buffer, hits, w, n - 1);
        let cur = assemble_upto(buffer, hits, w, n);
        if in_some_window(hits, w, n - 1) {
            assert(cur == prev + seq![entry_at(buffer, hits, n - 1)]);
            assert(cur[prev.len() as int] == entry_at(buffer, hits, n - 1));
            assert(cur[prev.len() as int].index == n - 1);
            assert(out_has_index(cur, n - 1));
        } else {
            assert(cur == prev + Seq::<OutputEntry>::empty());
            assert(cur =~= prev);
        }
        assert(forall|k: int| 0 <= k < prev.len() ==> #[trigger] cur[k] == prev[k]);
        assert forall|i: int| 0 <= i < n && #[trigger] in_some_window(hits, w, i) implies
            out_has_index(cur, i) by {
            if i < n - 1 {
                assert(out_has_index(prev, i));
                let k = choose|k: int| 0 <= k < prev.len() && #[trigger] prev[k].index == i;
                assert(cur[k].index == i);
            }
        }
    }
}

/// The assembled output over the whole buffer satisfies the assembler
/// contract.
pub proof fn lemma_assemble_spec_correct(buffer: Seq<Line>, hits: Seq<usize>, w: WindowSpec)
    requires
        buffer.len() <= usize::MAX,
    ensures
        assembled_correctly(buffer, hits, w, assemble_spec(buffer, hits, w)),
{
    lemma_assemble_upto_correct(buffer, hits, w, buffer.len() as int);
}

/// Whether at least one hit's window covers index `i`.
fn covered_by_any(hits: &Vec<usize>, w: &WindowSpec, i: usize) -> (r: bool)
    ensures
        r == in_some_window(hits@, *w, i as int),
{
    let mut k: usize = 0;
    let mut found = false;
    while k < hits.len()
        invariant
            k <= hits@.len(),
            found == exists|k0: int|
                0 <= k0 < k && #[trigger] window_covers(hits@[k0], *w, i as int),
        decreases hits@.len() - k,
    {
        let h = hits[k];
        let covers = if h <= i {
            i - h <= w.after
        } else {
            h - i <= w.before
        };
        if covers {
            proof {
                assert(window_covers(hits@[k as int], *w, i as int));
            }
            found = true;
        }
        k = k + 1;
    }
    found
}

/// Whether the hit set contains index `i`.
fn hits_contain(hits: &Vec<usize>, i: usize) -> (r: bool)
    ensures
        r == seq_contains_idx(hits@, i as int),
{
    let mut k: usize = 0;
    let mut found = false;
    while k < hits.len()
        invariant
            k <= hits@.len(),
            found == exists|k0: int| 0 <= k0 < k && hits@[k0] == i,
        decreases hits@.len() - k,
    {
        if hits[k] == i {
            found = true;
        }
        k = k + 1;
    }
    found
}

/// Expands every hit into its context window over the global line
/// buffer, merges the windows, and emits each covered index exactly
/// once, in ascending order, with its text and its hit flag.
///
/// With a zero window the output is exactly the hit set; windows are
/// clipped to the buffer bounds; an empty hit set yields an empty
/// output.
pub fn assemble(buffer: &Vec<Line>, hits: &Vec<usize>, window: &WindowSpec) -> (out: Vec<
    OutputEntry,
>)
    ensures
        out@ == assemble_spec(buffer@, hits@, *window),
        assembled_correctly(buffer@, hits@, *window, out@),
{
    let total: usize = buffer.len();
    let mut out: Vec<OutputEntry> = Vec::new();
    let mut i: usize = 0;
    while i < total
        invariant
            total == buffer@.len(),
            i <= total,
            out@ == assemble_upto(buffer@, hits@, *window, i as int),
        decreases total - i,
    {
        if covered_by_any(hits, window, i) {
            let is_hit = hits_contain(hits, i);
            out.push(OutputEntry { index: i, text: buffer[i].text.clone(), is_hit });
        }
        proof {
            assert(out@ =~= assemble_upto(buffer@, hits@, *window, i + 1));
        }
        i = i + 1;
    }
    proof {
        lemma_assemble_spec_correct(buffer@, hits@, *window);
    }
    out
}

} // verus!
