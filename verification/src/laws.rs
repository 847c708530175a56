use vstd::prelude::*;

use crate::assemble::{
    assemble_spec, entries_ascending, entry_ok, in_some_window, lemma_assemble_spec_correct,
    out_has_index, window_covers, OutputEntry,
};
use crate::buffer::Line;
use crate::config::WindowSpec;
use crate::matcher::{seq_contains_idx, strictly_ascending};

verus! {

/// Filtering keeps a sequence unchanged when the predicate holds of
/// every element.
pub proof fn lemma_filter_all_true<A>(s: Seq<A>, pred: spec_fn(A) -> bool)
    requires
        forall|k: int| 0 <= k < s.len() ==> pred(#[trigger] s[k]),
    ensures
        s.filter(pred) == s,
    decreases s.len(),
{
    reveal(Seq::filter);
    if s.len() == 0 {
        assert(s.filter(pred) =~= s);
    } else {
        let head = s.drop_last();
        assert(forall|k: int| 0 <= k < head.len() ==> #[trigger] head[k] == s[k]);
        lemma_filter_all_true(head, pred);
        assert(pred(s[s.len() - 1]));
        assert(s.filter(pred) =~= s);
    }
}

/// Two strictly ascending index sequences with the same members are the
/// same sequence.
pub proof fn lemma_ascending_same_members_equal(a: Seq<usize>, b: Seq<usize>)
    requires
        strictly_ascending(a),
        strictly_ascending(b),
        forall|i: int|
            #![trigger seq_contains_idx(a, i)]
            #![trigger seq_contains_idx(b, i)]
            seq_contains_idx(a, i) <==> seq_contains_idx(b, i),
    ensures
        a == b,
    decreases a.len(),
{
    if a.len() == 0 {
        if b.len() > 0 {
            assert(seq_contains_idx(b, b[0] as int));
            assert(false);
        }
        assert(a =~= b);
    } else if b.len() == 0 {
        assert(seq_contains_idx(a, a[0] as int));
        assert(false);
    } else {
        assert(seq_contains_idx(a, a[0] as int));
        let kb = choose|k: int| 0 <= k < b.len() && b[k] == a[0] as int;
        assert(b[0] <= b[kb]);
        assert(seq_contains_idx(b, b[0] as int));
        let ka = choose|k: int| 0 <= k < a.len() && a[k] == b[0] as int;
        assert(a[0] <= a[ka]);
        assert(a[0] == b[0]);
        let a1 = a.subrange(1, a.len() as int);
        let b1 = b.subrange(1, b.len() as int);
        assert forall|i: int| #[trigger] seq_contains_idx(a1, i) implies seq_contains_idx(
            b1,
            i,
        ) by {
            let k = choose|k: int| 0 <= k < a1.len() && a1[k] == i;
            assert(a[k + 1] == i);
            assert(a[0] < a[k + 1]);
            assert(seq_contains_idx(a, i));
            let k2 = choose|k2: int| 0 <= k2 < b.len() && b[k2] == i;
            assert(k2 != 0);
            assert(b1[k2 - 1] == i);
        }
        assert forall|i: int| #[trigger] seq_contains_idx(b1, i) implies seq_contains_idx(
            a1,
            i,
        ) by {
            let k = choose|k: int| 0 <= k < b1.len() && b1[k] == i;
            assert(b[k + 1] == i);
            assert(b[0] < b[k + 1]);
            assert(seq_contains_idx(b, i));
            let k2 = choose|k2: int| 0 <= k2 < a.len() && a[k2] == i;
            assert(k2 != 0);
            assert(a1[k2 - 1] == i);
        }
        lemma_ascending_same_members_equal(a1, b1);
        assert forall|k: int| 0 <= k < a.len() implies a[k] == b[k] by {
            if k > 0 {
                assert(a1[k - 1] == a[k]);
                assert(b1[k - 1] == b[k]);
            }
        }
        assert(a =~= b);
    }
}

/// Law: window monotonicity. Widening the context window on either
/// side never loses an output index: every index the assembler emits
/// under the narrower window it also emits under the wider one.
pub proof fn lemma_window_monotonic(
    buffer: Seq<Line>,
    hits: Seq<usize>,
    narrow: WindowSpec,
    wide: WindowSpec,
)
    requires
        narrow.before <= wide.before,
        narrow.after <= wide.after,
        buffer.len() <= usize::MAX,
    ensures
        forall|i: int|
            #[trigger] out_has_index(assemble_spec(buffer, hits, narrow), i) ==> out_has_index(
                assemble_spec(buffer, hits, wide),
                i,
            ),
{
    lemma_assemble_spec_correct(buffer, hits, narrow);
    lemma_assemble_spec_correct(buffer, hits, wide);
    let out1 = assemble_spec(buffer, hits, narrow);
    assert forall|i: int| #[trigger] out_has_index(out1, i) implies out_has_index(
        assemble_spec(buffer, hits, wide),
        i,
    ) by {
        let k = choose|k: int| 0 <= k < out1.len() && #[trigger] out1[k].index == i;
        assert(entry_ok(buffer, hits, narrow, out1[k]));
        let j = choose|j: int|
            0 <= j < hits.len() && #[trigger] window_covers(hits[j], narrow, i);
        assert(window_covers(hits[j], wide, i));
        assert(in_some_window(hits, wide, i));
    }
}

/// Law: no duplication. The assembler's output carries each buffer
/// index at most once.
pub proof fn lemma_no_duplication(buffer: Seq<Line>, hits: Seq<usize>, w: WindowSpec)
    requires
        buffer.len() <= usize::MAX,
    ensures
        forall|k1: int, k2: int|
            0 <= k1 < assemble_spec(buffer, hits, w).len() && 0 <= k2 < assemble_spec(
                buffer,
                hits,
                w,
            ).len() && k1 != k2 ==> #[trigger] assemble_spec(buffer, hits, w)[k1].index
                != #[trigger] assemble_spec(buffer, hits, w)[k2].index,
{
    lemma_assemble_spec_correct(buffer, hits, w);
    let out = assemble_spec(buffer, hits, w);
    assert forall|k1: int, k2: int|
        0 <= k1 < out.len() && 0 <= k2 < out.len() && k1 != k2 implies #[trigger] out[k1].index
        != #[trigger] out[k2].index by {
        if k1 < k2 {
            assert(out[k1].index < out[k2].index);
        } else {
            assert(out[k2].index < out[k1].index);
        }
    }
}

/// Law: ordering. The assembler's output is strictly ascending by
/// index, whatever the inputs.
pub proof fn lemma_output_ordering(buffer: Seq<Line>, hits: Seq<usize>, w: WindowSpec)
    requires
        buffer.len() <= usize::MAX,
    ensures
        entries_ascending(assemble_spec(buffer, hits, w)),
{
    lemma_assemble_spec_correct(buffer, hits, w);
}

/// The indices carried by a sequence of output entries.
pub open spec fn indices_of(out: Seq<OutputEntry>) -> Seq<usize> {
    out.map_values(|e: OutputEntry| e.index)
}

/// An empty hit set yields an empty output, whatever the window.
pub proof fn lemma_empty_hits_empty_output(buffer: Seq<Line>, w: WindowSpec)
    requires
        buffer.len() <= usize::MAX,
    ensures
        assemble_spec(buffer, Seq::empty(), w).len() == 0,
{
    lemma_assemble_upto_empty(buffer, w, buffer.len() as int);
}

proof fn lemma_assemble_upto_empty(buffer: Seq<Line>, w: WindowSpec, n: int)
    ensures
        crate::assemble::assemble_upto(buffer, Seq::empty(), w, n).len() == 0,
    decreases n,
{
    if n > 0 {
        lemma_assemble_upto_empty(buffer, w, n - 1);
        assert(!in_some_window(Seq::empty(), w, n - 1));
    }
}

/// Under a zero window the assembler emits exactly the hit set: the
/// indices of its output are the hit indices themselves.
pub proof fn lemma_zero_window_exact_hits(buffer: Seq<Line>, hits: Seq<usize>, w: WindowSpec)
    requires
        w.before == 0,
        w.after == 0,
        strictly_ascending(hits),
        forall|k: int| 0 <= k < hits.len() ==> #[trigger] hits[k] < buffer.len(),
        buffer.len() <= usize::MAX,
    ensures
        indices_of(assemble_spec(buffer, hits, w)) == hits,
        forall|k: int|
            0 <= k < assemble_spec(buffer, hits, w).len() ==> (#[trigger] assemble_spec(
                buffer,
                hits,
                w,
            )[k]).is_hit,
{
    lemma_assemble_spec_correct(buffer, hits, w);
    let out = assemble_spec(buffer, hits, w);
    assert forall|i: int| #[trigger] in_some_window(hits, w, i) implies seq_contains_idx(
        hits,
        i,
    ) by {
        let k = choose|k: int| 0 <= k < hits.len() && #[trigger] window_covers(hits[k], w, i);
        assert(hits[k] == i);
    }
    assert forall|i: int| #[trigger] seq_contains_idx(hits, i) implies in_some_window(
        hits,
        w,
        i,
    ) by {
        let k = choose|k: int| 0 <= k < hits.len() && hits[k] == i;
        assert(window_covers(hits[k], w, i));
    }
    assert forall|k: int| 0 <= k < out.len() implies (#[trigger] out[k]).is_hit by {
        assert(entry_ok(buffer, hits, w, out[k]));
    }
    let idx = indices_of(out);
    assert forall|i: int| #[trigger] seq_contains_idx(idx, i) implies seq_contains_idx(
        hits,
        i,
    ) by {
        let k = choose|k: int| 0 <= k < idx.len() && idx[k] == i;
        assert(out[k].index == i);
        assert(entry_ok(buffer, hits, w, out[k]));
    }
    assert forall|i: int| #[trigger] seq_contains_idx(hits, i) implies seq_contains_idx(
        idx,
        i,
    ) by {
        let k = choose|k: int| 0 <= k < hits.len() && hits[k] == i;
        assert(hits[k] < buffer.len());
        assert(in_some_window(hits, w, i));
        assert(out_has_index(out, i));
        let k2 = choose|k2: int| 0 <= k2 < out.len() && #[trigger] out[k2].index == i;
        assert(idx[k2] == i);
    }
    assert forall|k1: int, k2: int| 0 <= k1 < k2 < idx.len() implies idx[k1] < idx[k2] by {
        assert(out[k1].index < out[k2].index);
    }
    lemma_ascending_same_members_equal(idx, hits);
}

/// Law: count consistency. Under a zero window the assembler emits
/// exactly the hit lines, so the number of hit-flagged entries in its
/// output equals the hit count that counting mode reports.
pub proof fn lemma_count_consistency(buffer: Seq<Line>, hits: Seq<usize>, w: WindowSpec)
    requires
        w.before == 0,
        w.after == 0,
        strictly_ascending(hits),
        forall|k: int| 0 <= k < hits.len() ==> #[trigger] hits[k] < buffer.len(),
        buffer.len() <= usize::MAX,
    ensures
        assemble_spec(buffer, hits, w).filter(|e: OutputEntry| e.is_hit).len() == hits.len(),
{
    lemma_zero_window_exact_hits(buffer, hits, w);
    let out = assemble_spec(buffer, hits, w);
    lemma_filter_all_true(out, |e: OutputEntry| e.is_hit);
    assert(indices_of(out).len() == out.len());
}

} // verus!
