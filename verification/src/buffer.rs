use vstd::prelude::*;

verus! {

/// One line of the source: its 0-based position in the source and its
/// text. Created once at ingestion and never mutated.
pub struct Line {
    pub index: usize,
    pub text: String,
}

/// The line-buffer invariant: every line records the position at which
/// it sits in the buffer.
pub open spec fn buffer_wf(buffer: Seq<Line>) -> bool {
    forall|i: int| 0 <= i < buffer.len() ==> #[trigger] buffer[i].index == i
}

/// Ingests raw line texts into an indexed line buffer, establishing the
/// buffer invariant: `buf[i].index == i` and the texts are kept as given.
pub fn make_buffer(texts: &Vec<String>) -> (buf: Vec<Line>)
    ensures
        buf@.len() == texts@.len(),
        forall|i: int| 0 <= i < buf@.len() ==> #[trigger] buf@[i].text@ == texts@[i]@,
        buffer_wf(buf@),
{
    let mut buf: Vec<Line> = Vec::new();
    let mut i: usize = 0;
    while i < texts.len()
        invariant
            i <= texts@.len(),
            buf@.len() == i,
            forall|j: int| 0 <= j < i ==> #[trigger] buf@[j].text@ == texts@[j]@,
            forall|j: int| 0 <= j < i ==> #[trigger] buf@[j].index == j,
        decreases texts@.len() - i,
    {
        buf.push(Line { index: i, text: texts[i].clone() });
        i = i + 1;
    }
    buf
}

} // verus!
