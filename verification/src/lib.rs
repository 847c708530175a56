pub mod assemble;
pub mod buffer;
pub mod config;
pub mod laws;
pub mod matcher;
pub mod render;

use vstd::prelude::*;

use crate::assemble::{assemble, assemble_spec, assembled_correctly, entry_ok, OutputEntry};
use crate::buffer::Line;
use crate::config::{GrepError, MatchConfig, WindowSpec};
use crate::matcher::{find_hits, hit_indices};
use crate::render::{dec_str, render, render_spec, usize_to_string};

verus! {

/// What one full run prints, line by line: in counting mode the hit
/// count alone; otherwise the assembled output, each entry rendered
/// with or without its line number.
pub open spec fn output_spec(
    buffer: Seq<Line>,
    config: MatchConfig,
    w: WindowSpec,
    count: bool,
    number: bool,
) -> Seq<Seq<char>> {
    let hits = hit_indices(buffer, config);
    if count {
        seq![dec_str(hits.len() as int)]
    } else {
        assemble_spec(buffer, hits, w).map_values(|e: OutputEntry| render_spec(e, number))
    }
}

/// The whole pipeline over an ingested line buffer: match every line,
/// then either report the hit count (counting mode short-circuits the
/// assembler, and the window is ignored) or assemble and render the
/// ordered, duplicate-free output. Either the full result is returned
/// or, when the matching engine rejects the pattern, nothing but the
/// error.
pub fn run(
    buffer: &Vec<Line>,
    config: &MatchConfig,
    window: &WindowSpec,
    count: bool,
    number: bool,
) -> (r: Result<Vec<String>, GrepError>)
    ensures
        r matches Ok(lines) ==> lines@.map_values(|s: String| s@) == output_spec(
            buffer@,
            *config,
            *window,
            count,
            number,
        ),
        r is Err ==> r == Err::<Vec<String>, GrepError>(GrepError::InvalidPattern)
            && config.mode is Pattern,
        config.mode is Literal ==> r is Ok,
{
    let total: usize = buffer.len();
    let hits = match find_hits(buffer, config) {
        Ok(h) => h,
        Err(e) => {
            return Err(e);
        },
    };
    if count {
        let mut lines: Vec<String> = Vec::new();
        lines.push(usize_to_string(hits.len()));
        proof {
            assert(lines@.map_values(|s: String| s@) =~= output_spec(
                buffer@,
                *config,
                *window,
                count,
                number,
            ));
        }
        Ok(lines)
    } else {
        let entries = assemble(buffer, &hits, window);
        let mut lines: Vec<String> = Vec::new();
        let mut i: usize = 0;
        while i < entries.len()
            invariant
                total == buffer@.len(),
                i <= entries@.len(),
                lines@.len() == i,
                assembled_correctly(buffer@, hits@, *window, entries@),
                forall|j: int|
                    0 <= j < i ==> #[trigger] lines@[j]@ == render_spec(entries@[j], number),
            decreases entries@.len() - i,
        {
            proof {
                assert(entry_ok(buffer@, hits@, *window, entries@[i as int]));
            }
            lines.push(render(&entries[i], number));
            i = i + 1;
        }
        proof {
            assert(lines@.map_values(|s: String| s@) =~= entries@.map_values(
                |e: OutputEntry| render_spec(e, number),
            ));
        }
        Ok(lines)
    }
}

} // verus!
