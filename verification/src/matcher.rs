use vstd::prelude::*;

use crate::buffer::Line;
use crate::config::{GrepError, MatchConfig, MatchMode};

verus! {

/// The error type of the regex crate, declared so that the trusted
/// wrappers below can return it; verified code only maps it to
/// `GrepError::InvalidPattern`.
#[verifier::external_type_specification]
#[verifier::external_body]
pub struct ExRegexError(regex::Error);

/// `needle` occurs in `hay` as a contiguous run of characters.
pub open spec fn contains_substr(hay: Seq<char>, needle: Seq<char>) -> bool {
    exists|j: int|
        0 <= j && j + needle.len() <= hay.len() && #[trigger] hay.subrange(j, j + needle.len())
            == needle
}

/// The lowercased form of a character sequence, as the standard
/// library's case conversion produces it. The conversion depends on the
/// characters alone, so it can be named without being written out.
pub uninterp spec fn lower_of(s: Seq<char>) -> Seq<char>;

/// Whether a case-insensitive matching engine, built from the escaped
/// pattern text, finds a match in the line. The engine's Unicode case
/// folding depends on the two character sequences alone, so it can be
/// named without being written out.
pub uninterp spec fn ci_pattern_match(pattern: Seq<char>, line: Seq<char>) -> bool;

/// Relies on str::to_lowercase: returns the lowercase equivalent of the
/// string; the result depends on the characters alone, and an empty
/// string stays empty.
#[verifier::external_body]
fn lowercase(s: &str) -> (r: String)
    ensures
        r@ == lower_of(s@),
        s@.len() == 0 ==> r@.len() == 0,
{
    s.to_lowercase()
}

/// Relies on str::contains: returns true if and only if the pattern
/// occurs as a substring of the string.
#[verifier::external_body]
fn str_contains(line: &str, pattern: &str) -> (r: bool)
    ensures
        r == contains_substr(line@, pattern@),
{
    line.contains(pattern)
}

/// Relies on regex::escape ("the string returned may be safely used as
/// a literal in a regular expression"), regex::Regex::new, and
/// regex::Regex::is_match ("true if and only if there is a match for
/// the regex anywhere in the haystack"): a regex built from the escaped
/// pattern matches a haystack exactly where the pattern text occurs as
/// a substring.
#[verifier::external_body]
fn regex_literal_match(pattern: &str, line: &str) -> (r: Result<bool, regex::Error>)
    ensures
        r matches Ok(b) ==> b == contains_substr(line@, pattern@),
{
    match regex::Regex::new(&regex::escape(pattern)) {
        Ok(re) => Ok(re.is_match(line)),
        Err(e) => Err(e),
    }
}

/// Relies on regex::escape, regex::Regex::new and regex::Regex::is_match
/// as `regex_literal_match` does, with the engine's case-insensitive
/// flag prepended: whether such an engine matches depends on the pattern
/// and line characters alone, so the outcome is the named predicate
/// `ci_pattern_match`.
#[verifier::external_body]
fn regex_ci_match(pattern: &str, line: &str) -> (r: Result<bool, regex::Error>)
    ensures
        r matches Ok(b) ==> b == ci_pattern_match(pattern@, line@),
{
    match regex::Regex::new(&format!("(?i){}", regex::escape(pattern))) {
        Ok(re) => Ok(re.is_match(line)),
        Err(e) => Err(e),
    }
}

/// Whether the match predicate, before inversion, accepts the line text.
pub open spec fn raw_match(text: Seq<char>, config: MatchConfig) -> bool {
    match config.mode {
        MatchMode::Literal => if config.case_insensitive {
            contains_substr(lower_of(text), lower_of(config.pattern@))
        } else {
            contains_substr(text, config.pattern@)
        },
        MatchMode::Pattern => if config.case_insensitive {
            ci_pattern_match(config.pattern@, text)
        } else {
            contains_substr(text, config.pattern@)
        },
    }
}

/// Whether the line counts as a hit: the match predicate's verdict,
/// negated when inversion is requested.
pub open spec fn line_is_hit(text: Seq<char>, config: MatchConfig) -> bool {
    if config.invert {
        !raw_match(text, config)
    } else {
        raw_match(text, config)
    }
}

/// Decides whether one line is a hit under the given configuration.
///
/// Literal mode always succeeds; pattern mode fails with
/// `InvalidPattern` exactly when the matching engine rejects the
/// escaped pattern, and that failure aborts the whole operation.
pub fn classify(line: &Line, config: &MatchConfig) -> (r: Result<bool, GrepError>)
    ensures
        r matches Ok(b) ==> b == line_is_hit(line.text@, *config),
        r is Err ==> r == Err::<bool, GrepError>(GrepError::InvalidPattern)
            && config.mode is Pattern,
        config.mode is Literal ==> r is Ok,
{
    let matched: bool = match config.mode {
        MatchMode::Literal => {
            if config.case_insensitive {
                let folded_line = lowercase(line.text.as_str());
                let folded_pattern = lowercase(config.pattern.as_str());
                str_contains(folded_line.as_str(), folded_pattern.as_str())
            } else {
                str_contains(line.text.as_str(), config.pattern.as_str())
            }
        },
        MatchMode::Pattern => {
            let outcome = if config.case_insensitive {
                regex_ci_match(config.pattern.as_str(), line.text.as_str())
            } else {
                regex_literal_match(config.pattern.as_str(), line.text.as_str())
            };
            match outcome {
                Ok(b) => b,
                Err(_) => {
                    return Err(GrepError::InvalidPattern);
                },
            }
        },
    };
    if config.invert {
        Ok(!matched)
    } else {
        Ok(matched)
    }
}

/// A sequence of indices is strictly ascending: later entries are
/// strictly larger.
pub open spec fn strictly_ascending(s: Seq<usize>) -> bool {
    forall|k1: int, k2: int| 0 <= k1 < k2 < s.len() ==> s[k1] < s[k2]
}

/// The index `i` occurs in the sequence.
pub open spec fn seq_contains_idx(s: Seq<usize>, i: int) -> bool {
    exists|k: int| 0 <= k < s.len() && s[k] == i
}

/// The hit indices among the first `n` lines of the buffer, in
/// ascending order.
pub open spec fn hits_upto(buffer: Seq<Line>, config: MatchConfig, n: int) -> Seq<usize>
    decreases n,
{
    if n <= 0 {
        Seq::empty()
    } else {
        hits_upto(buffer, config, n - 1) + if line_is_hit(buffer[n - 1].text@, config) {
            seq![(n - 1) as usize]
        } else {
            Seq::empty()
        }
    }
}

/// The hit set of the whole buffer: exactly the indices whose lines the
/// matcher classifies as hits, in ascending order.
pub open spec fn hit_indices(buffer: Seq<Line>, config: MatchConfig) -> Seq<usize> {
    hits_upto(buffer, config, buffer.len() as int)
}

/// The hit-set invariant: `hits_upto` is strictly ascending, stays
/// below `n`, and holds exactly the indices of lines classified as
/// hits.
pub proof fn lemma_hits_upto_wf(buffer: Seq<Line>, config: MatchConfig, n: int)
    requires
        n <= buffer.len(),
        n <= usize::MAX,
    ensures
        strictly_ascending(hits_upto(buffer, config, n)),
        forall|k: int|
            0 <= k < hits_upto(buffer, config, n).len()
                ==> #[trigger] hits_upto(buffer, config, n)[k] < n,
        forall|i: int|
            #[trigger] seq_contains_idx(hits_upto(buffer, config, n), i)
                <==> (0 <= i < n && line_is_hit(buffer[i].text@, config)),
    decreases n,
{
    if n > 0 {
        lemma_hits_upto_wf(buffer, config, n - 1);
        let prev = hits_upto(buffer, config, n - 1);
        let cur = hits_upto(buffer, config, n);
        if line_is_hit(buffer[n - 1].text@, config) {
            assert(cur == prev + seq![(n - 1) as usize]);
            assert(cur[prev.len() as int] == n - 1);
            assert(seq_contains_idx(cur, n - 1));
        }
        assert forall|i: int| seq_contains_idx(cur, i) implies (0 <= i < n && line_is_hit(
            buffer[i].text@,
            config,
        )) by {
            let k = choose|k: int| 0 <= k < cur.len() && cur[k] == i;
            if k < prev.len() {
                assert(seq_contains_idx(prev, i));
            }
        }
        assert forall|i: int| 0 <= i < n && line_is_hit(buffer[i].text@, config) implies
            seq_contains_idx(cur, i) by {
            if i < n - 1 {
                assert(seq_contains_idx(prev, i));
                let k = choose|k: int| 0 <= k < prev.len() && prev[k] == i;
                assert(cur[k] == i);
            }
        }
    }
}

/// The hit-set invariant, stated for the whole buffer.
pub proof fn lemma_hit_indices_wf(buffer: Seq<Line>, config: MatchConfig)
    requires
        buffer.len() <= usize::MAX,
    ensures
        strictly_ascending(hit_indices(buffer, config)),
        forall|k: int|
            0 <= k < hit_indices(buffer, config).len()
                ==> #[trigger] hit_indices(buffer, config)[k] < buffer.len(),
        forall|i: int|
            #[trigger] seq_contains_idx(hit_indices(buffer, config), i)
                <==> (0 <= i < buffer.len() && line_is_hit(buffer[i].text@, config)),
{
    lemma_hits_upto_wf(buffer, config, buffer.len() as int);
}

/// Applies the matcher to every line of the buffer and returns the hit
/// set: exactly the indices of the lines classified as hits, strictly
/// ascending. Fails with `InvalidPattern` only in pattern mode, when
/// the matching engine rejects the pattern; no partial result is
/// returned then.
pub fn find_hits(buffer: &Vec<Line>, config: &MatchConfig) -> (r: Result<Vec<usize>, GrepError>)
    ensures
        r matches Ok(h) ==> h@ == hit_indices(buffer@, *config),
        r is Err ==> r == Err::<Vec<usize>, GrepError>(GrepError::InvalidPattern)
            && config.mode is Pattern,
        config.mode is Literal ==> r is Ok,
{
    let mut hits: Vec<usize> = Vec::new();
    let mut i: usize = 0;
    while i < buffer.len()
        invariant
            i <= buffer@.len(),
            hits@ == hits_upto(buffer@, *config, i as int),
        decreases buffer@.len() - i,
    {
        match classify(&buffer[i], config) {
            Ok(b) => {
                if b {
                    hits.push(i);
                }
                proof {
                    assert(hits@ =~= hits_upto(buffer@, *config, i + 1));
                }
            },
            Err(e) => {
                return Err(e);
            },
        }
        i = i + 1;
    }
    Ok(hits)
}

/// Law: the matcher is idempotent. Any two classification verdicts for
/// the same line text and configuration are the same boolean, since the
/// verdict is a function of the line and the configuration alone.
pub proof fn lemma_classify_idempotent(text: Seq<char>, config: MatchConfig, b1: bool, b2: bool)
    requires
        b1 == line_is_hit(text, config),
        b2 == line_is_hit(text, config),
    ensures
        b1 == b2,
{
}

/// Law: inversion duality. For any line text, classification under an
/// inverted configuration is the negation of classification under the
/// same configuration without inversion.
pub proof fn lemma_inversion_duality(text: Seq<char>, plain: MatchConfig, inverted: MatchConfig)
    requires
        !plain.invert,
        inverted.invert,
        inverted.pattern@ == plain.pattern@,
        inverted.mode == plain.mode,
        inverted.case_insensitive == plain.case_insensitive,
    ensures
        line_is_hit(text, inverted) == !line_is_hit(text, plain),
{
    assert(raw_match(text, inverted) == raw_match(text, plain));
}

} // verus!
