use vstd::prelude::*;

verus! {

/// How the pattern of a `MatchConfig` is interpreted.
///
/// Under `Literal` the pattern is matched as a raw substring. Under
/// `Pattern` it is handed to a matching engine after escaping, so it
/// behaves as substring search as well; the two variants are kept apart
/// so that an extension to real pattern syntax only touches the
/// `Pattern` branch.
#[derive(Clone, Copy, PartialEq, Eq, Structural, Debug)]
pub enum MatchMode {
    Literal,
    Pattern,
}

/// Immutable matching rules, built once from validated inputs and then
/// passed by reference into the matcher; nothing mutates it during a run.
pub struct MatchConfig {
    pub pattern: String,
    pub mode: MatchMode,
    pub case_insensitive: bool,
    pub invert: bool,
}

/// Context window around each hit: how many lines before and after a
/// hit are emitted as context.
#[derive(Clone, Copy, PartialEq, Eq, Structural, Debug)]
pub struct WindowSpec {
    pub before: usize,
    pub after: usize,
}

/// The fatal error kinds of a run.
#[derive(Clone, Copy, PartialEq, Eq, Structural, Debug)]
pub enum GrepError {
    /// The input source cannot be opened or read.
    SourceUnavailable,
    /// The pattern cannot be compiled into a matching engine.
    InvalidPattern,
    /// A line of the source cannot be decoded as valid text.
    MalformedLine,
}

impl GrepError {
    /// The message that describes this error kind.
    pub open spec fn message_spec(self) -> Seq<char> {
        match self {
            GrepError::SourceUnavailable => "source unavailable"@,
            GrepError::InvalidPattern => "invalid pattern"@,
            GrepError::MalformedLine => "malformed line"@,
        }
    }

    /// Renders the error as human-readable text.
    pub fn message(&self) -> (r: String)
        ensures
            r@ == self.message_spec(),
    {
        match self {
            GrepError::SourceUnavailable => "source unavailable".to_owned(),
            GrepError::InvalidPattern => "invalid pattern".to_owned(),
            GrepError::MalformedLine => "malformed line".to_owned(),
        }
    }
}

/// Derives the context window from the separate before/after counts and
/// the combined context count. A set combined count overrides both
/// sides; this is the one documented precedence policy.
pub fn window_from_flags(before: usize, after: usize, context: Option<usize>) -> (w: WindowSpec)
    ensures
        context matches Some(n) ==> w.before == n && w.after == n,
        context is None ==> w.before == before && w.after == after,
{
    match context {
        Some(n) => WindowSpec { before: n, after: n },
        None => WindowSpec { before, after },
    }
}

} // verus!
