use linegrep::assemble::{assemble, OutputEntry};
use linegrep::buffer::{make_buffer, Line};
use linegrep::config::{window_from_flags, GrepError, MatchConfig, MatchMode, WindowSpec};
use linegrep::matcher::{classify, find_hits};
use linegrep::render::{render, usize_to_string};
use linegrep::run;

fn buffer_of(texts: &[&str]) -> Vec<Line> {
    let owned: Vec<String> = texts.iter().map(|t| t.to_string()).collect();
    make_buffer(&owned)
}

fn config(pattern: &str, mode: MatchMode, case_insensitive: bool, invert: bool) -> MatchConfig {
    MatchConfig { pattern: pattern.to_string(), mode, case_insensitive, invert }
}

fn indices(entries: &[OutputEntry]) -> Vec<usize> {
    entries.iter().map(|e| e.index).collect()
}

#[test]
fn scenario_literal_default() {
    let buf = buffer_of(&["apple", "Banana", "cherry"]);
    let cfg = config("an", MatchMode::Pattern, false, false);
    let hits = find_hits(&buf, &cfg).unwrap();
    assert_eq!(hits, vec![1]);
    let out = run(&buf, &cfg, &WindowSpec { before: 0, after: 0 }, false, false).unwrap();
    assert_eq!(out, vec!["Banana".to_string()]);
}

#[test]
fn scenario_fixed_mode() {
    let buf = buffer_of(&["apple", "Banana", "cherry"]);
    let cfg = config("an", MatchMode::Literal, false, false);
    let hits = find_hits(&buf, &cfg).unwrap();
    assert_eq!(hits, vec![1]);
}

#[test]
fn scenario_case_insensitive_pattern() {
    let buf = buffer_of(&["apple", "Banana", "cherry"]);
    let cfg = config("AN", MatchMode::Pattern, true, false);
    let hits = find_hits(&buf, &cfg).unwrap();
    assert_eq!(hits, vec![1]);
    let lower = config("an", MatchMode::Pattern, true, false);
    assert_eq!(find_hits(&buf, &lower).unwrap(), vec![1]);
}

#[test]
fn scenario_case_insensitive_literal() {
    let buf = buffer_of(&["apple", "Banana", "cherry"]);
    let cfg = config("AN", MatchMode::Literal, true, false);
    let hits = find_hits(&buf, &cfg).unwrap();
    assert_eq!(hits, vec![1]);
    // Without folding the same pattern misses.
    let exact = config("AN", MatchMode::Literal, false, false);
    assert_eq!(find_hits(&buf, &exact).unwrap(), Vec::<usize>::new());
}

#[test]
fn scenario_context_window() {
    let buf = buffer_of(&["a", "b", "c", "d", "e"]);
    let cfg = config("c", MatchMode::Pattern, false, false);
    let hits = find_hits(&buf, &cfg).unwrap();
    assert_eq!(hits, vec![2]);
    let entries = assemble(&buf, &hits, &WindowSpec { before: 1, after: 1 });
    assert_eq!(indices(&entries), vec![1, 2, 3]);
    let texts: Vec<&str> = entries.iter().map(|e| e.text.as_str()).collect();
    assert_eq!(texts, vec!["b", "c", "d"]);
    let hit_flags: Vec<bool> = entries.iter().map(|e| e.is_hit).collect();
    assert_eq!(hit_flags, vec![false, true, false]);
}

#[test]
fn scenario_invert() {
    let buf = buffer_of(&["a", "b", "c"]);
    let cfg = config("z", MatchMode::Pattern, false, true);
    let hits = find_hits(&buf, &cfg).unwrap();
    assert_eq!(hits, vec![0, 1, 2]);
}

#[test]
fn scenario_count() {
    let buf = buffer_of(&["x", "y"]);
    let cfg = config("x", MatchMode::Pattern, false, false);
    let out = run(&buf, &cfg, &WindowSpec { before: 0, after: 0 }, true, false).unwrap();
    assert_eq!(out, vec!["1".to_string()]);
}

#[test]
fn scenario_adjacent_windows_merge() {
    let buf = buffer_of(&["l0", "l1", "hit a", "l3", "hit b", "l5", "l6"]);
    let cfg = config("hit", MatchMode::Pattern, false, false);
    let hits = find_hits(&buf, &cfg).unwrap();
    assert_eq!(hits, vec![2, 4]);
    let entries = assemble(&buf, &hits, &WindowSpec { before: 1, after: 2 });
    assert_eq!(indices(&entries), vec![1, 2, 3, 4, 5, 6]);
    let hit_flags: Vec<bool> = entries.iter().map(|e| e.is_hit).collect();
    assert_eq!(hit_flags, vec![false, true, false, true, false, false]);
}

#[test]
fn windows_clip_at_buffer_edges() {
    let buf = buffer_of(&["edge", "x", "edge"]);
    let cfg = config("edge", MatchMode::Pattern, false, false);
    let hits = find_hits(&buf, &cfg).unwrap();
    assert_eq!(hits, vec![0, 2]);
    let entries = assemble(&buf, &hits, &WindowSpec { before: 5, after: 5 });
    assert_eq!(indices(&entries), vec![0, 1, 2]);
}

#[test]
fn classification_is_idempotent() {
    let buf = buffer_of(&["Banana"]);
    let cfg = config("an", MatchMode::Pattern, false, false);
    let first = classify(&buf[0], &cfg).unwrap();
    let second = classify(&buf[0], &cfg).unwrap();
    assert_eq!(first, second);
    assert!(first);
}

#[test]
fn inversion_duality_concrete() {
    let buf = buffer_of(&["apple", "Banana"]);
    for line in &buf {
        for mode in [MatchMode::Literal, MatchMode::Pattern] {
            let plain = config("an", mode, false, false);
            let inverted = config("an", mode, false, true);
            assert_eq!(
                classify(line, &inverted).unwrap(),
                !classify(line, &plain).unwrap()
            );
        }
    }
}

#[test]
fn window_monotonicity_concrete() {
    let buf = buffer_of(&["a", "b", "c", "d", "e"]);
    let cfg = config("c", MatchMode::Pattern, false, false);
    let hits = find_hits(&buf, &cfg).unwrap();
    let narrow = assemble(&buf, &hits, &WindowSpec { before: 0, after: 0 });
    let wide = assemble(&buf, &hits, &WindowSpec { before: 1, after: 2 });
    let wide_indices = indices(&wide);
    for e in &narrow {
        assert!(wide_indices.contains(&e.index));
    }
}

#[test]
fn output_has_no_duplicates_and_is_sorted() {
    let buf = buffer_of(&["m", "m", "x", "m", "m"]);
    let cfg = config("m", MatchMode::Pattern, false, false);
    let hits = find_hits(&buf, &cfg).unwrap();
    let entries = assemble(&buf, &hits, &WindowSpec { before: 2, after: 2 });
    let idx = indices(&entries);
    for w in idx.windows(2) {
        assert!(w[0] < w[1]);
    }
    assert_eq!(idx, vec![0, 1, 2, 3, 4]);
}

#[test]
fn count_matches_zero_window_hits() {
    let buf = buffer_of(&["ab", "cd", "ab", "ef"]);
    let cfg = config("ab", MatchMode::Pattern, false, false);
    let hits = find_hits(&buf, &cfg).unwrap();
    let entries = assemble(&buf, &hits, &WindowSpec { before: 0, after: 0 });
    let hit_count = entries.iter().filter(|e| e.is_hit).count();
    assert_eq!(hit_count, hits.len());
    let counted = run(&buf, &cfg, &WindowSpec { before: 0, after: 0 }, true, false).unwrap();
    assert_eq!(counted, vec![hit_count.to_string()]);
}

#[test]
fn empty_hit_set_yields_empty_output() {
    let buf = buffer_of(&["a", "b"]);
    let cfg = config("zzz", MatchMode::Pattern, false, false);
    let out = run(&buf, &cfg, &WindowSpec { before: 3, after: 3 }, false, false).unwrap();
    assert!(out.is_empty());
}

#[test]
fn empty_pattern_matches_every_line() {
    let buf = buffer_of(&["a", "", "b"]);
    for mode in [MatchMode::Literal, MatchMode::Pattern] {
        let cfg = config("", mode, false, false);
        assert_eq!(find_hits(&buf, &cfg).unwrap(), vec![0, 1, 2]);
    }
}

#[test]
fn empty_buffer_yields_empty_output() {
    let none: [&str; 0] = [];
    let buf = buffer_of(&none);
    let cfg = config("a", MatchMode::Pattern, false, false);
    assert_eq!(find_hits(&buf, &cfg).unwrap(), Vec::<usize>::new());
    let out = run(&buf, &cfg, &WindowSpec { before: 1, after: 1 }, false, false).unwrap();
    assert!(out.is_empty());
}

#[test]
fn non_ascii_lines_are_handled() {
    let buf = buffer_of(&["найдено тут", "ничего"]);
    let cfg = config("тут", MatchMode::Pattern, false, false);
    assert_eq!(find_hits(&buf, &cfg).unwrap(), vec![0]);
    let folded = config("ТУТ", MatchMode::Literal, true, false);
    assert_eq!(find_hits(&buf, &folded).unwrap(), vec![0]);
}

#[test]
fn metacharacters_are_matched_literally() {
    let buf = buffer_of(&["a.c", "abc"]);
    let cfg = config("a.c", MatchMode::Pattern, false, false);
    assert_eq!(find_hits(&buf, &cfg).unwrap(), vec![0]);
}

#[test]
fn make_buffer_assigns_positions() {
    let buf = buffer_of(&["one", "two"]);
    assert_eq!(buf.len(), 2);
    assert_eq!(buf[0].index, 0);
    assert_eq!(buf[1].index, 1);
    assert_eq!(buf[0].text, "one");
    assert_eq!(buf[1].text, "two");
}

#[test]
fn window_from_flags_context_overrides() {
    let w = window_from_flags(1, 2, Some(7));
    assert_eq!(w, WindowSpec { before: 7, after: 7 });
    let w2 = window_from_flags(1, 2, None);
    assert_eq!(w2, WindowSpec { before: 1, after: 2 });
}

#[test]
fn render_with_line_numbers() {
    let entry = OutputEntry { index: 4, text: "hello".to_string(), is_hit: true };
    assert_eq!(render(&entry, true), "5: hello".to_string());
    assert_eq!(render(&entry, false), "hello".to_string());
}

#[test]
fn run_renders_numbers_when_asked() {
    let buf = buffer_of(&["a", "b", "c", "d", "e"]);
    let cfg = config("c", MatchMode::Pattern, false, false);
    let out = run(&buf, &cfg, &WindowSpec { before: 1, after: 1 }, false, true).unwrap();
    assert_eq!(
        out,
        vec!["2: b".to_string(), "3: c".to_string(), "4: d".to_string()]
    );
}

#[test]
fn decimal_rendering_exact() {
    assert_eq!(usize_to_string(0), "0".to_string());
    assert_eq!(usize_to_string(9), "9".to_string());
    assert_eq!(usize_to_string(10), "10".to_string());
    assert_eq!(usize_to_string(905), "905".to_string());
    assert_eq!(usize_to_string(100000), "100000".to_string());
}

#[test]
fn error_messages() {
    assert_eq!(GrepError::SourceUnavailable.message(), "source unavailable");
    assert_eq!(GrepError::InvalidPattern.message(), "invalid pattern");
    assert_eq!(GrepError::MalformedLine.message(), "malformed line");
}

#[test]
fn count_mode_ignores_window_flags() {
    let buf = buffer_of(&["x", "y", "x"]);
    let cfg = config("x", MatchMode::Pattern, false, false);
    let with_window = run(&buf, &cfg, &WindowSpec { before: 2, after: 2 }, true, false).unwrap();
    assert_eq!(with_window, vec!["2".to_string()]);
}
