use iced_highlighter_tree_sitter::{style_of, Highlighter, ScopeStyle, StyledSpan, TSSettings};
use tree_sitter_highlight::HighlightConfiguration;

fn rust_config() -> HighlightConfiguration {
    HighlightConfiguration::new(
        tree_sitter_rust::LANGUAGE.into(),
        "rust",
        tree_sitter_rust::HIGHLIGHTS_QUERY,
        tree_sitter_rust::INJECTIONS_QUERY,
        "",
    )
    .unwrap()
}

fn names(list: &[&str]) -> Vec<String> {
    list.iter().map(|s| s.to_string()).collect()
}

#[test]
fn line_comment_is_one_comment_span() {
    let settings = TSSettings::with_names(rust_config(), &names(&["comment", "string"]));
    let mut hl = Highlighter::new(&settings);
    let spans = hl.highlight_line("// hi \"x\"");
    assert_eq!(spans, vec![StyledSpan { start: 0, end: 9, scope: 0 }]);
}

#[test]
fn string_literal_gets_string_id() {
    let settings = TSSettings::with_names(rust_config(), &names(&["comment", "string"]));
    let mut hl = Highlighter::new(&settings);
    let line = "let s = \"ab\";";
    let spans = hl.highlight_line(line);
    assert!(spans.contains(&StyledSpan { start: 8, end: 12, scope: 1 }));
    assert!(spans.iter().all(|s| s.scope < 2 && s.end <= line.len()));
}

#[test]
fn highlighting_twice_gives_same_spans() {
    let settings = TSSettings::new(rust_config());
    let mut hl = Highlighter::new(&settings);
    let line = "fn main() { let x: u32 = 1; } // done";
    let first = hl.highlight_line(line);
    let second = hl.highlight_line(line);
    assert!(!first.is_empty());
    assert_eq!(first, second);
}

#[test]
fn standard_names_mark_comment() {
    let settings = TSSettings::new(rust_config());
    let mut hl = Highlighter::new(&settings);
    let spans = hl.highlight_line("let x = 1; // note");
    let last = spans.last().unwrap();
    assert_eq!(last.end, 18);
    assert_eq!(style_of(last.scope), ScopeStyle::Comment);
    assert!(spans.iter().all(|s| s.scope < 26));
}

#[test]
fn spans_are_sorted_disjoint_and_inside() {
    let settings = TSSettings::new(rust_config());
    let mut hl = Highlighter::new(&settings);
    let line = "pub fn f(a: &str) -> Option<u8> { a.parse().ok() }";
    let spans = hl.highlight_line(line);
    assert!(!spans.is_empty());
    for w in spans.windows(2) {
        assert!(w[0].end <= w[1].start);
    }
    for s in &spans {
        assert!(s.start <= s.end && s.end <= line.len());
    }
}

#[test]
fn update_switches_ids_and_keeps_old_spans() {
    let first = TSSettings::with_names(rust_config(), &names(&["comment", "string"]));
    let second = TSSettings::with_names(rust_config(), &names(&["string"]));
    let mut hl = Highlighter::new(&first);
    let line = "let s = \"ab\";";
    let before = hl.highlight_line(line);
    let kept = before.clone();
    hl.update(&second);
    let after = hl.highlight_line(line);
    assert_eq!(before, kept);
    assert!(before.contains(&StyledSpan { start: 8, end: 12, scope: 1 }));
    assert_eq!(after, vec![StyledSpan { start: 8, end: 12, scope: 0 }]);
}

#[test]
fn line_counter_is_bookkeeping_only() {
    let settings = TSSettings::new(rust_config());
    let mut hl = Highlighter::new(&settings);
    assert_eq!(hl.current_line(), 0);
    let at_zero = hl.highlight_line("// x");
    hl.change_line(41);
    assert_eq!(hl.current_line(), 41);
    assert_eq!(hl.highlight_line("// x"), at_zero);
}

#[test]
fn settings_equal_only_when_shared() {
    let a = TSSettings::new(rust_config());
    let b = a.clone();
    let c = TSSettings::new(rust_config());
    assert!(a == b);
    assert!(a != c);
}

#[test]
fn empty_line_has_no_spans() {
    let settings = TSSettings::new(rust_config());
    let mut hl = Highlighter::new(&settings);
    assert!(hl.highlight_line("").is_empty());
}

#[test]
fn standard_names_give_string_id_eighteen() {
    let settings = TSSettings::new(rust_config());
    let mut hl = Highlighter::new(&settings);
    let spans = hl.highlight_line("let s = \"ab\";");
    assert!(spans.contains(&StyledSpan { start: 8, end: 12, scope: 18 }));
    assert_eq!(style_of(18), ScopeStyle::Str);
}

#[test]
fn highlighters_sharing_settings_agree() {
    let settings = TSSettings::new(rust_config());
    let mut a = Highlighter::new(&settings);
    let mut b = Highlighter::new(&settings.clone());
    a.highlight_line("/* open");
    b.change_line(7);
    let line = "let v = vec![1, 2];";
    assert_eq!(a.highlight_line(line), b.highlight_line(line));
}
