use iced_highlighter_tree_sitter::{resolve_events, resolve_parse, ScopeEvent, StyledSpan};

fn span(start: usize, end: usize, scope: usize) -> StyledSpan {
    StyledSpan { start, end, scope }
}

fn src(start: usize, end: usize) -> Option<ScopeEvent> {
    Some(ScopeEvent::Source { start, end })
}

fn open(id: usize) -> Option<ScopeEvent> {
    Some(ScopeEvent::ScopeStart(id))
}

fn close() -> Option<ScopeEvent> {
    Some(ScopeEvent::ScopeEnd)
}

#[test]
fn inner_scope_closing_restores_enclosing_scope() {
    let comment = 1;
    let constant = 2;
    let events = vec![
        open(comment),
        src(0, 10),
        open(constant),
        src(10, 15),
        close(),
        src(15, 20),
        close(),
    ];
    let spans = resolve_events(&events, 20);
    assert_eq!(spans, vec![span(0, 10, comment), span(10, 15, constant), span(15, 20, comment)]);
}

#[test]
fn unmatched_scope_end_is_ignored() {
    let events = vec![close(), src(0, 3), open(4), src(3, 5), close(), close(), src(5, 8)];
    let spans = resolve_events(&events, 8);
    assert_eq!(spans, vec![span(3, 5, 4)]);
}

#[test]
fn parser_failure_gives_no_spans() {
    assert!(resolve_parse(None, 12).is_empty());
}

#[test]
fn parser_success_resolves_events() {
    let spans = resolve_parse(Some(vec![open(7), src(0, 4), close()]), 4);
    assert_eq!(spans, vec![span(0, 4, 7)]);
}

#[test]
fn source_without_open_scope_is_uncovered() {
    let events = vec![src(0, 2), open(3), src(2, 4), close(), src(4, 6)];
    assert_eq!(resolve_events(&events, 6), vec![span(2, 4, 3)]);
}

#[test]
fn erroneous_event_is_skipped() {
    let events = vec![open(5), src(0, 2), None, src(2, 4), close()];
    assert_eq!(resolve_events(&events, 4), vec![span(0, 2, 5), span(2, 4, 5)]);
}

#[test]
fn overlapping_or_outside_ranges_are_dropped() {
    let events = vec![
        open(1),
        src(0, 4),
        src(2, 6),
        src(4, 3),
        src(4, 11),
        src(4, 10),
        close(),
    ];
    assert_eq!(resolve_events(&events, 10), vec![span(0, 4, 1), span(4, 10, 1)]);
}

#[test]
fn spans_sorted_disjoint_and_inside_line() {
    let events = vec![
        open(0),
        src(0, 3),
        open(1),
        src(3, 3),
        src(3, 7),
        close(),
        src(7, 9),
        close(),
        src(9, 12),
    ];
    let spans = resolve_events(&events, 12);
    assert_eq!(spans.len(), 4);
    for w in spans.windows(2) {
        assert!(w[0].end <= w[1].start);
    }
    for s in &spans {
        assert!(s.start <= s.end && s.end <= 12);
    }
}

#[test]
fn comment_marker_and_quoted_text_get_their_ids() {
    let line = "// hi \"x\"";
    let (comment, string) = (0, 1);
    let events = vec![
        open(comment),
        src(0, 2),
        close(),
        src(2, 6),
        open(string),
        src(6, 9),
        close(),
    ];
    let spans = resolve_events(&events, line.len());
    assert_eq!(spans, vec![span(0, 2, comment), span(6, 9, string)]);
}

#[test]
fn same_events_resolve_the_same_twice() {
    let events = vec![open(2), src(0, 5), close(), open(3), src(5, 9), close()];
    assert_eq!(resolve_events(&events, 9), resolve_events(&events, 9));
}

#[test]
fn empty_stream_gives_no_spans() {
    assert!(resolve_events(&Vec::new(), 0).is_empty());
}
