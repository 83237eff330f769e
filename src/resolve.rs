use vstd::prelude::*;

verus! {

/// One step of a highlight event stream for a single line.
#[derive(Clone, Copy, Debug, PartialEq, Eq, Structural)]
pub enum ScopeEvent {
    /// The bytes `start..end` of the line, with no scope boundary inside.
    Source { start: usize, end: usize },
    /// A scope with the given id opens at the current position.
    ScopeStart(usize),
    /// The innermost open scope closes.
    ScopeEnd,
}

/// A byte range of a line together with the scope id that styles it.
#[derive(Clone, Copy, Debug, PartialEq, Eq, Structural)]
pub struct StyledSpan {
    pub start: usize,
    pub end: usize,
    pub scope: usize,
}

/// The state of the resolver after some events: the stack of open scopes
/// (innermost last), the end of the last accepted source range, and the spans
/// emitted so far.
pub type Resolution = (Seq<usize>, nat, Seq<StyledSpan>);

/// A `Source` range is taken when it starts at or after every range taken
/// before it and lies inside the line; any other one is a malformed event and
/// is dropped.
pub open spec fn source_fits(pos: nat, start: usize, end: usize, line_len: nat) -> bool {
    pos <= start && start <= end && end <= line_len
}

/// The resolver's state after one more event. A `None` event stands for an
/// event that the parser reported as an error: it is skipped.
pub open spec fn step(r: Resolution, ev: Option<ScopeEvent>, line_len: nat) -> Resolution {
    let (open, pos, spans) = r;
    match ev {
        None => r,
        Some(ScopeEvent::Source { start, end }) => {
            if source_fits(pos, start, end, line_len) {
                if open.len() > 0 {
                    (open, end as nat, spans.push(StyledSpan { start, end, scope: open.last() }))
                } else {
                    (open, end as nat, spans)
                }
            } else {
                r
            }
        },
        Some(ScopeEvent::ScopeStart(id)) => (open.push(id), pos, spans),
        Some(ScopeEvent::ScopeEnd) => {
            if open.len() > 0 {
                (open.drop_last(), pos, spans)
            } else {
                r
            }
        },
    }
}

/// The resolver's state after all of `events`, starting with no open scope.
pub open spec fn resolution(events: Seq<Option<ScopeEvent>>, line_len: nat) -> Resolution
    decreases events.len(),
{
    if events.len() == 0 {
        (Seq::empty(), 0, Seq::empty())
    } else {
        step(resolution(events.drop_last(), line_len), events.last(), line_len)
    }
}

/// The spans that a line's events resolve to.
pub open spec fn resolve(events: Seq<Option<ScopeEvent>>, line_len: nat) -> Seq<StyledSpan> {
    resolution(events, line_len).2
}

/// Each span ends at or before the start of the next one: the spans are
/// sorted by start offset and do not overlap.
pub open spec fn spans_ordered(spans: Seq<StyledSpan>) -> bool {
    forall|i: int, j: int| 0 <= i < j < spans.len() ==> spans[i].end <= spans[j].start
}

/// Every span is a well-formed range inside `0..line_len`.
pub open spec fn spans_within(spans: Seq<StyledSpan>, line_len: nat) -> bool {
    forall|i: int| 0 <= i < spans.len() ==> spans[i].start <= spans[i].end && spans[i].end <= line_len
}

proof fn lemma_resolution_well_formed(events: Seq<Option<ScopeEvent>>, line_len: nat)
    ensures
        resolution(events, line_len).1 <= line_len,
        spans_ordered(resolution(events, line_len).2),
        spans_within(resolution(events, line_len).2, line_len),
        forall|i: int|
            0 <= i < resolution(events, line_len).2.len() ==> resolution(events, line_len).2[i].end
                <= resolution(events, line_len).1,
    decreases events.len(),
{
    if events.len() > 0 {
        lemma_resolution_well_formed(events.drop_last(), line_len);
    }
}

/// Whatever events the parser hands over, the resolved spans of a line are
/// sorted by start offset and never overlap.
pub proof fn lemma_spans_sorted_disjoint(events: Seq<Option<ScopeEvent>>, line_len: nat)
    ensures
        spans_ordered(resolve(events, line_len)),
{
    lemma_resolution_well_formed(events, line_len);
}

/// Whatever events the parser hands over, every resolved span lies inside the
/// line.
pub proof fn lemma_spans_inside_line(events: Seq<Option<ScopeEvent>>, line_len: nat)
    ensures
        spans_within(resolve(events, line_len), line_len),
{
    lemma_resolution_well_formed(events, line_len);
}

/// A `ScopeEnd` that arrives while no scope is open changes nothing: the
/// resolver stays idle and emits nothing.
pub proof fn lemma_unmatched_end_ignored(events: Seq<Option<ScopeEvent>>, line_len: nat)
    requires
        resolution(events, line_len).0.len() == 0,
    ensures
        resolution(events.push(Some(ScopeEvent::ScopeEnd)), line_len) == resolution(events, line_len),
        resolution(events.push(Some(ScopeEvent::ScopeEnd)), line_len).0.len() == 0,
{
    assert(events.push(Some(ScopeEvent::ScopeEnd)).drop_last() =~= events);
}

/// When an inner scope closes, the enclosing scope is active again: opening
/// and closing a scope leaves the resolver as it was, so the next source range
/// takes the enclosing scope's id.
pub proof fn lemma_closed_scope_restores_enclosing(
    events: Seq<Option<ScopeEvent>>,
    id: usize,
    line_len: nat,
)
    ensures
        resolution(
            events.push(Some(ScopeEvent::ScopeStart(id))).push(Some(ScopeEvent::ScopeEnd)),
            line_len,
        ) == resolution(events, line_len),
{
    let opened = events.push(Some(ScopeEvent::ScopeStart(id)));
    assert(opened.drop_last() =~= events);
    assert(opened.push(Some(ScopeEvent::ScopeEnd)).drop_last() =~= opened);
    assert(resolution(opened, line_len).0.drop_last() =~= resolution(events, line_len).0);
}

/// The span that a source range gets: the innermost open scope's id, for a
/// range that fits after the earlier ones.
pub proof fn lemma_source_takes_innermost(
    events: Seq<Option<ScopeEvent>>,
    start: usize,
    end: usize,
    line_len: nat,
)
    requires
        resolution(events, line_len).0.len() > 0,
        source_fits(resolution(events, line_len).1, start, end, line_len),
    ensures
        resolve(events.push(Some(ScopeEvent::Source { start, end })), line_len) == resolve(
            events,
            line_len,
        ).push(StyledSpan { start, end, scope: resolution(events, line_len).0.last() }),
{
    assert(events.push(Some(ScopeEvent::Source { start, end })).drop_last() =~= events);
}

/// Every scope that the events open has an id below `count`.
pub open spec fn scope_ids_below(events: Seq<Option<ScopeEvent>>, count: nat) -> bool {
    forall|i: int|
        0 <= i < events.len() ==> (#[trigger] events[i] matches Some(ScopeEvent::ScopeStart(id))
            ==> id < count)
}

proof fn lemma_resolution_ids(events: Seq<Option<ScopeEvent>>, line_len: nat, count: nat)
    requires
        scope_ids_below(events, count),
    ensures
        forall|i: int|
            0 <= i < resolution(events, line_len).0.len() ==> resolution(events, line_len).0[i]
                < count,
        forall|i: int|
            0 <= i < resolution(events, line_len).2.len() ==> resolution(events, line_len).2[i].scope
                < count,
    decreases events.len(),
{
    if events.len() > 0 {
        let prev = events.drop_last();
        assert forall|i: int| 0 <= i < prev.len() implies (#[trigger] prev[i] matches Some(
            ScopeEvent::ScopeStart(id),
        ) ==> id < count) by {
            assert(prev[i] == events[i]);
        }
        lemma_resolution_ids(prev, line_len, count);
        assert(events.last() == events[events.len() - 1]);
        let r = resolution(prev, line_len);
        let now = resolution(events, line_len);
        assert forall|i: int| 0 <= i < now.0.len() implies now.0[i] < count by {
            if i < r.0.len() {
                assert(now.0[i] == r.0[i]);
            }
        }
        assert forall|i: int| 0 <= i < now.2.len() implies now.2[i].scope < count by {
            if i < r.2.len() {
                assert(now.2[i] == r.2[i]);
            }
        }
    }
}

/// Spans take their ids only from the scopes that the events open: where
/// every opened id is below `count` (the size of the configuration's name
/// list), so is every span's id.
pub proof fn lemma_span_ids_from_events(events: Seq<Option<ScopeEvent>>, line_len: nat, count: nat)
    requires
        scope_ids_below(events, count),
    ensures
        forall|i: int|
            0 <= i < resolve(events, line_len).len() ==> (#[trigger] resolve(events, line_len)[i]).scope
                < count,
{
    lemma_resolution_ids(events, line_len, count);
}

/// Resolves the events of one line (of `line_len` bytes) into styled spans.
///
/// Open scopes are kept on a stack: a `Source` range takes the innermost open
/// scope, and a range with no open scope is left out (default style). A
/// `ScopeEnd` with no open scope is ignored, and so are events reported as
/// errors (`None`) and source ranges that overlap earlier ones or leave the line.
pub fn resolve_events(events: &Vec<Option<ScopeEvent>>, line_len: usize) -> (spans: Vec<StyledSpan>)
    ensures
        spans@ == resolve(events@, line_len as nat),
{
    let mut open: Vec<usize> = Vec::new();
    let mut pos: usize = 0;
    let mut spans: Vec<StyledSpan> = Vec::new();
    let mut i: usize = 0;
    while i < events.len()
        invariant
            i <= events@.len(),
            resolution(events@.take(i as int), line_len as nat) == (open@, pos as nat, spans@),
        decreases events@.len() - i,
    {
        let ghost before = events@.take(i as int);
        assert(events@.take(i + 1).drop_last() =~= before);
        match events[i] {
            None => {},
            Some(ScopeEvent::Source { start, end }) => {
                if pos <= start && start <= end && end <= line_len {
                    if open.len() > 0 {
                        spans.push(StyledSpan { start, end, scope: open[open.len() - 1] });
                    }
                    pos = end;
                }
            },
            Some(ScopeEvent::ScopeStart(id)) => {
                open.push(id);
            },
            Some(ScopeEvent::ScopeEnd) => {
                if open.len() > 0 {
                    open.pop();
                }
            },
        }
        proof {
            assert(open@ =~= resolution(events@.take(i + 1), line_len as nat).0);
        }
        i = i + 1;
    }
    assert(events@.take(events@.len() as int) =~= events@);
    spans
}

/// The spans of a line, given what the parser returned for it: none where the
/// parser failed, else the resolution of its events.
pub open spec fn line_spans(parsed: Option<Seq<Option<ScopeEvent>>>, line_len: nat) -> Seq<StyledSpan> {
    match parsed {
        None => Seq::empty(),
        Some(events) => resolve(events, line_len),
    }
}

/// Resolves what the parser returned for a line: `None` (the parser failed on
/// the line) gives no spans at all, so the line is shown unhighlighted.
pub fn resolve_parse(parsed: Option<Vec<Option<ScopeEvent>>>, line_len: usize) -> (spans: Vec<StyledSpan>)
    ensures
        parsed is None ==> spans@.len() == 0,
        parsed matches Some(events) ==> spans@ == resolve(events@, line_len as nat),
{
    match parsed {
        None => Vec::new(),
        Some(events) => resolve_events(&events, line_len),
    }
}

} // verus!
