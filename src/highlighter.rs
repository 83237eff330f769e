use crate::resolve::{
    lemma_span_ids_from_events, lemma_spans_inside_line, lemma_spans_sorted_disjoint, line_spans,
    resolve_parse, scope_ids_below, spans_ordered, spans_within, ScopeEvent, StyledSpan,
};
use std::sync::Arc;
use tree_sitter_highlight::Highlighter as ParserState;
use tree_sitter_highlight::{HighlightConfiguration, HighlightEvent};
use vstd::prelude::*;
use vstd::string::StringSliceAdditionalSpecFns;

verus! {

#[verifier::external_type_specification]
#[verifier::external_body]
pub struct ExHighlightConfiguration(tree_sitter_highlight::HighlightConfiguration);

#[verifier::external_type_specification]
#[verifier::external_body]
pub struct ExParserState(ParserState);

/// Relies on tree_sitter_highlight::Highlighter::new: a fresh parser state
/// with nothing in it that a caller depends on.
pub assume_specification[ ParserState::new ]() -> ParserState;

/// The configuration that `configure` makes of `config` when it is given the
/// scope names `names`.
pub uninterp spec fn configured(config: HighlightConfiguration, names: Seq<Seq<char>>) -> HighlightConfiguration;

/// What the parser returns for the bytes `line` under `config`: `None` when it
/// fails on the line, else its events, `None` for an event reported as an
/// error.
pub uninterp spec fn parser_events(config: HighlightConfiguration, line: Seq<u8>) -> Option<
    Seq<Option<ScopeEvent>>,
>;

/// Relies on HighlightConfiguration::configure: the result depends on the
/// configuration and the names alone; each capture of the configuration's
/// query now maps to the index of its best-matching name, or to nothing.
#[verifier::external_body]
fn configure_names(config: HighlightConfiguration, names: &Vec<String>) -> (r: HighlightConfiguration)
    ensures
        r == configured(config, names@.map_values(|s: String| s@)),
{
    let mut config = config;
    config.configure(names.as_slice());
    config
}

/// Relies on std::sync::Arc::ptr_eq: two handles to one allocation point to
/// one value.
#[verifier::external_body]
fn same_allocation(a: &Arc<HighlightConfiguration>, b: &Arc<HighlightConfiguration>) -> (r: bool)
    ensures
        r ==> *a == *b,
{
    Arc::ptr_eq(a, b)
}

/// Relies on std::sync::Arc::clone: a new handle to the same allocation, so to
/// the same value.
#[verifier::external_body]
fn share_allocation(a: &Arc<HighlightConfiguration>) -> (r: Arc<HighlightConfiguration>)
    ensures
        *r == **a,
{
    Arc::clone(a)
}

/// Compiled, immutable highlight configuration, shared by reference among
/// highlighters, together with the scope names it was configured with. A
/// scope id is a position in that list of names.
pub struct TSSettings {
    tsconfig: Arc<HighlightConfiguration>,
    source: Ghost<HighlightConfiguration>,
    names: Ghost<Seq<Seq<char>>>,
}

impl TSSettings {
    /// The configuration is the one `configure` made of some configuration
    /// with the recorded names.
    #[verifier::type_invariant]
    spec fn made_by_configure(&self) -> bool {
        *self.tsconfig == configured(self.source@, self.names@)
    }

    /// The compiled configuration that the parser runs with.
    pub closed spec fn config(&self) -> HighlightConfiguration {
        *self.tsconfig
    }

    /// The scope names the configuration recognizes; the id of a name is its
    /// position here.
    pub closed spec fn names(&self) -> Seq<Seq<char>> {
        self.names@
    }

    /// How many scope names the configuration recognizes: every scope id it
    /// reports is below this number.
    pub open spec fn scope_count(&self) -> nat {
        self.names().len()
    }

    /// Configures `config` to recognize `names`, in that order: the scope id of
    /// a name is its position in `names`.
    pub fn with_names(config: HighlightConfiguration, names: &Vec<String>) -> (r: TSSettings)
        ensures
            r.names() == names@.map_values(|s: String| s@),
            r.config() == configured(config, names@.map_values(|s: String| s@)),
    {
        let ghost source = config;
        let configured = configure_names(config, names);
        TSSettings {
            tsconfig: Arc::new(configured),
            source: Ghost(source),
            names: Ghost(names@.map_values(|s: String| s@)),
        }
    }

    /// Configures `config` to recognize the standard tree-sitter highlight
    /// names, from "attribute" (id 0) to "variable.parameter" (id 25).
    pub fn new(config: HighlightConfiguration) -> (r: TSSettings)
        ensures
            r.names() == standard_names(),
            r.config() == configured(config, standard_names()),
    {
        let names = standard_scope_names();
        TSSettings::with_names(config, &names)
    }

    /// The compiled configuration that the parser runs with.
    pub fn tsconfig(&self) -> (r: &Arc<HighlightConfiguration>)
        ensures
            **r == self.config(),
    {
        &self.tsconfig
    }

    /// Another handle to the same configuration.
    fn share(&self) -> (r: TSSettings)
        ensures
            r == *self,
    {
        proof {
            use_type_invariant(self);
        }
        TSSettings { tsconfig: share_allocation(&self.tsconfig), source: self.source, names: self.names }
    }
}

impl Clone for TSSettings {
    fn clone(&self) -> (r: TSSettings)
        ensures
            r == *self,
    {
        self.share()
    }
}

/// Two settings are equal when they are handles to the same configuration,
/// not when two configurations happen to hold the same rules.
impl PartialEq for TSSettings {
    fn eq(&self, other: &TSSettings) -> (r: bool)
        ensures
            r ==> self.config() == other.config(),
    {
        same_allocation(&self.tsconfig, &other.tsconfig)
    }
}

impl vstd::std_specs::cmp::PartialEqSpecImpl for TSSettings {
    open spec fn obeys_eq_spec() -> bool {
        false
    }

    open spec fn eq_spec(&self, other: &TSSettings) -> bool {
        self.config() == other.config()
    }
}

/// The highlight names that tree-sitter grammars use, in the order that
/// fixes their ids.
pub open spec fn standard_names() -> Seq<Seq<char>> {
    seq![
        "attribute"@,
        "comment"@,
        "constant"@,
        "constant.builtin"@,
        "constructor"@,
        "embedded"@,
        "function"@,
        "function.builtin"@,
        "keyword"@,
        "module"@,
        "number"@,
        "operator"@,
        "property"@,
        "property.builtin"@,
        "punctuation"@,
        "punctuation.bracket"@,
        "punctuation.delimiter"@,
        "punctuation.special"@,
        "string"@,
        "string.special"@,
        "tag"@,
        "type"@,
        "type.builtin"@,
        "variable"@,
        "variable.builtin"@,
        "variable.parameter"@,
    ]
}

/// The position of a standard name, told apart by its length and its first
/// and last characters.
spec fn standard_name_index(s: Seq<char>) -> int {
    if s.len() == 9 && s[0] == 'a' && s[8] == 'e' {
        0
    } else if s.len() == 7 && s[0] == 'c' && s[6] == 't' {
        1
    } else if s.len() == 8 && s[0] == 'c' && s[7] == 't' {
        2
    } else if s.len() == 16 && s[0] == 'c' && s[15] == 'n' {
        3
    } else if s.len() == 11 && s[0] == 'c' && s[10] == 'r' {
        4
    } else if s.len() == 8 && s[0] == 'e' && s[7] == 'd' {
        5
    } else if s.len() == 8 && s[0] == 'f' && s[7] == 'n' {
        6
    } else if s.len() == 16 && s[0] == 'f' && s[15] == 'n' {
        7
    } else if s.len() == 7 && s[0] == 'k' && s[6] == 'd' {
        8
    } else if s.len() == 6 && s[0] == 'm' && s[5] == 'e' {
        9
    } else if s.len() == 6 && s[0] == 'n' && s[5] == 'r' {
        10
    } else if s.len() == 8 && s[0] == 'o' && s[7] == 'r' {
        11
    } else if s.len() == 8 && s[0] == 'p' && s[7] == 'y' {
        12
    } else if s.len() == 16 && s[0] == 'p' && s[15] == 'n' {
        13
    } else if s.len() == 11 && s[0] == 'p' && s[10] == 'n' {
        14
    } else if s.len() == 19 && s[0] == 'p' && s[18] == 't' {
        15
    } else if s.len() == 21 && s[0] == 'p' && s[20] == 'r' {
        16
    } else if s.len() == 19 && s[0] == 'p' && s[18] == 'l' {
        17
    } else if s.len() == 6 && s[0] == 's' && s[5] == 'g' {
        18
    } else if s.len() == 14 && s[0] == 's' && s[13] == 'l' {
        19
    } else if s.len() == 3 && s[0] == 't' && s[2] == 'g' {
        20
    } else if s.len() == 4 && s[0] == 't' && s[3] == 'e' {
        21
    } else if s.len() == 12 && s[0] == 't' && s[11] == 'n' {
        22
    } else if s.len() == 8 && s[0] == 'v' && s[7] == 'e' {
        23
    } else if s.len() == 16 && s[0] == 'v' && s[15] == 'n' {
        24
    } else if s.len() == 18 && s[0] == 'v' && s[17] == 'r' {
        25
    } else {
        -1
    }
}

/// The standard names are pairwise distinct, so each has an id of its own.
#[verifier::rlimit(50)]
pub proof fn lemma_standard_names_distinct()
    ensures
        standard_names().len() == 26,
        forall|i: int, j: int|
            0 <= i < j < 26 ==> #[trigger] standard_names()[i] != #[trigger] standard_names()[j],
{
    reveal_strlit("attribute");
    reveal_strlit("comment");
    reveal_strlit("constant");
    reveal_strlit("constant.builtin");
    reveal_strlit("constructor");
    reveal_strlit("embedded");
    reveal_strlit("function");
    reveal_strlit("function.builtin");
    reveal_strlit("keyword");
    reveal_strlit("module");
    reveal_strlit("number");
    reveal_strlit("operator");
    reveal_strlit("property");
    reveal_strlit("property.builtin");
    reveal_strlit("punctuation");
    reveal_strlit("punctuation.bracket");
    reveal_strlit("punctuation.delimiter");
    reveal_strlit("punctuation.special");
    reveal_strlit("string");
    reveal_strlit("string.special");
    reveal_strlit("tag");
    reveal_strlit("type");
    reveal_strlit("type.builtin");
    reveal_strlit("variable");
    reveal_strlit("variable.builtin");
    reveal_strlit("variable.parameter");
    let n = standard_names();
    assert(standard_name_index(n[0]) == 0);
    assert(standard_name_index(n[1]) == 1);
    assert(standard_name_index(n[2]) == 2);
    assert(standard_name_index(n[3]) == 3);
    assert(standard_name_index(n[4]) == 4);
    assert(standard_name_index(n[5]) == 5);
    assert(standard_name_index(n[6]) == 6);
    assert(standard_name_index(n[7]) == 7);
    assert(standard_name_index(n[8]) == 8);
    assert(standard_name_index(n[9]) == 9);
    assert(standard_name_index(n[10]) == 10);
    assert(standard_name_index(n[11]) == 11);
    assert(standard_name_index(n[12]) == 12);
    assert(standard_name_index(n[13]) == 13);
    assert(standard_name_index(n[14]) == 14);
    assert(standard_name_index(n[15]) == 15);
    assert(standard_name_index(n[16]) == 16);
    assert(standard_name_index(n[17]) == 17);
    assert(standard_name_index(n[18]) == 18);
    assert(standard_name_index(n[19]) == 19);
    assert(standard_name_index(n[20]) == 20);
    assert(standard_name_index(n[21]) == 21);
    assert(standard_name_index(n[22]) == 22);
    assert(standard_name_index(n[23]) == 23);
    assert(standard_name_index(n[24]) == 24);
    assert(standard_name_index(n[25]) == 25);
    assert forall|i: int, j: int| 0 <= i < j < 26 implies #[trigger] n[i] != #[trigger] n[j] by {
        if n[i] == n[j] {
            assert(standard_name_index(n[i]) == standard_name_index(n[j]));
        }
    }
}

/// The standard highlight names as strings.
fn standard_scope_names() -> (r: Vec<String>)
    ensures
        r@.map_values(|s: String| s@) == standard_names(),
{
    let r = vec![
        "attribute".to_owned(),
        "comment".to_owned(),
        "constant".to_owned(),
        "constant.builtin".to_owned(),
        "constructor".to_owned(),
        "embedded".to_owned(),
        "function".to_owned(),
        "function.builtin".to_owned(),
        "keyword".to_owned(),
        "module".to_owned(),
        "number".to_owned(),
        "operator".to_owned(),
        "property".to_owned(),
        "property.builtin".to_owned(),
        "punctuation".to_owned(),
        "punctuation.bracket".to_owned(),
        "punctuation.delimiter".to_owned(),
        "punctuation.special".to_owned(),
        "string".to_owned(),
        "string.special".to_owned(),
        "tag".to_owned(),
        "type".to_owned(),
        "type.builtin".to_owned(),
        "variable".to_owned(),
        "variable.builtin".to_owned(),
        "variable.parameter".to_owned(),
    ];
    assert(r@.map_values(|s: String| s@) =~= standard_names());
    r
}

/// Relies on tree_sitter_highlight::Highlighter::highlight, called with no
/// cancellation flag and no injected languages. Its result then depends on the
/// configuration and the line's bytes alone: `None` when the line cannot be
/// highlighted, else its events, an event that the iterator reports as an
/// error becoming `None`. Each `HighlightStart` carries an index into the names
/// that `configure` was given.
#[verifier::external_body]
fn run_parser(
    parser: &mut ParserState,
    config: &HighlightConfiguration,
    line: &str,
) -> (r: Option<Vec<Option<ScopeEvent>>>)
    ensures
        r is None <==> parser_events(*config, line.spec_bytes()) is None,
        r matches Some(events) ==> parser_events(*config, line.spec_bytes()) == Some(events@),
        r matches Some(events) ==> forall|c: HighlightConfiguration, names: Seq<Seq<char>>|
            *config == #[trigger] configured(c, names) ==> scope_ids_below(events@, names.len()),
{
    let events = parser.highlight(config, line.as_bytes(), None, |_| None).ok()?;
    Some(events.map(|e| match e {
        Ok(HighlightEvent::Source { start, end }) => Some(ScopeEvent::Source { start, end }),
        Ok(HighlightEvent::HighlightStart(h)) => Some(ScopeEvent::ScopeStart(h.0)),
        Ok(HighlightEvent::HighlightEnd) => Some(ScopeEvent::ScopeEnd),
        Err(_) => None,
    }).collect())
}

/// Highlights a text buffer one line at a time with a shared configuration.
pub struct Highlighter {
    highlighter: ParserState,
    settings: TSSettings,
    line: usize,
}

impl Highlighter {
    /// The configuration in use.
    pub closed spec fn active_settings(&self) -> TSSettings {
        self.settings
    }

    /// The line that the host says this highlighter stands at.
    pub closed spec fn line_index(&self) -> nat {
        self.line as nat
    }

    /// The spans that the active configuration gives the line `line`.
    pub open spec fn spans_of(&self, line: Seq<u8>) -> Seq<StyledSpan> {
        line_spans(parser_events(self.active_settings().config(), line), line.len())
    }

    /// A highlighter for `settings`, at line 0.
    pub fn new(settings: &TSSettings) -> (r: Highlighter)
        ensures
            r.active_settings() == *settings,
            r.line_index() == 0,
    {
        Highlighter { highlighter: ParserState::new(), settings: settings.share(), line: 0 }
    }

    /// Swaps in `new_settings` for the lines highlighted from now on. Spans
    /// returned before are owned by the caller and stay as they are.
    pub fn update(&mut self, new_settings: &TSSettings)
        ensures
            final(self).active_settings() == *new_settings,
            final(self).line_index() == old(self).line_index(),
    {
        self.settings = new_settings.share();
    }

    /// Records the line the host now addresses; highlighting ignores it.
    pub fn change_line(&mut self, line: usize)
        ensures
            final(self).line_index() == line,
            final(self).active_settings() == old(self).active_settings(),
    {
        self.line = line;
    }

    /// The line last recorded by `change_line`, 0 at first.
    pub fn current_line(&self) -> (r: usize)
        ensures
            r == self.line_index(),
    {
        self.line
    }

    /// Highlights one line on its own: runs the parser with the active
    /// configuration on the line's bytes and resolves the events with
    /// [`resolve_parse`]. A line the parser fails on gets no spans. The spans
    /// depend on the active configuration and the line alone, so the same
    /// line highlights the same way every time. They are sorted, do not
    /// overlap, lie inside the line, and carry ids of the active configuration.
    pub fn highlight_line(&mut self, line: &str) -> (spans: Vec<StyledSpan>)
        ensures
            spans@ == old(self).spans_of(line.spec_bytes()),
            spans_ordered(spans@),
            spans_within(spans@, line.spec_bytes().len()),
            forall|i: int|
                0 <= i < spans@.len() ==> (#[trigger] spans@[i]).scope
                    < old(self).active_settings().scope_count(),
            final(self).line_index() == old(self).line_index(),
            final(self).active_settings() == old(self).active_settings(),
    {
        proof {
            use_type_invariant(&self.settings);
        }
        let parsed = run_parser(&mut self.highlighter, &self.settings.tsconfig, line);
        let line_len = line.as_bytes().len();
        proof {
            let events = if parsed is Some {
                parsed->Some_0@
            } else {
                Seq::empty()
            };
            let names = self.settings.names@;
            assert(self.settings.config() == configured(self.settings.source@, names));
            lemma_spans_sorted_disjoint(events, line_len as nat);
            lemma_spans_inside_line(events, line_len as nat);
            lemma_span_ids_from_events(events, line_len as nat, names.len());
        }
        resolve_parse(parsed, line_len)
    }
}

/// Highlighting depends on the active configuration and the line alone: the
/// line counter and earlier lines play no part, so two highlighters that share
/// a configuration, or one highlighter asked twice, give a line the same spans.
pub proof fn lemma_same_configuration_same_spans(a: Highlighter, b: Highlighter, line: Seq<u8>)
    requires
        a.active_settings().config() == b.active_settings().config(),
    ensures
        a.spans_of(line) == b.spans_of(line),
{
}

} // verus!
