use vstd::prelude::*;

pub mod languages;

use crate::theme::Color;
use crate::theme::Theme;
use streaming_iterator::StreamingIterator;
use tree_sitter::Language;
use tree_sitter::Parser;
use tree_sitter::Query;
use tree_sitter::QueryCursor;

pub use languages::get_language;

verus! {

broadcast use vstd::seq_lib::group_to_multiset_ensures, vstd::multiset::group_multiset_axioms;

/// The closed set of lexical categories a token can be colored by.
#[derive(Debug, Clone, Copy, PartialEq, Eq, Structural)]
pub enum TokenType {
    Comment,
    Constant,
    Function,
    Keyword,
    Label,
    Number,
    Operator,
    Parameter,
    Property,
    Punctuation,
    String,
    Type,
    Variable,
}

/// The theme color of each token category.
pub open spec fn spec_token_color(t: TokenType, theme: Theme) -> Color {
    match t {
        TokenType::Comment => theme.syntax_comment,
        TokenType::Constant => theme.syntax_constant,
        TokenType::Function => theme.syntax_function,
        TokenType::Keyword => theme.syntax_keyword,
        TokenType::Label => theme.syntax_label,
        TokenType::Number => theme.syntax_number,
        TokenType::Operator => theme.syntax_operator,
        TokenType::Parameter => theme.syntax_parameter,
        TokenType::Property => theme.syntax_property,
        TokenType::Punctuation => theme.syntax_punctuation,
        TokenType::String => theme.syntax_string,
        TokenType::Type => theme.syntax_type,
        TokenType::Variable => theme.syntax_variable,
    }
}

impl TokenType {
    /// The color the theme assigns to this category.
    pub fn color(&self, theme: &Theme) -> (r: Color)
        ensures
            r == spec_token_color(*self, *theme),
    {
        match self {
            TokenType::Comment => theme.syntax_comment,
            TokenType::Constant => theme.syntax_constant,
            TokenType::Function => theme.syntax_function,
            TokenType::Keyword => theme.syntax_keyword,
            TokenType::Label => theme.syntax_label,
            TokenType::Number => theme.syntax_number,
            TokenType::Operator => theme.syntax_operator,
            TokenType::Parameter => theme.syntax_parameter,
            TokenType::Property => theme.syntax_property,
            TokenType::Punctuation => theme.syntax_punctuation,
            TokenType::String => theme.syntax_string,
            TokenType::Type => theme.syntax_type,
            TokenType::Variable => theme.syntax_variable,
        }
    }
}

/// A half-open byte range of the source text together with its category.
#[derive(Debug, Clone, Copy, PartialEq, Eq, Structural)]
pub struct HighlightSpan {
    pub start: usize,
    pub end: usize,
    pub token_type: TokenType,
}

/// The length of the prefix of `s` before its first dot.
pub open spec fn first_dot(s: Seq<char>) -> int
    decreases s.len(),
{
    if s.len() == 0 {
        0
    } else if s[0] == '.' {
        0
    } else {
        1 + first_dot(s.drop_first())
    }
}

/// The base of a capture name: the part before the first dot.
pub open spec fn base_name(s: Seq<char>) -> Seq<char> {
    s.take(first_dot(s))
}

proof fn lemma_first_dot_at(s: Seq<char>, i: int)
    requires
        0 <= i <= s.len(),
        forall|j: int| 0 <= j < i ==> s[j] != '.',
        i < s.len() ==> s[i] == '.',
    ensures
        first_dot(s) == i,
    decreases i,
{
    if i == 0 {
    } else {
        assert(s[0] != '.');
        let t = s.drop_first();
        assert forall|j: int| 0 <= j < i - 1 implies t[j] != '.' by {
            assert(t[j] == s[j + 1]);
        }
        assert(i - 1 < t.len() ==> t[i - 1] == s[i]);
        lemma_first_dot_at(t, i - 1);
    }
}

/// Whether two strings hold the same characters.
fn str_eq(a: &str, b: &str) -> (r: bool)
    ensures
        r == (a@ == b@),
{
    let na = a.unicode_len();
    let nb = b.unicode_len();
    if na != nb {
        return false;
    }
    let mut i: usize = 0;
    while i < na
        invariant
            i <= na,
            na == a@.len(),
            na == b@.len(),
            forall|j: int| 0 <= j < i ==> a@[j] == b@[j],
        decreases na - i,
    {
        if a.get_char(i) != b.get_char(i) {
            return false;
        }
        i = i + 1;
    }
    proof {
        assert(a@ =~= b@);
    }
    true
}

/// The fixed table from a capture's base name to a token category; names
/// outside the table (the internal markers among them) map to nothing.
pub open spec fn token_for_base(b: Seq<char>) -> Option<TokenType> {
    if b == "annotation"@ || b == "attribute"@ || b == "decorator"@ || b == "conditional"@ || b
        == "exception"@ || b == "include"@ || b == "repeat"@ || b == "storageclass"@ || b
        == "keyword"@ {
        Option::Some(TokenType::Keyword)
    } else if b == "boolean"@ || b == "constant"@ {
        Option::Some(TokenType::Constant)
    } else if b == "character"@ || b == "regexp"@ || b == "string"@ || b == "text"@ {
        Option::Some(TokenType::String)
    } else if b == "class"@ || b == "constructor"@ || b == "enum"@ || b == "interface"@ || b
        == "struct"@ || b == "trait"@ || b == "module"@ || b == "namespace"@ || b == "tag"@ || b
        == "type"@ {
        Option::Some(TokenType::Type)
    } else if b == "comment"@ {
        Option::Some(TokenType::Comment)
    } else if b == "delimiter"@ || b == "punctuation"@ {
        Option::Some(TokenType::Punctuation)
    } else if b == "escape"@ || b == "special"@ || b == "operator"@ {
        Option::Some(TokenType::Operator)
    } else if b == "field"@ || b == "property"@ {
        Option::Some(TokenType::Property)
    } else if b == "float"@ || b == "number"@ {
        Option::Some(TokenType::Number)
    } else if b == "function"@ || b == "macro"@ || b == "method"@ {
        Option::Some(TokenType::Function)
    } else if b == "identifier"@ || b == "variable"@ {
        Option::Some(TokenType::Variable)
    } else if b == "label"@ {
        Option::Some(TokenType::Label)
    } else if b == "parameter"@ {
        Option::Some(TokenType::Parameter)
    } else {
        Option::None
    }
}

/// The category of a full capture name: its base name looked up in the table.
pub open spec fn spec_capture_token(s: Seq<char>) -> Option<TokenType> {
    token_for_base(base_name(s))
}

/// Maps a capture name, dotted suffixes ignored, to its token category.
pub fn token_type_for_capture(name: &str) -> (r: Option<TokenType>)
    ensures
        r == spec_capture_token(name@),
{
    let n = name.unicode_len();
    let mut i: usize = 0;
    while i < n && name.get_char(i) != '.'
        invariant
            i <= n,
            n == name@.len(),
            forall|j: int| 0 <= j < i ==> name@[j] != '.',
        decreases n - i,
    {
        i = i + 1;
    }
    proof {
        lemma_first_dot_at(name@, i as int);
    }
    let base = name.substring_char(0, i);
    let r = if str_eq(base, "annotation") || str_eq(base, "attribute") || str_eq(base, "decorator")
        || str_eq(base, "conditional") || str_eq(base, "exception") || str_eq(base, "include")
        || str_eq(base, "repeat") || str_eq(base, "storageclass") || str_eq(base, "keyword") {
        Option::Some(TokenType::Keyword)
    } else if str_eq(base, "boolean") || str_eq(base, "constant") {
        Option::Some(TokenType::Constant)
    } else if str_eq(base, "character") || str_eq(base, "regexp") || str_eq(base, "string")
        || str_eq(base, "text") {
        Option::Some(TokenType::String)
    } else if str_eq(base, "class") || str_eq(base, "constructor") || str_eq(base, "enum")
        || str_eq(base, "interface") || str_eq(base, "struct") || str_eq(base, "trait") || str_eq(
        base,
        "module",
    ) || str_eq(base, "namespace") || str_eq(base, "tag") || str_eq(base, "type") {
        Option::Some(TokenType::Type)
    } else if str_eq(base, "comment") {
        Option::Some(TokenType::Comment)
    } else if str_eq(base, "delimiter") || str_eq(base, "punctuation") {
        Option::Some(TokenType::Punctuation)
    } else if str_eq(base, "escape") || str_eq(base, "special") || str_eq(base, "operator") {
        Option::Some(TokenType::Operator)
    } else if str_eq(base, "field") || str_eq(base, "property") {
        Option::Some(TokenType::Property)
    } else if str_eq(base, "float") || str_eq(base, "number") {
        Option::Some(TokenType::Number)
    } else if str_eq(base, "function") || str_eq(base, "macro") || str_eq(base, "method") {
        Option::Some(TokenType::Function)
    } else if str_eq(base, "identifier") || str_eq(base, "variable") {
        Option::Some(TokenType::Variable)
    } else if str_eq(base, "label") {
        Option::Some(TokenType::Label)
    } else if str_eq(base, "parameter") {
        Option::Some(TokenType::Parameter)
    } else {
        Option::None
    };
    r
}

} // verus!

verus! {

/// One raw capture handed back by a query run: the capture's name and the
/// byte range of its node.
#[derive(Debug, Clone)]
pub struct RawCapture {
    pub name: String,
    pub start: usize,
    pub end: usize,
}

/// The spans the classification keeps: one per capture whose base name the
/// table knows, in capture order, with the capture's byte range.
pub open spec fn classify_spec(caps: Seq<RawCapture>) -> Seq<HighlightSpan>
    decreases caps.len(),
{
    if caps.len() == 0 {
        Seq::<HighlightSpan>::empty()
    } else {
        classify_spec(caps.drop_last()) + match spec_capture_token(caps.last().name@) {
            Option::Some(t) => seq![
                HighlightSpan { start: caps.last().start, end: caps.last().end, token_type: t },
            ],
            Option::None => Seq::<HighlightSpan>::empty(),
        }
    }
}

/// Turns raw captures into highlight spans: captures whose base name is not
/// in the table are dropped, the rest keep their byte ranges and order.
pub fn classify_captures(caps: &Vec<RawCapture>) -> (r: Vec<HighlightSpan>)
    ensures
        r@ == classify_spec(caps@),
{
    let mut out: Vec<HighlightSpan> = Vec::new();
    proof {
        assert(caps@.take(0) =~= Seq::<RawCapture>::empty());
        assert(out@ =~= classify_spec(caps@.take(0)));
    }
    let mut i: usize = 0;
    while i < caps.len()
        invariant
            i <= caps.len(),
            out@ =~= classify_spec(caps@.take(i as int)),
        decreases caps.len() - i,
    {
        let ghost pre = out@;
        match token_type_for_capture(caps[i].name.as_str()) {
            Option::Some(t) => {
                out.push(HighlightSpan { start: caps[i].start, end: caps[i].end, token_type: t });
            },
            Option::None => {},
        }
        proof {
            assert(caps@.take(i + 1).drop_last() =~= caps@.take(i as int));
            assert(caps@.take(i + 1).last() == caps@[i as int]);
            assert(out@ =~= classify_spec(caps@.take(i + 1)));
        }
        i = i + 1;
    }
    proof {
        assert(caps@.take(caps@.len() as int) =~= caps@);
    }
    out
}

/// Spans in ascending order of start offset.
pub open spec fn sorted_by_start(s: Seq<HighlightSpan>) -> bool {
    forall|i: int, j: int| 0 <= i < j < s.len() ==> s[i].start <= s[j].start
}

/// `x` inserted into `s` after every span whose start offset does not
/// exceed its own, so equal starts keep their order.
pub open spec fn insert_by_start(s: Seq<HighlightSpan>, x: HighlightSpan) -> Seq<HighlightSpan>
    decreases s.len(),
{
    if s.len() == 0 {
        seq![x]
    } else if s.last().start <= x.start {
        s.push(x)
    } else {
        insert_by_start(s.drop_last(), x).push(s.last())
    }
}

/// The stable sort of spans by start offset: each span inserted, in order,
/// after the spans whose start does not exceed its own.
pub open spec fn sort_by_start_spec(s: Seq<HighlightSpan>) -> Seq<HighlightSpan>
    decreases s.len(),
{
    if s.len() == 0 {
        Seq::<HighlightSpan>::empty()
    } else {
        insert_by_start(sort_by_start_spec(s.drop_last()), s.last())
    }
}

proof fn lemma_insert_by_start_at(s: Seq<HighlightSpan>, x: HighlightSpan, j: int)
    requires
        0 <= j <= s.len(),
        forall|k: int| j <= k < s.len() ==> s[k].start > x.start,
        j > 0 ==> s[j - 1].start <= x.start,
    ensures
        insert_by_start(s, x) == s.insert(j, x),
    decreases s.len(),
{
    if j == s.len() {
        if s.len() == 0 {
            assert(insert_by_start(s, x) =~= s.insert(j, x));
        } else {
            assert(s.last().start <= x.start);
            assert(s.push(x) =~= s.insert(j, x));
        }
    } else {
        assert(s[s.len() - 1].start > x.start);
        lemma_insert_by_start_at(s.drop_last(), x, j);
        assert(insert_by_start(s.drop_last(), x).push(s.last()) =~= s.insert(j, x));
    }
}

proof fn lemma_insert_by_start_multiset(s: Seq<HighlightSpan>, x: HighlightSpan)
    ensures
        insert_by_start(s, x).to_multiset() == s.push(x).to_multiset(),
    decreases s.len(),
{
    if s.len() == 0 {
        assert(insert_by_start(s, x) =~= Seq::<HighlightSpan>::empty().push(x));
    } else if s.last().start <= x.start {
    } else {
        lemma_insert_by_start_multiset(s.drop_last(), x);
        assert(s.drop_last().push(s.last()) =~= s);
        assert(insert_by_start(s, x).to_multiset() =~= s.push(x).to_multiset());
    }
}

proof fn lemma_insert_by_start_sorted(s: Seq<HighlightSpan>, x: HighlightSpan)
    requires
        sorted_by_start(s),
    ensures
        sorted_by_start(insert_by_start(s, x)),
    decreases s.len(),
{
    if s.len() == 0 {
    } else if s.last().start <= x.start {
        assert forall|i: int, j: int|
            0 <= i < j < s.push(x).len() implies s.push(x)[i].start <= s.push(x)[j].start by {
            if j < s.len() {
            } else {
                assert(s.push(x)[j] == x);
                if i < s.len() - 1 {
                    assert(s[i].start <= s.last().start);
                }
            }
        }
    } else {
        lemma_insert_by_start_sorted(s.drop_last(), x);
        lemma_insert_by_start_multiset(s.drop_last(), x);
        let t = insert_by_start(s.drop_last(), x);
        assert forall|i: int| 0 <= i < t.len() implies t[i].start <= s.last().start by {
            assert(t.contains(t[i]));
            assert(t.to_multiset().count(t[i]) > 0);
            assert(s.drop_last().push(x).to_multiset().count(t[i]) > 0);
            assert(s.drop_last().push(x).contains(t[i]));
            let w = choose|w: int|
                0 <= w < s.drop_last().push(x).len() && s.drop_last().push(x)[w] == t[i];
            if w < s.len() - 1 {
                assert(s[w].start <= s.last().start);
            }
        }
        assert forall|i: int, j: int|
            0 <= i < j < t.push(s.last()).len() implies t.push(s.last())[i].start <= t.push(
            s.last(),
        )[j].start by {
            if j < t.len() {
            } else {
                assert(t.push(s.last())[j] == s.last());
            }
        }
    }
}

proof fn lemma_sort_by_start_spec_props(s: Seq<HighlightSpan>)
    ensures
        sorted_by_start(sort_by_start_spec(s)),
        sort_by_start_spec(s).to_multiset() == s.to_multiset(),
    decreases s.len(),
{
    if s.len() > 0 {
        lemma_sort_by_start_spec_props(s.drop_last());
        lemma_insert_by_start_sorted(sort_by_start_spec(s.drop_last()), s.last());
        lemma_insert_by_start_multiset(sort_by_start_spec(s.drop_last()), s.last());
        assert(s.drop_last().push(s.last()) =~= s);
        assert(sort_by_start_spec(s).to_multiset() =~= s.to_multiset());
    }
}

/// Sorts spans stably by start offset: the result is exactly the stable
/// sort of the input, so it holds the same spans, in a fully determined
/// order.
pub fn sort_spans(spans: &mut Vec<HighlightSpan>)
    ensures
        final(spans)@ == sort_by_start_spec(old(spans)@),
        sorted_by_start(final(spans)@),
        final(spans)@.to_multiset() == old(spans)@.to_multiset(),
{
    let mut out: Vec<HighlightSpan> = Vec::new();
    proof {
        assert(out@ =~= sort_by_start_spec(old(spans)@.take(0)));
    }
    let mut i: usize = 0;
    while i < spans.len()
        invariant
            i <= spans.len(),
            spans@ == old(spans)@,
            out@ =~= sort_by_start_spec(spans@.take(i as int)),
        decreases spans.len() - i,
    {
        let x = spans[i];
        let mut j: usize = out.len();
        while j > 0 && out[j - 1].start > x.start
            invariant
                j <= out@.len(),
                forall|k: int| j <= k < out@.len() ==> out@[k].start > x.start,
            decreases j,
        {
            j = j - 1;
        }
        let ghost pre = out@;
        out.insert(j, x);
        proof {
            lemma_insert_by_start_at(pre, x, j as int);
            assert(spans@.take(i + 1).drop_last() =~= spans@.take(i as int));
            assert(spans@.take(i + 1).last() == spans@[i as int]);
            assert(out@ =~= insert_by_start(sort_by_start_spec(spans@.take(i as int)), x));
        }
        i = i + 1;
    }
    proof {
        assert(spans@.take(spans@.len() as int) =~= spans@);
        lemma_sort_by_start_spec_props(old(spans)@);
    }
    *spans = out;
}

} // verus!

verus! {

/// Whether a fresh parser accepts the bundled Rust grammar and `query_text`
/// compiles against it. The grammar is a fixed constant of this crate, so
/// the outcome depends on the query text alone; the trusted runners below
/// apply this name.
pub uninterp spec fn rust_setup_succeeds(query_text: Seq<char>) -> bool;

/// The captures that running the compiled `query_text` over the syntax tree
/// of `source` yields, each one a capture name with its node's byte range,
/// in the order the query cursor reports them. The fixed grammar, the query
/// text and the source text determine the list, so it bears their name.
pub uninterp spec fn rust_captures(query_text: Seq<char>, source: Seq<char>) -> Seq<
    (Seq<char>, int, int),
>;

/// The name/byte-range triples of a capture list.
pub open spec fn caps_view(caps: Seq<RawCapture>) -> Seq<(Seq<char>, int, int)>
    decreases caps.len(),
{
    if caps.len() == 0 {
        Seq::<(Seq<char>, int, int)>::empty()
    } else {
        caps_view(caps.drop_last()).push(
            (caps.last().name@, caps.last().start as int, caps.last().end as int),
        )
    }
}

/// The spans of a named capture list: the same classification as
/// `classify_spec`, over name/byte-range triples.
pub open spec fn classify_caps(caps: Seq<(Seq<char>, int, int)>) -> Seq<HighlightSpan>
    decreases caps.len(),
{
    if caps.len() == 0 {
        Seq::<HighlightSpan>::empty()
    } else {
        classify_caps(caps.drop_last()) + match spec_capture_token(caps.last().0) {
            Option::Some(t) => seq![
                HighlightSpan {
                    start: caps.last().1 as usize,
                    end: caps.last().2 as usize,
                    token_type: t,
                },
            ],
            Option::None => Seq::<HighlightSpan>::empty(),
        }
    }
}

proof fn lemma_classify_caps_view(caps: Seq<RawCapture>)
    ensures
        classify_caps(caps_view(caps)) == classify_spec(caps),
    decreases caps.len(),
{
    if caps.len() > 0 {
        lemma_classify_caps_view(caps.drop_last());
        assert(caps_view(caps).drop_last() =~= caps_view(caps.drop_last()));
        assert(caps.last().start as int as usize == caps.last().start);
        assert(caps.last().end as int as usize == caps.last().end);
        assert(classify_caps(caps_view(caps)) =~= classify_spec(caps));
    }
}

proof fn lemma_classify_bounded(caps: Seq<RawCapture>)
    requires
        forall|i: int| 0 <= i < caps.len() ==> caps[i].start <= caps[i].end,
    ensures
        forall|j: int|
            0 <= j < classify_spec(caps).len() ==> #[trigger] classify_spec(caps)[j].start
                <= classify_spec(caps)[j].end,
    decreases caps.len(),
{
    if caps.len() > 0 {
        lemma_classify_bounded(caps.drop_last());
    }
}

proof fn lemma_same_spans_bounded(a: Seq<HighlightSpan>, b: Seq<HighlightSpan>)
    requires
        a.to_multiset() == b.to_multiset(),
        forall|i: int| 0 <= i < a.len() ==> #[trigger] a[i].start <= a[i].end,
    ensures
        forall|j: int| 0 <= j < b.len() ==> #[trigger] b[j].start <= b[j].end,
{
    assert forall|j: int| 0 <= j < b.len() implies #[trigger] b[j].start <= b[j].end by {
        assert(b.contains(b[j]));
        assert(b.to_multiset().count(b[j]) > 0);
        assert(a.contains(b[j]));
        let i = choose|i: int| 0 <= i < a.len() && a[i] == b[j];
        assert(a[i].start <= a[i].end);
    }
}

/// Relies on tree_sitter::Language::new over tree_sitter_rust::LANGUAGE,
/// tree_sitter::Parser::{new, set_language} and tree_sitter::Query::new:
/// whether a fresh parser accepts the bundled Rust grammar (a version
/// mismatch is the one way it refuses) and `query_text` compiles against it.
/// Both checks are deterministic in the grammar and the text, so the outcome
/// bears the name `rust_setup_succeeds`.
#[verifier::external_body]
fn rust_setup_probe(query_text: &str) -> (r: bool)
    ensures
        r == rust_setup_succeeds(query_text@),
{
    let language = Language::new(tree_sitter_rust::LANGUAGE);
    let mut parser = Parser::new();
    parser.set_language(&language).is_ok() && Query::new(&language, query_text).is_ok()
}

/// Relies on tree_sitter::Language::new over tree_sitter_rust::LANGUAGE,
/// Parser::{new, set_language}, Query::new, Parser::parse,
/// QueryCursor::matches and the capture accessors (Query::capture_names,
/// Node::{start_byte, end_byte}): builds the bundled Rust grammar, compiles
/// `query_text`, parses `source` with a fresh parser — one without timeout
/// or cancellation, which with a language set always yields a tree — and
/// collects every capture. Grammar, query text and source determine the
/// list, so it bears the name `rust_captures`; the bindings keep each node's
/// start byte at or before its end byte.
#[verifier::external_body]
fn rust_capture_run(query_text: &str, source: &str) -> (r: Option<Vec<RawCapture>>)
    ensures
        (r is Some) == rust_setup_succeeds(query_text@),
        r matches Some(caps) ==> caps_view(caps@) == rust_captures(query_text@, source@),
        r matches Some(caps) ==> (forall|i: int|
            0 <= i < caps@.len() ==> #[trigger] caps@[i].start <= caps@[i].end),
{
    let language = Language::new(tree_sitter_rust::LANGUAGE);
    let mut parser = Parser::new();
    parser.set_language(&language).ok()?;
    let query = Query::new(&language, query_text).ok()?;
    let tree = parser.parse(source, None)?;
    let (names, mut out) = (query.capture_names(), Vec::new());
    let mut cursor = QueryCursor::new();
    let mut matches = cursor.matches(&query, tree.root_node(), source.as_bytes());
    while let Some(m) = matches.next() {
        for c in m.captures() {
            out.push(RawCapture { name: names[c.index as usize].to_string(), start: c.node.start_byte(), end: c.node.end_byte() });
        }
    }
    Some(out)
}

/// The syntax highlighter: the query text of the selected language, run with
/// the crate's fixed grammar. Every call parses the text afresh with its own
/// parser, so the spans are a function of the selection and the text alone;
/// a cached parse tree could only speed that up, never change it, and two
/// instances share nothing.
pub struct Highlighter {
    query_source: Option<String>,
}

impl Highlighter {
    /// The query text of the selected language; nothing when no language is
    /// selected.
    pub closed spec fn selection(&self) -> Option<Seq<char>> {
        match self.query_source {
            Option::Some(s) => Option::Some(s@),
            Option::None => Option::None,
        }
    }

    /// Whether a language is selected, so highlighting can produce spans.
    pub open spec fn has_language(&self) -> bool {
        self.selection() is Some
    }

    /// A highlighter with no language selected: it highlights nothing.
    pub fn new() -> (r: Self)
        ensures
            !r.has_language(),
    {
        Highlighter { query_source: Option::None }
    }

    /// Selects the language for the file at `path`. It succeeds exactly when
    /// the registry knows the path, the fixed grammar is accepted and the
    /// registry's query text compiles against it; that text then becomes the
    /// selection. On any failure every trace of a previous selection is
    /// cleared; the caller treats that as "no highlighting", never as a hard
    /// error.
    pub fn set_language_from_path(&mut self, path: &str) -> (ok: bool)
        ensures
            ok == final(self).has_language(),
            ok == (languages::supports_path(path@) && rust_setup_succeeds(
                languages::rust_query(),
            )),
            ok ==> final(self).selection() == Option::Some(languages::rust_query()),
            !ok ==> (final(self).selection() is None),
    {
        match languages::get_language(path) {
            Option::Some(query_text) => {
                if rust_setup_probe(query_text) {
                    self.query_source = Option::Some(query_text.to_owned());
                    return true;
                }
            },
            Option::None => {},
        }
        self.query_source = Option::None;
        false
    }

    /// Highlights `source`. With no language selected the span list is empty
    /// and nothing changes. With one selected the result is pinned exactly:
    /// the named captures of the selection's query over the freshly parsed
    /// source, classified by the fixed table and stably sorted by start
    /// offset — or the empty list should the grammar setup fail. Spans
    /// always come back ordered by start offset, each one a well-formed
    /// range.
    pub fn highlight(&mut self, source: &str) -> (r: Vec<HighlightSpan>)
        ensures
            *final(self) == *old(self),
            !old(self).has_language() ==> r@ == Seq::<HighlightSpan>::empty(),
            old(self).selection() matches Some(q) ==> r@ == (
            if rust_setup_succeeds(q) {
                sort_by_start_spec(classify_caps(rust_captures(q, source@)))
            } else {
                Seq::<HighlightSpan>::empty()
            }),
            sorted_by_start(r@),
            forall|i: int| 0 <= i < r@.len() ==> #[trigger] r@[i].start <= r@[i].end,
    {
        let caps_opt = match &self.query_source {
            Option::Some(query_text) => rust_capture_run(query_text.as_str(), source),
            Option::None => Option::None,
        };
        match caps_opt {
            Option::None => {
                let r: Vec<HighlightSpan> = Vec::new();
                proof {
                    assert(r@ =~= Seq::<HighlightSpan>::empty());
                }
                r
            },
            Option::Some(caps) => {
                let mut spans = classify_captures(&caps);
                proof {
                    lemma_classify_bounded(caps@);
                    lemma_classify_caps_view(caps@);
                }
                let ghost unsorted = spans@;
                sort_spans(&mut spans);
                proof {
                    lemma_same_spans_bounded(unsorted, spans@);
                }
                spans
            },
        }
    }
}

impl Clone for Highlighter {
    /// An independent copy with the same language selection; the copy shares
    /// no state with the original, so using either never affects the other.
    fn clone(&self) -> (r: Self)
        ensures
            r.selection() == self.selection(),
    {
        let query_source = match &self.query_source {
            Option::Some(s) => Option::Some(s.clone()),
            Option::None => Option::None,
        };
        Highlighter { query_source }
    }
}

impl Default for Highlighter {
    /// The same as a fresh highlighter: no language selected.
    fn default() -> (r: Self)
        ensures
            !r.has_language(),
    {
        Highlighter::new()
    }
}

} // verus!
