use commit_replay::syntax::{
    classify_captures, sort_spans, token_type_for_capture, HighlightSpan, Highlighter, RawCapture,
    TokenType,
};
use commit_replay::theme::Theme;

#[test]
fn capture_base_name_before_dot() {
    assert_eq!(token_type_for_capture("function.call"), Some(TokenType::Function));
    assert_eq!(token_type_for_capture("keyword.function"), Some(TokenType::Keyword));
    assert_eq!(token_type_for_capture("string"), Some(TokenType::String));
    assert_eq!(token_type_for_capture("punctuation.bracket"), Some(TokenType::Punctuation));
}

#[test]
fn skipped_captures_yield_nothing() {
    assert_eq!(token_type_for_capture("embedded"), None);
    assert_eq!(token_type_for_capture("none"), None);
    assert_eq!(token_type_for_capture("spell"), None);
    assert_eq!(token_type_for_capture("_op"), None);
    assert_eq!(token_type_for_capture("something.unknown"), None);
}

#[test]
fn classification_keeps_ranges_and_drops_unknown() {
    let caps = vec![
        RawCapture { name: String::from("function.call"), start: 4, end: 9 },
        RawCapture { name: String::from("embedded"), start: 0, end: 2 },
        RawCapture { name: String::from("comment"), start: 10, end: 20 },
    ];
    let spans = classify_captures(&caps);
    assert_eq!(spans.len(), 2);
    assert_eq!(spans[0], HighlightSpan { start: 4, end: 9, token_type: TokenType::Function });
    assert_eq!(spans[1], HighlightSpan { start: 10, end: 20, token_type: TokenType::Comment });
}

#[test]
fn sorting_orders_spans_by_start() {
    let mut spans = vec![
        HighlightSpan { start: 9, end: 10, token_type: TokenType::Comment },
        HighlightSpan { start: 0, end: 2, token_type: TokenType::Keyword },
        HighlightSpan { start: 4, end: 6, token_type: TokenType::Variable },
    ];
    sort_spans(&mut spans);
    let starts: Vec<usize> = spans.iter().map(|s| s.start).collect();
    assert_eq!(starts, vec![0, 4, 9]);
}

#[test]
fn highlighter_without_language_returns_no_spans() {
    let mut h = Highlighter::new();
    assert_eq!(h.highlight("fn main() {}").len(), 0);
    assert_eq!(h.highlight("").len(), 0);
}

#[test]
fn unsupported_path_clears_language() {
    let mut h = Highlighter::new();
    assert!(!h.set_language_from_path("notes.txt"));
    assert_eq!(h.highlight("fn main() {}").len(), 0);
}

#[test]
fn rust_source_highlights_sorted_and_repeatable() {
    let mut h = Highlighter::new();
    assert!(h.set_language_from_path("src/main.rs"));
    let src = "// note\nfn main() { let x = 1; }\n";
    let first = h.highlight(src);
    assert!(!first.is_empty(), "expected spans for Rust source");
    for w in first.windows(2) {
        assert!(w[0].start <= w[1].start, "spans must be sorted by start");
    }
    for s in &first {
        assert!(s.start <= s.end);
    }
    let second = h.highlight(src);
    assert_eq!(first, second, "identical text must highlight identically");
}

#[test]
fn cloned_highlighter_keeps_selection_with_empty_cache() {
    let mut h = Highlighter::new();
    assert!(h.set_language_from_path("lib.rs"));
    let src = "fn id(x: u32) -> u32 { x }";
    let original = h.highlight(src);
    let mut copy = h.clone();
    let copied = copy.highlight(src);
    assert_eq!(original, copied);
}

#[test]
fn token_colors_follow_theme() {
    let theme = Theme::default();
    assert_eq!(TokenType::Comment.color(&theme), theme.syntax_comment);
    assert_eq!(TokenType::Keyword.color(&theme), theme.syntax_keyword);
    assert_eq!(TokenType::String.color(&theme), theme.syntax_string);
    assert_eq!(TokenType::Variable.color(&theme), theme.syntax_variable);
}

#[test]
fn sorting_is_stable_for_equal_starts() {
    let mut spans = vec![
        HighlightSpan { start: 4, end: 9, token_type: TokenType::Keyword },
        HighlightSpan { start: 0, end: 2, token_type: TokenType::Comment },
        HighlightSpan { start: 4, end: 6, token_type: TokenType::Variable },
        HighlightSpan { start: 4, end: 7, token_type: TokenType::Number },
    ];
    sort_spans(&mut spans);
    assert_eq!(spans[0].token_type, TokenType::Comment);
    assert_eq!(spans[1].token_type, TokenType::Keyword);
    assert_eq!(spans[2].token_type, TokenType::Variable);
    assert_eq!(spans[3].token_type, TokenType::Number);
}

#[test]
fn reselecting_a_language_keeps_highlighting_deterministic() {
    let mut a = Highlighter::new();
    let mut b = Highlighter::new();
    assert!(a.set_language_from_path("one.rs"));
    assert!(b.set_language_from_path("two.rs"));
    let src = "fn twice(n: u32) -> u32 { n + n }";
    assert_eq!(a.highlight(src), b.highlight(src));
}
