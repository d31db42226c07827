//! Keyword classification, line splitting and colors.

use evelog::highlight::classify_keyword;
use evelog::highlight::highlight_line;
use evelog::highlight::Category;
use evelog::highlight::Color;

#[test]
fn hint_line_splits_around_the_keyword() {
    let words = vec!["hint".to_string()];
    let h = highlight_line("Target (hint) here", &words).unwrap();
    assert_eq!(h.before.as_str(), "Target (");
    assert_eq!(h.keyword.as_str(), "hint");
    assert_eq!(h.after.as_str(), ") here");
    assert_eq!(h.category, Category::Hint);
}

#[test]
fn parenthesised_hint_routes_to_the_same_class() {
    let words = vec!["(hint)".to_string()];
    let h = highlight_line("Target (hint) here", &words).unwrap();
    assert_eq!(h.before.as_str(), "Target ");
    assert_eq!(h.keyword.as_str(), "(hint)");
    assert_eq!(h.after.as_str(), " here");
    assert_eq!(h.category, Category::Hint);
}

#[test]
fn classification_ignores_ascii_case_and_parentheses() {
    assert_eq!(classify_keyword("hint"), Category::Hint);
    assert_eq!(classify_keyword("(hint)"), Category::Hint);
    assert_eq!(classify_keyword("HINT"), Category::Hint);
    assert_eq!(classify_keyword("combat"), Category::Combat);
    assert_eq!(classify_keyword("notify"), Category::Notify);
    assert_eq!(classify_keyword("bounty"), Category::Bounty);
    assert_eq!(classify_keyword("none"), Category::NoneKeyword);
    assert_eq!(classify_keyword("anything else"), Category::Fallback);
    assert_eq!(classify_keyword("(hint"), Category::Fallback);
}

#[test]
fn each_class_keeps_its_color() {
    assert_eq!(Category::Hint.color(), Color::Yellow);
    assert_eq!(Category::Combat.color(), Color::Red);
    assert_eq!(Category::Notify.color(), Color::Violet);
    assert_eq!(Category::Bounty.color(), Color::Green);
    assert_eq!(Category::NoneKeyword.color(), Color::Blue);
    assert_eq!(Category::Fallback.color(), Color::Cyan);
}

#[test]
fn first_configured_keyword_wins() {
    let words = vec!["combat".to_string(), "hint".to_string()];
    let h = highlight_line("a hint of combat", &words).unwrap();
    assert_eq!(h.keyword.as_str(), "combat");
    assert_eq!(h.before.as_str(), "a hint of ");
    assert_eq!(h.after.as_str(), "");
}

#[test]
fn split_uses_first_occurrence() {
    let words = vec!["ab".to_string()];
    let h = highlight_line("xabyabz", &words).unwrap();
    assert_eq!(h.before.as_str(), "x");
    assert_eq!(h.after.as_str(), "yabz");
}

#[test]
fn unmatched_line_yields_nothing() {
    let words = vec!["hint".to_string()];
    assert!(highlight_line("quiet line", &words).is_none());
}

#[test]
fn no_keywords_yield_nothing() {
    let words: Vec<String> = Vec::new();
    assert!(highlight_line("any line", &words).is_none());
}
