//! Line-level parsing: markup stripping, amount extraction and
//! thousands formatting.

use evelog::amount::extract_amount;
use evelog::format::add_commas;
use evelog::format::u64_to_digits;
use evelog::markup::strip_markup;

#[test]
fn strips_single_span() {
    assert_eq!(strip_markup("a<b>c").as_str(), "ac");
}

#[test]
fn strips_multiple_spans_and_length_drops_by_their_sum() {
    let raw = "x<one>y<two>z";
    let cleaned = strip_markup(raw);
    assert_eq!(cleaned.as_str(), "xyz");
    // two spans of lengths 5 and 5
    assert_eq!(cleaned.chars().count(), raw.chars().count() - 10);
}

#[test]
fn unclosed_span_is_left_untouched() {
    assert_eq!(strip_markup("a<bc").as_str(), "a<bc");
    assert_eq!(strip_markup("tail<").as_str(), "tail<");
}

#[test]
fn span_swallows_inner_open_bracket() {
    assert_eq!(strip_markup("a<b<c>d").as_str(), "ad");
}

#[test]
fn stripping_empty_line_yields_empty() {
    assert_eq!(strip_markup("").as_str(), "");
}

#[test]
fn stripping_twice_is_a_no_op() {
    let once = strip_markup("m<i>x<j>ed >text< here");
    let twice = strip_markup(once.as_str());
    assert_eq!(once, twice);
}

#[test]
fn extracts_grouped_amount() {
    assert_eq!(extract_amount("Bounty: 1,234,567 ISK"), Some(1234567));
}

#[test]
fn extracts_plain_amount() {
    assert_eq!(extract_amount("500 ISK"), Some(500));
}

#[test]
fn no_amount_in_plain_text() {
    assert_eq!(extract_amount("no money here"), None);
}

#[test]
fn oversized_amount_is_a_failed_parse() {
    assert_eq!(extract_amount("999999999999999999999 ISK"), None);
}

#[test]
fn first_amount_wins() {
    assert_eq!(extract_amount("got 10 ISK then 20 ISK"), Some(10));
}

#[test]
fn amount_needs_the_marker() {
    assert_eq!(extract_amount("1,234 credits"), None);
    assert_eq!(extract_amount("1,234 ISKS"), None);
}

#[test]
fn amount_needs_a_word_boundary() {
    assert_eq!(extract_amount("x500 ISK"), None);
}

#[test]
fn four_groups_match_from_the_second() {
    // the pattern holds at most three digit groups, so the match
    // starts after the first group
    assert_eq!(extract_amount("1,234,567,890 ISK"), Some(234567890));
}

#[test]
fn add_commas_leaves_zero_alone() {
    assert_eq!(add_commas("0").as_str(), "0");
}

#[test]
fn add_commas_groups_thousands() {
    assert_eq!(add_commas("1000").as_str(), "1,000");
    assert_eq!(add_commas("1234567").as_str(), "1,234,567");
}

#[test]
fn add_commas_exact_multiples_of_three() {
    assert_eq!(add_commas("123456").as_str(), "123,456");
}

#[test]
fn u64_to_digits_renders_decimal() {
    assert_eq!(u64_to_digits(0).as_str(), "0");
    assert_eq!(u64_to_digits(1000).as_str(), "1000");
    assert_eq!(u64_to_digits(18446744073709551615).as_str(), "18446744073709551615");
}
