use ink_gateway::context::{truncate_summary, truncate_to_last_words};
use ink_gateway::instructions::extract_ink_instructions;
use ink_gateway::progress::{fit_review, load_word_count, review_word_limit};

fn long_paragraph(tag: &str) -> String {
    let mut words = Vec::new();
    for i in 0..16 {
        words.push(format!("{}{}", tag, i));
    }
    words.join(" ")
}

#[test]
fn summary_falls_back_to_all_paragraphs() {
    let text = "Session one.\n\nSession two.\n\nSession three.";
    assert_eq!(truncate_summary(text, 2), "Session two.\n\nSession three.");
}

#[test]
fn summary_prefers_substantive_paragraphs() {
    let a = long_paragraph("a");
    let b = long_paragraph("b");
    let text = format!("{}\n\nShort line.\n\n{}\n\nAnother short one.", a, b);
    assert_eq!(truncate_summary(&text, 5), format!("{}\n\n{}", a, b));
    assert_eq!(truncate_summary(&text, 1), b);
}

#[test]
fn summary_truncation_is_idempotent() {
    let a = long_paragraph("x");
    let b = long_paragraph("y");
    let c = long_paragraph("z");
    let text = format!("  {}\n\n\n\n{}\n\nterse\n\n{}  \n", a, b, c);
    let once = truncate_summary(&text, 2);
    assert_eq!(once, format!("{}\n\n{}", b, c));
    assert_eq!(truncate_summary(&once, 2), once);
}

#[test]
fn summary_with_zero_entries_is_empty() {
    assert_eq!(truncate_summary("one\n\ntwo", 0), "");
    assert_eq!(truncate_summary("", 3), "");
}

#[test]
fn summary_splits_on_leftmost_blank_line() {
    assert_eq!(truncate_summary("a\n\n\nb", 5), "a\n\nb");
}

#[test]
fn word_budget_keeps_oversized_final_paragraph() {
    let text = "one two\n\nthree four five six";
    assert_eq!(truncate_to_last_words(text, 2), "three four five six");
}

#[test]
fn word_budget_keeps_whole_trailing_paragraphs() {
    let text = "a b\n\nc d\n\ne f";
    assert_eq!(truncate_to_last_words(text, 4), "c d\n\ne f");
    assert_eq!(truncate_to_last_words(text, 6), "a b\n\nc d\n\ne f");
    assert_eq!(truncate_to_last_words(text, 3), "e f");
}

#[test]
fn word_budget_of_empty_text_is_empty() {
    assert_eq!(truncate_to_last_words("  \n\n ", 10), "");
}

#[test]
fn single_directive_round_trip() {
    let text = "The night fell. <!-- INK: make it darker --> Then morning.";
    let (stripped, found) = extract_ink_instructions(text);
    assert_eq!(stripped, "The night fell.  Then morning.");
    assert_eq!(found.len(), 1);
    assert_eq!(found[0].anchor, "The night fell.");
    assert_eq!(found[0].instruction, "make it darker");
}

#[test]
fn engine_markers_are_preserved() {
    let text = "<!-- INK:NEW: chapter start -->Prose here.";
    let (stripped, found) = extract_ink_instructions(text);
    assert_eq!(stripped, text);
    assert!(found.is_empty());
}

#[test]
fn directive_cannot_span_lines() {
    let text = "x <!-- INK: one\ntwo --> y";
    let (stripped, found) = extract_ink_instructions(text);
    assert_eq!(stripped, text);
    assert!(found.is_empty());
}

#[test]
fn directive_body_is_shortest_match() {
    let text = "<!-- INK: a --> mid <!-- INK: b -->";
    let (stripped, found) = extract_ink_instructions(text);
    assert_eq!(stripped, " mid ");
    assert_eq!(found.len(), 2);
    assert_eq!(found[0].instruction, "a");
    assert_eq!(found[1].instruction, "b");
    assert_eq!(found[1].anchor, "<!-- INK: a --> mid");
}

#[test]
fn anchor_is_capped_at_two_hundred_chars() {
    let prefix = "é".repeat(300);
    let text = format!("{}<!-- INK: go -->", prefix);
    let (stripped, found) = extract_ink_instructions(&text);
    assert_eq!(stripped, prefix);
    assert_eq!(found[0].anchor.chars().count(), 200);
    assert_eq!(found[0].instruction, "go");
}

#[test]
fn anchor_stops_at_text_start() {
    let (_, found) = extract_ink_instructions("  Hi <!-- INK:  spaced  -->");
    assert_eq!(found[0].anchor, "Hi");
    assert_eq!(found[0].instruction, "spaced");
}

#[test]
fn review_limit_from_budget() {
    assert_eq!(review_word_limit(0), None);
    assert_eq!(review_word_limit(60_000), Some(2_000));
    assert_eq!(review_word_limit(1), Some(2_000));
    assert_eq!(review_word_limit(87_000), Some(20_000));
    assert_eq!(review_word_limit(60_027), Some(20));
}

#[test]
fn review_fitting_cuts_only_over_budget() {
    let text = "a b c\n\nd e";
    assert_eq!(fit_review(text, 0), text);
    assert_eq!(fit_review(text, 60_005), "d e");
    assert_eq!(fit_review(text, 60_007), text);
    assert_eq!(fit_review(text, 60_010), text);
}

#[test]
fn word_totals() {
    let w = load_word_count(Some("one two  three\nfour"), 10);
    assert_eq!((w.total, w.target, w.remaining), (4, 10, 6));
    let w = load_word_count(None, 7);
    assert_eq!((w.total, w.target, w.remaining), (0, 7, 7));
    let w = load_word_count(Some("a b c"), 2);
    assert_eq!(w.remaining, 0);
}
