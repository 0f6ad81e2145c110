use doxx::heading::{
    detect_heading_from_paragraph_style, detect_heading_from_text, detect_heading_with_numbering,
    determine_heading_level_from_text, extract_heading_number_from_text,
    heading_number_from_groups,
};
use doxx::heuristics::{is_likely_list_item, is_likely_sentence};
use doxx::model::{Numbering, RawParagraph, Run, RunPiece, TextFormatting};
use doxx::numbering::{reconstruct_heading_number, HeadingNumberTracker};

fn text_run(text: &str) -> Run {
    Run {
        pieces: vec![RunPiece::Text(text.to_string())],
        bold: false,
        italic: false,
        underline: false,
        color: None,
    }
}

fn styled(style: &str, text: &str) -> RawParagraph {
    RawParagraph { style: Some(style.to_string()), numbering: None, runs: vec![text_run(text)] }
}

fn bold() -> TextFormatting {
    TextFormatting { bold: true, ..TextFormatting::default() }
}

#[test]
fn test_heading_number_extraction() {
    // Test most common formats (decimal hierarchical)
    assert_eq!(
        extract_heading_number_from_text("1. Introduction"),
        Some(("1".to_string(), "Introduction".to_string()))
    );

    assert_eq!(
        extract_heading_number_from_text("1.1 Project Overview"),
        Some(("1.1".to_string(), "Project Overview".to_string()))
    );

    assert_eq!(
        extract_heading_number_from_text("2.1.1 Something Important"),
        Some(("2.1.1".to_string(), "Something Important".to_string()))
    );

    // Test alternative numbering schemes
    assert_eq!(
        extract_heading_number_from_text("A. First Section"),
        Some(("A".to_string(), "First Section".to_string()))
    );

    assert_eq!(
        extract_heading_number_from_text("I. Roman Numeral"),
        Some(("I".to_string(), "Roman Numeral".to_string()))
    );

    // Test section numbering
    assert_eq!(
        extract_heading_number_from_text("Section 1.2 Overview"),
        Some(("Section 1.2".to_string(), "Overview".to_string()))
    );

    // Test no numbering (should fall back to automatic generation)
    assert_eq!(extract_heading_number_from_text("Introduction"), None);
}

#[test]
fn heading_number_of_blank_text_is_none() {
    assert_eq!(extract_heading_number_from_text(""), None);
    assert_eq!(extract_heading_number_from_text("   \t "), None);
}

#[test]
fn heading_number_is_taken_from_trimmed_text() {
    assert_eq!(
        extract_heading_number_from_text("  3.2.  Results \n"),
        Some(("3.2".to_string(), "Results".to_string()))
    );
    assert_eq!(
        extract_heading_number_from_text("Chapter 7 The End"),
        Some(("Chapter 7".to_string(), "The End".to_string()))
    );
    assert_eq!(
        extract_heading_number_from_text("XIV. Appendix"),
        Some(("XIV".to_string(), "Appendix".to_string()))
    );
}

#[test]
fn groups_are_stripped_and_trimmed() {
    assert_eq!(
        heading_number_from_groups("1.2...", "  Overview  "),
        Some(("1.2".to_string(), "Overview".to_string()))
    );
    assert_eq!(heading_number_from_groups("...", "Overview"), None);
    assert_eq!(heading_number_from_groups("1.", "   "), None);
}

#[test]
fn auto_numbering_is_stateful() {
    let mut tracker = HeadingNumberTracker::new();
    assert_eq!(tracker.get_number(1), "1");
    assert_eq!(tracker.get_number(1), "2");
    assert_eq!(tracker.get_number(2), "2.1");
    assert_eq!(tracker.count_at(2), 1);
    assert_eq!(tracker.get_number(1), "3");
    assert_eq!(tracker.count_at(2), 0);
    assert_eq!(tracker.get_number(2), "3.1");
}

#[test]
fn three_level_one_headings_count_up() {
    let mut tracker = HeadingNumberTracker::new();
    assert_eq!(tracker.get_number(1), "1");
    assert_eq!(tracker.get_number(1), "2");
    assert_eq!(tracker.get_number(1), "3");
}

#[test]
fn unvisited_ancestor_levels_are_left_out() {
    let mut tracker = HeadingNumberTracker::new();
    assert_eq!(tracker.get_number(3), "1");
    assert_eq!(tracker.get_number(3), "2");
    assert_eq!(tracker.get_number(1), "1");
    assert_eq!(tracker.get_number(3), "1.1");
    assert_eq!(tracker.get_number(2), "1.1");
    assert_eq!(tracker.get_number(6), "1.1.1");
    assert_eq!(tracker.get_number(9), "1.1.2");
    assert_eq!(tracker.get_number(0), "2");
}

#[test]
fn counters_run_past_nine() {
    let mut tracker = HeadingNumberTracker::new();
    let mut last = String::new();
    for _ in 0..12 {
        last = tracker.get_number(1);
    }
    assert_eq!(last, "12");
    assert_eq!(tracker.get_number(2), "12.1");
}

#[test]
fn synthesized_numbers_follow_the_table() {
    assert_eq!(reconstruct_heading_number(7, 0, 1), "1");
    assert_eq!(reconstruct_heading_number(7, 1, 2), "1.1");
    assert_eq!(reconstruct_heading_number(7, 2, 3), "1.1.1");
    assert_eq!(reconstruct_heading_number(7, 3, 4), "1.1.1.1");
    assert_eq!(reconstruct_heading_number(7, 0, 3), "1.1.1");
    assert_eq!(reconstruct_heading_number(7, 5, 2), "1.1");
    assert_eq!(reconstruct_heading_number(7, 0, 6), "1.1.1.1");
}

#[test]
fn style_gives_the_level() {
    assert_eq!(detect_heading_from_paragraph_style(&styled("Heading1", "x")), Some(1));
    assert_eq!(detect_heading_from_paragraph_style(&styled("heading3", "x")), Some(3));
    assert_eq!(detect_heading_from_paragraph_style(&styled("HEADING 2", "x")), Some(2));
    assert_eq!(detect_heading_from_paragraph_style(&styled("Heading9", "x")), Some(6));
    assert_eq!(detect_heading_from_paragraph_style(&styled("Heading0", "x")), Some(1));
    assert_eq!(detect_heading_from_paragraph_style(&styled("Heading", "x")), Some(1));
    assert_eq!(detect_heading_from_paragraph_style(&styled("Normal", "x")), None);
    assert_eq!(detect_heading_from_paragraph_style(&styled("Head1", "x")), None);
    let plain = RawParagraph { style: None, numbering: None, runs: vec![text_run("x")] };
    assert_eq!(detect_heading_from_paragraph_style(&plain), None);
}

#[test]
fn styled_heading_takes_the_typed_number_first() {
    let mut para = styled("Heading2", "1.1 Project Overview");
    para.numbering = Some(Numbering { id: Some(4), level: Some(1) });
    let info = detect_heading_with_numbering(&para).unwrap();
    assert_eq!(info.level, 2);
    assert_eq!(info.number, Some("1.1".to_string()));
    assert_eq!(info.clean_text, Some("Project Overview".to_string()));
}

#[test]
fn styled_heading_takes_the_metadata_number_second() {
    let mut para = styled("Heading3", "  Methods ");
    para.numbering = Some(Numbering { id: Some(4), level: None });
    let info = detect_heading_with_numbering(&para).unwrap();
    assert_eq!(info.level, 3);
    assert_eq!(info.number, Some("1.1.1".to_string()));
    assert_eq!(info.clean_text, Some("Methods".to_string()));

    para.numbering = Some(Numbering { id: None, level: Some(2) });
    let info = detect_heading_with_numbering(&para).unwrap();
    assert_eq!(info.number, None);
    assert_eq!(info.clean_text, None);
}

#[test]
fn styled_heading_without_signal_has_no_number() {
    let info = detect_heading_with_numbering(&styled("Heading1", "Introduction")).unwrap();
    assert_eq!(info.level, 1);
    assert_eq!(info.number, None);
    assert_eq!(info.clean_text, None);
    assert!(detect_heading_with_numbering(&styled("Normal", "1. Introduction")).is_none());
}

#[test]
fn level_follows_the_length_of_the_text() {
    assert_eq!(determine_heading_level_from_text("Short"), 1);
    assert_eq!(determine_heading_level_from_text("1234567890123456789"), 1);
    assert_eq!(determine_heading_level_from_text("12345678901234567890"), 2);
    assert_eq!(determine_heading_level_from_text("123456789012345678901234567890123456789"), 2);
    assert_eq!(determine_heading_level_from_text("1234567890123456789012345678901234567890"), 3);
}

#[test]
fn bold_short_text_is_a_heading() {
    assert_eq!(detect_heading_from_text("Summary of Results", &bold()), Some(1));
    assert_eq!(detect_heading_from_text("Summary of Results:", &bold()), None);
    assert_eq!(detect_heading_from_text("Short", &bold()), None);
    assert_eq!(
        detect_heading_from_text("Quarterly Revenue Growth Figures", &bold()),
        Some(2)
    );
}

#[test]
fn capital_text_is_a_level_one_heading() {
    let plain = TextFormatting::default();
    assert_eq!(detect_heading_from_text("EXECUTIVE SUMMARY 2024", &plain), Some(1));
    assert_eq!(detect_heading_from_text("SHORT CAPS", &plain), None);
}

#[test]
fn division_words_make_a_heading() {
    let plain = TextFormatting::default();
    assert_eq!(detect_heading_from_text("Chapter One", &plain), Some(1));
    assert_eq!(detect_heading_from_text("Section 4 of this long document", &plain), Some(2));
    assert_eq!(detect_heading_from_text("Part x", &plain), Some(1));
}

#[test]
fn short_phrase_is_a_heading() {
    let plain = TextFormatting::default();
    assert_eq!(detect_heading_from_text("Project Overview", &plain), Some(1));
    assert_eq!(detect_heading_from_text("project overview", &plain), None);
    assert_eq!(detect_heading_from_text("Project Overview.", &plain), None);
    assert_eq!(detect_heading_from_text("A b c d e f g h", &plain), None);
    assert_eq!(detect_heading_from_text("Q1 2024 Plans", &plain), Some(1));
    assert_eq!(detect_heading_from_text("Q1 2024 55555", &plain), None);
    assert_eq!(detect_heading_from_text("Q1 2024 Pl4ns", &plain), None);
    assert_eq!(detect_heading_from_text("Project Overview)", &plain), None);
    assert_eq!(detect_heading_from_text("Project Overview:", &plain), None);
    assert_eq!(detect_heading_from_text("Overview (draft) here", &plain), Some(2));
}

#[test]
fn sentences_and_list_items_are_no_headings() {
    assert_eq!(detect_heading_from_text("Costs and Benefits", &bold()), None);
    assert_eq!(detect_heading_from_text("Plan for Growth", &bold()), None);
    assert_eq!(detect_heading_from_text("• Bullet Heading", &bold()), None);
    assert_eq!(detect_heading_from_text("☐ Open Task Item", &bold()), None);
    assert_eq!(detect_heading_from_text("Line one\nLine two", &bold()), None);
    let long = "x".repeat(100);
    assert_eq!(detect_heading_from_text(&long, &bold()), None);
}

#[test]
fn list_item_predicate() {
    assert!(is_likely_list_item("• First item"));
    assert!(is_likely_list_item("- dash"));
    assert!(is_likely_list_item("  * star"));
    assert!(is_likely_list_item("a. lettered"));
    assert!(is_likely_list_item("B. lettered"));
    assert!(is_likely_list_item("1. This is a long enough numbered item"));
    assert!(!is_likely_list_item("1. Introduction"));
    assert!(!is_likely_list_item("1 no dot but a long enough text here"));
    assert!(!is_likely_list_item("Plain text"));
    assert!(!is_likely_list_item("•No space"));
    assert!(!is_likely_list_item(""));
}

#[test]
fn sentence_predicate() {
    assert!(is_likely_sentence("One. Two. Three"));
    assert!(!is_likely_sentence("One. Two"));
    assert!(is_likely_sentence("salt and pepper"));
    assert!(is_likely_sentence("slow but steady"));
    assert!(is_likely_sentence("it is however late"));
    assert!(is_likely_sentence("we therefore stop"));
    let long = format!("{}.", "y".repeat(80));
    assert!(is_likely_sentence(&long));
    let short = format!("{}.", "y".repeat(79));
    assert!(!is_likely_sentence(&short));
    assert!(!is_likely_sentence("Heading"));
}
