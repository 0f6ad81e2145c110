use doxx::cell::detect_cell_data_type;
use doxx::model::{CellDataType, TableCell};
use doxx::ui::{display_search_result, hex_to_color, safe_truncate_bytes};
use unicode_segmentation::UnicodeSegmentation;

/// Cutting at a byte offset inside a character must be avoided.
#[test]
fn test_unicode_string_slicing_now_safe() {
    // This string has emojis that are multi-byte UTF-8 characters;
    // byte position 77 falls inside one of them
    let text_with_emojis =
        "🚀🎉💻🔥🌟⭐️✨💫🌈🦄🎯🎪🎨🎭🎪🎨🎭🎪🎨🎭🎪🎨🎭🎪🎨🎭🎪🎨🎭🎪🎨🎭🎪🎨🎭🎪🎨🎭";

    // The largest boundary of a character at or below the limit
    let max_bytes = 77;
    let safe_boundary = if text_with_emojis.len() <= max_bytes {
        text_with_emojis.len()
    } else {
        let mut boundary = max_bytes;
        while boundary > 0 && !text_with_emojis.is_char_boundary(boundary) {
            boundary -= 1;
        }
        boundary
    };

    // Cutting there is safe
    let _safe_truncated = &text_with_emojis[..safe_boundary];
    println!("Safe truncation at boundary {safe_boundary}: working correctly");
    assert_eq!(safe_truncate_bytes(text_with_emojis, max_bytes), _safe_truncated);
}

/// Truncation by grapheme clusters
#[test]
fn test_safe_unicode_truncation() {
    let text_with_emojis =
        "🚀🎉💻🔥🌟⭐️✨💫🌈🦄🎯🎪🎨🎭🎪🎨🎭🎪🎨🎭🎪🎨🎭🎪🎨🎭🎪🎨🎭🎪🎨🎭🎪🎨🎭🎪🎨🎭";

    // Safe truncation using unicode-segmentation
    let max_chars = 10;
    let safe_truncated: String = text_with_emojis.graphemes(true).take(max_chars).collect();

    // This should work without panicking
    assert_eq!(safe_truncated.graphemes(true).count(), max_chars);
    println!("Safe truncation: {safe_truncated}");
    assert_eq!(TableCell::new(safe_truncated).display_width(), max_chars);
}

/// Different kinds of Unicode text
#[test]
fn test_various_unicode_characters() {
    let test_cases = vec![
        ("Simple ASCII", "Hello World"),
        ("Accented chars", "café naïve résumé jalapeño"),
        ("CJK text", "你好世界 こんにちは 안녕하세요"),
        ("Emojis", "🚀 🎉 💻 🔥"),
        ("Complex emojis", "👨‍💻 👩‍🔬 🏴‍☠️ 🏳️‍🌈"),
        ("Math symbols", "∑ ∫ ∞ ≠ ≤ ≥ √ ∂"),
        (
            "Special quotes",
            "\"curly quotes\" 'single quotes' —em dash— …ellipsis",
        ),
    ];

    for (name, text) in test_cases {
        println!("Testing {name}: {text}");

        // None of these texts may panic when handled
        let char_count = text.chars().count();
        let byte_count = text.len();
        let grapheme_count = text.graphemes(true).count();

        println!("  Chars: {char_count}, Bytes: {byte_count}, Graphemes: {grapheme_count}");
        assert_eq!(TableCell::new(text.to_string()).display_width(), grapheme_count);
        assert_eq!(detect_cell_data_type(text), CellDataType::Text);

        if byte_count > 10 {
            // Safe alternative using char boundaries
            let safe_slice: String = text.chars().take(10).collect();
            println!("  Safe slice (10 chars): {safe_slice}");
            let cut = safe_truncate_bytes(text, 10);
            assert!(cut.len() <= 10);
            assert!(text.starts_with(&cut));
        }
    }
}

/// A long search result with emojis is cut where a character ends
#[test]
fn test_search_result_truncation_issue() {
    // A search result with Unicode content
    struct SearchResult {
        text: String,
    }

    let result = SearchResult {
        text: "Found emoji result: 🚀🎉💻🔥🌟⭐️✨💫🌈🦄🎯🎪🎨🎭🎪🎨🎭🎪🎨🎭🎪🎨🎭🎪🎨🎭🎪🎨🎭🎪🎨🎭🎪🎨🎭🎪🎨🎭".to_string(),
    };

    println!("Text length in bytes: {}", result.text.len());
    println!("Text length in chars: {}", result.text.chars().count());

    if result.text.len() > 77 {
        // Cutting by characters is always safe
        let safe_truncated: String = result.text.chars().take(40).collect();
        println!("Safe truncation: {safe_truncated}");
    }
    let shown = display_search_result(&result.text);
    assert!(shown.ends_with("..."));
    assert!(shown.len() <= 80);
    assert!(result.text.starts_with(&shown[..shown.len() - 3]));
}

/// The cut is made at the largest boundary at or below 77 bytes
#[test]
fn test_safe_truncation_fix() {
    // A text whose byte 77 lies inside a character
    let mut text = String::new();
    text.push_str("Search result with some normal text and then emojis: ");
    text.push_str("🚀🎉💻🔥🌟⭐️✨💫🌈🦄");

    // Find the largest valid boundary <= 77
    let max_bytes = 77;
    let safe_boundary = if text.len() <= max_bytes {
        text.len()
    } else {
        let mut boundary = max_bytes;
        while boundary > 0 && !text.is_char_boundary(boundary) {
            boundary -= 1;
        }
        boundary
    };

    let safe_truncated = &text[..safe_boundary];
    println!("Safe truncation: {safe_truncated}...");

    // This should never panic
    assert!(text.is_char_boundary(safe_boundary));
    assert_eq!(safe_truncate_bytes(&text, max_bytes), safe_truncated);
    assert_eq!(display_search_result(&text), format!("{safe_truncated}..."));
}

/// A result as it comes from a document
#[test]
fn test_with_actual_search_results() {
    // What the search hands to the display
    struct SearchResult {
        text: String,
    }

    // A search result with emojis near the limit
    let result = SearchResult {
        text:
            "Directions: A rebus story combines words and pictures 🚀🎉💻🔥🌟⭐️✨💫🌈🦄🎯🎪🎨🎭"
                .to_string(),
    };

    println!("Result text length: {} bytes", result.text.len());

    // Whether byte 77 is a boundary
    if result.text.len() > 80 {
        println!("Text is longer than 80 bytes, truncation would be applied");
        println!("Is position 77 safe? {}", result.text.is_char_boundary(77));

        if !result.text.is_char_boundary(77) {
            println!("❌ Position 77 is NOT a char boundary - this would panic!");
            // Don't actually slice to avoid panic in test
        } else {
            println!("✅ Position 77 is safe");
            let _safe_slice = &result.text[..77];
        }
    }
    let shown = display_search_result(&result.text);
    assert!(shown.len() <= 80);
}

#[test]
fn truncation_keeps_whole_characters() {
    assert_eq!(safe_truncate_bytes("héllo", 2), "h");
    assert_eq!(safe_truncate_bytes("héllo", 3), "hé");
    assert_eq!(safe_truncate_bytes("héllo", 0), "");
    assert_eq!(safe_truncate_bytes("héllo", 100), "héllo");
    assert_eq!(safe_truncate_bytes("🚀x", 3), "");
    assert_eq!(safe_truncate_bytes("🚀x", 4), "🚀");
}

#[test]
fn short_results_are_shown_whole() {
    let text = "x".repeat(80);
    assert_eq!(display_search_result(&text), text);
    let text = "x".repeat(81);
    assert_eq!(display_search_result(&text), format!("{}...", "x".repeat(77)));
}

#[test]
fn colours_are_read_from_six_hex_digits() {
    assert_eq!(hex_to_color("#FF0000"), Some((255, 0, 0)));
    assert_eq!(hex_to_color("00ff7f"), Some((0, 255, 127)));
    assert_eq!(hex_to_color("##0A0b0C"), Some((10, 11, 12)));
    assert_eq!(hex_to_color("+f+f+f"), Some((15, 15, 15)));
    assert_eq!(hex_to_color("#FFF"), None);
    assert_eq!(hex_to_color("GG0000"), None);
    assert_eq!(hex_to_color("#FF00000"), None);
    assert_eq!(hex_to_color(""), None);
}

#[test]
fn width_counts_grapheme_clusters_not_bytes() {
    let combining = TableCell::new("e\u{301}".to_string());
    assert_eq!(combining.display_width(), 1);
    assert_eq!(combining.content.len(), 3);
    let family = TableCell::new("👨‍👩‍👧".to_string());
    assert_eq!(family.display_width(), 1);
    assert_eq!(family.content.len(), 18);
    assert_eq!(TableCell::new("abc".to_string()).display_width(), 3);
    assert_eq!(TableCell::new(String::new()).display_width(), 0);
}
