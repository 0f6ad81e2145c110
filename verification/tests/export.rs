use doxx::ai::{
    analyze_document_full, analyze_risks, answer_question, describe_images, extract_action_items,
    summarize_document, AIConfig, AIConfigError, AIProvider, OllamaClient, RiskSeverity,
};
use doxx::citations::{extract_bibliography, extract_citations, CitationType};
use doxx::export::{
    align_text_cell_content, csv_lines, escape_csv_field, format_as_text,
    generate_text_table_border, markdown_text, plain_text, render_text_table_row, ExportFormat,
};
use doxx::model::{
    Document, DocumentElement, DocumentMetadata, ListItem, TableCell, TableData, TextAlignment,
    TextFormatting,
};
use doxx::ui::{
    align_cell_content, apply_cell_formatting, generate_table_border, render_table_row, App,
    BorderType, CopyOutcome, Key, ViewMode, ViewerAction, ViewerOptions,
};

fn heading(level: u8, text: &str, number: Option<&str>) -> DocumentElement {
    DocumentElement::Heading {
        level,
        text: text.to_string(),
        number: number.map(|n| n.to_string()),
    }
}

fn paragraph(text: &str) -> DocumentElement {
    DocumentElement::Paragraph { text: text.to_string(), formatting: TextFormatting::default() }
}

fn list(items: &[(&str, u8)], ordered: bool) -> DocumentElement {
    DocumentElement::List {
        items: items.iter().map(|(t, l)| ListItem { text: t.to_string(), level: *l }).collect(),
        ordered,
    }
}

fn cells(texts: &[&str]) -> Vec<TableCell> {
    texts.iter().map(|t| TableCell::new(t.to_string())).collect()
}

fn table() -> DocumentElement {
    DocumentElement::Table {
        table: TableData::new(
            cells(&["Name", "Age"]),
            vec![cells(&["Alice", "25"]), cells(&["Bob, Jr.", "yes"])],
        ),
    }
}

fn document(elements: Vec<DocumentElement>) -> Document {
    Document {
        title: "Report".to_string(),
        metadata: DocumentMetadata {
            file_path: "/tmp/report.docx".to_string(),
            file_size: 10,
            word_count: 300,
            page_count: 2,
            created: None,
            modified: None,
            author: None,
        },
        elements,
    }
}

fn options() -> ViewerOptions {
    ViewerOptions { outline: false, search: None, page: None, color: false }
}

#[test]
fn csv_fields_are_quoted_when_needed() {
    assert_eq!(escape_csv_field("plain"), "plain");
    assert_eq!(escape_csv_field("a,b"), "\"a,b\"");
    assert_eq!(escape_csv_field("say \"hi\""), "\"say \"\"hi\"\"\"");
    assert_eq!(escape_csv_field("two\nlines"), "\"two\nlines\"");
    assert_eq!(escape_csv_field(""), "");
}

#[test]
fn csv_export_lists_every_table() {
    let doc = document(vec![table(), paragraph("x"), table()]);
    assert_eq!(
        csv_lines(&doc),
        vec![
            "Name,Age",
            "Alice,25",
            "\"Bob, Jr.\",yes",
            "",
            "# Table 3",
            "Name,Age",
            "Alice,25",
            "\"Bob, Jr.\",yes",
        ]
    );
    assert!(csv_lines(&document(vec![paragraph("x")])).is_empty());
    let mut titled = TableData::new(cells(&["A"]), vec![]);
    titled.metadata.title = Some("Totals".to_string());
    let doc = document(vec![paragraph("x"), DocumentElement::Table { table: titled }]);
    assert_eq!(csv_lines(&doc), vec!["", "# Table 2", "# Totals", "A"]);
}

#[test]
fn borders_are_two_wider_than_the_columns() {
    assert_eq!(generate_text_table_border(&[3, 1], "┌", "┬", "┐", "─"), "┌─────┬───┐");
    assert_eq!(generate_text_table_border(&[], "<", "|", ">", "-"), "<>");
    assert_eq!(generate_text_table_border(&[0], "<", "|", ">", "ab"), "<abab>");
    assert_eq!(generate_table_border(&[3, 1], BorderType::Top), "┌─────┬───┐");
    assert_eq!(generate_table_border(&[2], BorderType::Separator), "├────┤");
    assert_eq!(generate_table_border(&[1, 1, 1], BorderType::Bottom), "└───┴───┴───┘");
}

#[test]
fn cells_are_padded_to_the_width() {
    assert_eq!(align_text_cell_content(" ab ", TextAlignment::Left, 5), "ab   ");
    assert_eq!(align_text_cell_content("ab", TextAlignment::Right, 5), "   ab");
    assert_eq!(align_text_cell_content("ab", TextAlignment::Center, 5), " ab  ");
    assert_eq!(align_text_cell_content("ab", TextAlignment::Center, 6), "  ab  ");
    assert_eq!(align_text_cell_content("ab", TextAlignment::Justify, 4), "ab  ");
    assert_eq!(align_text_cell_content("abcdef", TextAlignment::Left, 3), "abcdef");
    assert_eq!(align_text_cell_content("abcdef", TextAlignment::Center, 3), "abcdef");
    assert_eq!(align_text_cell_content("é", TextAlignment::Right, 3), "  é");
    assert_eq!(align_text_cell_content("é", TextAlignment::Center, 4), " é ");
    assert_eq!(align_cell_content("ab", TextAlignment::Right, 4), "  ab");
    assert_eq!(apply_cell_formatting("ab", &TextFormatting::default()), "ab");
}

#[test]
fn rows_are_drawn_between_bars() {
    let row = cells(&["Alice", "25", "x"]);
    assert_eq!(render_text_table_row(&row, &[6, 4], false), "│ Alice  │   25 │ x          │");
    assert_eq!(render_table_row(&row, &[6, 4], true), "│ Alice  │   25 │ x          │");
    assert_eq!(render_text_table_row(&vec![], &[1], true), "│");
}

#[test]
fn text_export_underlines_and_draws() {
    let doc = document(vec![
        heading(1, "Intro", Some("1")),
        heading(2, "Détail", None),
        heading(3, "Deep", None),
        paragraph("Some text."),
        list(&[("one", 0), ("two", 1)], true),
        list(&[("dot", 0)], false),
        table(),
        DocumentElement::PageBreak,
        DocumentElement::Image { description: "logo".to_string(), width: None, height: None },
    ]);
    let expected = "Report\n======\n\n\
Intro\n=====\n\n\
Détail\n-------\n\n\
Deep\n~~~~\n\n\
Some text.\n\n\
1. one\n  2. two\n\n\
* dot\n\n\
┌──────────┬─────┐\n\
│ Name     │ Age │\n\
├──────────┼─────┤\n\
│ Alice    │  25 │\n\
│ Bob, Jr. │ yes │\n\
└──────────┴─────┘\n\n\
---\n\n\
[Image: logo]\n\n";
    assert_eq!(format_as_text(&doc), expected);
}

#[test]
fn markdown_export_marks_everything() {
    let mut doc = document(vec![
        heading(1, "Intro", Some("1")),
        heading(2, "Plain", None),
        DocumentElement::Paragraph {
            text: "both".to_string(),
            formatting: TextFormatting {
                bold: true,
                italic: true,
                underline: true,
                ..TextFormatting::default()
            },
        },
        list(&[("one", 0), ("two", 1)], true),
        list(&[("dot", 2)], false),
        table(),
        DocumentElement::Image { description: "logo".to_string(), width: Some(4), height: Some(3) },
        DocumentElement::Image { description: "icon".to_string(), width: Some(4), height: None },
        DocumentElement::PageBreak,
    ]);
    doc.metadata.author = Some("Ann".to_string());
    let expected = "# Report\n\n## Document Information\n\n\
- **File**: /tmp/report.docx\n- **Pages**: 2\n- **Words**: 300\n- **Author**: Ann\n\n---\n\n\
## 1 Intro\n\n\
### Plain\n\n\
***both***\n\n\
1. one\n  2. two\n\n\
\x20   - dot\n\n\
| Name | Age |\n| :--- | :--- |\n| Alice | 25 |\n| Bob, Jr. | yes |\n\n\
![logo](logo) <!-- 4x3 -->\n\n\
![icon](icon)\n\n\
\n---\n\n";
    assert_eq!(markdown_text(&doc), expected);
}

#[test]
fn plain_export_prints_rows_only() {
    let doc = document(vec![
        heading(2, "Intro", Some("1.1")),
        DocumentElement::Paragraph {
            text: "u".to_string(),
            formatting: TextFormatting {
                bold: true,
                underline: true,
                ..TextFormatting::default()
            },
        },
        list(&[("one", 0), ("two", 1)], true),
        table(),
        DocumentElement::Image { description: "logo".to_string(), width: None, height: None },
        DocumentElement::PageBreak,
    ]);
    let rule = "=".repeat(50);
    let dashes = "-".repeat(50);
    let expected = format!(
        "Report\n\nDocument Information:\n- File: /tmp/report.docx\n- Pages: 2\n- Words: 300\n\n{rule}\n\n\
## 1.1 Intro\n\n\
_**u**_\n\n\
- one\n- two\n\n\
| Alice | 25 |\n| Bob, Jr. | yes |\n\n\
[Image: logo]\n\n\
{dashes}\n\n"
    );
    assert_eq!(plain_text(&doc), expected);
}

#[test]
fn export_formats_are_told_apart() {
    assert_ne!(ExportFormat::Markdown, ExportFormat::Text);
    assert_ne!(ExportFormat::Csv, ExportFormat::Json);
}

#[test]
fn citations_are_found_pattern_by_pattern() {
    let doc = document(vec![
        heading(1, "See [12]", None),
        paragraph("As shown (Smith, 2020) and [3], also (Jones et al., 1999) and (Lee,2001)."),
        list(&[("(Smith, 2020)", 0)], false),
    ]);
    let found: Vec<(String, usize)> =
        extract_citations(&doc).iter().map(|c| (c.text.clone(), c.element_index)).collect();
    assert_eq!(
        found,
        vec![
            ("[12]".to_string(), 0),
            ("(Smith, 2020)".to_string(), 1),
            ("(Lee,2001)".to_string(), 1),
            ("[3]".to_string(), 1),
            ("(Jones et al., 1999)".to_string(), 1),
        ]
    );
    assert!(extract_citations(&doc).iter().all(|c| c.citation_type == CitationType::InText));
}

#[test]
fn bibliography_runs_to_the_next_heading() {
    let doc = document(vec![
        paragraph("before"),
        heading(1, "REFERENCES", None),
        paragraph("First entry"),
        paragraph("   "),
        list(&[("Second", 0), ("Third", 0)], true),
        DocumentElement::PageBreak,
        heading(1, "Appendix", None),
        paragraph("after"),
        heading(1, "Bibliography", None),
        paragraph("ignored"),
    ]);
    let found: Vec<(String, usize)> =
        extract_bibliography(&doc).iter().map(|c| (c.text.clone(), c.element_index)).collect();
    assert_eq!(
        found,
        vec![
            ("First entry".to_string(), 2),
            ("Second".to_string(), 4),
            ("Third".to_string(), 4),
        ]
    );
    assert!(extract_bibliography(&doc)
        .iter()
        .all(|c| c.citation_type == CitationType::Bibliography));
    assert!(extract_bibliography(&document(vec![paragraph("x")])).is_empty());
    let last = document(vec![heading(2, "Works Cited", None)]);
    assert!(extract_bibliography(&last).is_empty());
}

// ---------------------------------------------------------------------------
// The viewer
// ---------------------------------------------------------------------------

fn viewer_document() -> Document {
    document(vec![
        heading(1, "Intro", Some("1")),
        paragraph("alpha beta"),
        heading(2, "Detail", Some("1.1")),
        paragraph("beta gamma"),
        paragraph("delta"),
    ])
}

#[test]
fn viewer_starts_as_asked() {
    let app = App::new(viewer_document(), &options());
    assert_eq!(app.current_view, ViewMode::Document);
    assert_eq!(app.scroll_offset, 0);
    assert!(app.search_results.is_empty());
    assert!(!app.show_help);

    let mut o = options();
    o.outline = true;
    o.page = Some(3);
    o.color = true;
    let app = App::new(viewer_document(), &o);
    assert_eq!(app.current_view, ViewMode::Outline);
    assert_eq!(app.scroll_offset, 20);
    assert!(app.color_enabled);

    o.search = Some("beta".to_string());
    o.page = Some(0);
    let app = App::new(viewer_document(), &o);
    assert_eq!(app.current_view, ViewMode::Search);
    assert_eq!(app.search_query, "beta");
    assert_eq!(app.search_results.len(), 2);
    assert_eq!(app.scroll_offset, 0);
    o.page = Some(usize::MAX);
    assert_eq!(App::new(viewer_document(), &o).scroll_offset, usize::MAX);
}

#[test]
fn scrolling_stays_inside_the_document() {
    let mut app = App::new(viewer_document(), &options());
    app.scroll_up();
    assert_eq!(app.scroll_offset, 0);
    app.scroll_down();
    app.scroll_down();
    assert_eq!(app.scroll_offset, 2);
    app.page_down(10);
    assert_eq!(app.scroll_offset, 4);
    app.scroll_down();
    assert_eq!(app.scroll_offset, 4);
    app.page_up(3);
    assert_eq!(app.scroll_offset, 1);
    app.page_up(3);
    assert_eq!(app.scroll_offset, 0);
    app.page_down(usize::MAX);
    assert_eq!(app.scroll_offset, 4);
    let mut empty = App::new(document(vec![]), &options());
    empty.scroll_down();
    empty.page_down(5);
    assert_eq!(empty.scroll_offset, 0);
}

#[test]
fn search_results_go_round() {
    let mut o = options();
    o.search = Some("beta".to_string());
    let mut app = App::new(viewer_document(), &o);
    app.next_search_result();
    assert_eq!((app.current_search_index, app.scroll_offset), (1, 3));
    app.next_search_result();
    assert_eq!((app.current_search_index, app.scroll_offset), (0, 1));
    app.prev_search_result();
    assert_eq!((app.current_search_index, app.scroll_offset), (1, 3));
    app.prev_search_result();
    assert_eq!((app.current_search_index, app.scroll_offset), (0, 1));
    let mut none = App::new(viewer_document(), &options());
    none.next_search_result();
    none.prev_search_result();
    assert_eq!((none.current_search_index, none.scroll_offset), (0, 0));
}

#[test]
fn keys_in_the_document_view() {
    let mut app = App::new(viewer_document(), &options());
    assert_eq!(app.handle_key(Key::Char('j')), ViewerAction::Continue);
    assert_eq!(app.handle_key(Key::Down), ViewerAction::Continue);
    assert_eq!(app.scroll_offset, 2);
    app.handle_key(Key::Char('k'));
    app.handle_key(Key::Up);
    assert_eq!(app.scroll_offset, 0);
    app.handle_key(Key::End);
    assert_eq!(app.scroll_offset, 4);
    app.handle_key(Key::PageUp);
    assert_eq!(app.scroll_offset, 0);
    app.handle_key(Key::PageDown);
    assert_eq!(app.scroll_offset, 4);
    app.handle_key(Key::Home);
    assert_eq!(app.scroll_offset, 0);
    app.handle_key(Key::Char('h'));
    assert!(app.show_help);
    app.handle_key(Key::F(1));
    assert!(!app.show_help);
    assert_eq!(app.handle_key(Key::Char('c')), ViewerAction::Copy);
    assert_eq!(app.handle_key(Key::Other), ViewerAction::Continue);
    assert_eq!(app.handle_key(Key::Char('o')), ViewerAction::Continue);
    assert_eq!(app.current_view, ViewMode::Outline);
    app.handle_key(Key::Esc);
    assert_eq!(app.handle_key(Key::Char('s')), ViewerAction::Continue);
    assert_eq!(app.current_view, ViewMode::Search);
    app.handle_key(Key::Char('q'));
    assert_eq!(app.current_view, ViewMode::Document);
    assert_eq!(app.handle_key(Key::Char('q')), ViewerAction::Quit);
}

#[test]
fn keys_in_the_outline_view() {
    let mut o = options();
    o.outline = true;
    let mut app = App::new(viewer_document(), &o);
    app.handle_key(Key::Up);
    assert_eq!(app.outline_selected, None);
    app.handle_key(Key::Enter);
    assert_eq!(app.current_view, ViewMode::Outline);
    app.handle_key(Key::Down);
    assert_eq!(app.outline_selected, Some(1));
    app.handle_key(Key::Char('j'));
    assert_eq!(app.outline_selected, Some(1));
    assert_eq!(app.handle_key(Key::Char('c')), ViewerAction::Copy);
    app.handle_key(Key::Enter);
    assert_eq!(app.current_view, ViewMode::Document);
    assert_eq!(app.scroll_offset, 2);
    app.handle_key(Key::Char('o'));
    app.handle_key(Key::Char('k'));
    assert_eq!(app.outline_selected, Some(0));
    app.handle_key(Key::Char('q'));
    assert_eq!(app.current_view, ViewMode::Document);
}

#[test]
fn keys_in_the_search_view() {
    let mut app = App::new(viewer_document(), &options());
    app.handle_key(Key::Char('s'));
    for c in "betax".chars() {
        app.handle_key(Key::Char(c));
    }
    assert_eq!(app.search_query, "betax");
    assert!(app.search_results.is_empty());
    app.handle_key(Key::Backspace);
    assert_eq!(app.search_query, "beta");
    assert_eq!(app.search_results.len(), 2);
    app.handle_key(Key::Enter);
    assert_eq!((app.current_search_index, app.scroll_offset), (1, 3));
    app.handle_key(Key::Down);
    assert_eq!(app.current_search_index, 0);
    app.handle_key(Key::Up);
    assert_eq!(app.current_search_index, 1);
    app.handle_key(Key::Char('c'));
    assert_eq!(app.search_query, "betac");
    assert_eq!(app.current_search_index, 0);
    assert_eq!(app.handle_key(Key::F(2)), ViewerAction::Copy);
    for _ in 0..10 {
        app.handle_key(Key::Backspace);
    }
    assert_eq!(app.search_query, "");
    app.handle_key(Key::Esc);
    assert_eq!(app.current_view, ViewMode::Document);
}

#[test]
fn keys_in_the_help_view_and_the_status_message() {
    let mut app = App::new(viewer_document(), &options());
    app.current_view = ViewMode::Help;
    app.show_help = true;
    app.handle_key(Key::Down);
    assert_eq!(app.current_view, ViewMode::Help);
    app.handle_key(Key::Char('h'));
    assert_eq!(app.current_view, ViewMode::Document);
    assert!(!app.show_help);

    app.copy_finished(CopyOutcome::Copied);
    assert_eq!(app.status_message, Some("Copied to clipboard!".to_string()));
    app.handle_key(Key::Char('c'));
    assert!(app.status_message.is_some());
    app.handle_key(Key::F(2));
    assert!(app.status_message.is_some());
    app.handle_key(Key::Down);
    assert_eq!(app.status_message, None);
    app.copy_finished(CopyOutcome::Failed);
    assert_eq!(app.status_message, Some("Failed to copy to clipboard.".to_string()));
    app.copy_finished(CopyOutcome::Unavailable);
    assert_eq!(app.status_message, Some("Clipboard not available.".to_string()));
    app.clear_status_message();
    assert_eq!(app.status_message, None);
}

#[test]
fn the_wheel_scrolls_by_three() {
    let mut app = App::new(viewer_document(), &options());
    app.handle_wheel(false);
    assert_eq!(app.scroll_offset, 3);
    app.handle_wheel(false);
    assert_eq!(app.scroll_offset, 4);
    app.handle_wheel(true);
    assert_eq!(app.scroll_offset, 1);
    app.current_view = ViewMode::Outline;
    app.handle_wheel(false);
    assert_eq!(app.outline_selected, Some(1));
    app.handle_wheel(true);
    assert_eq!(app.outline_selected, Some(0));
    app.current_view = ViewMode::Help;
    app.handle_wheel(true);
    assert_eq!(app.scroll_offset, 1);
}

#[test]
fn clipboard_text_follows_the_view() {
    let mut app = App::new(viewer_document(), &options());
    assert_eq!(app.copy_text(), format_as_text(&app.document));
    app.current_view = ViewMode::Outline;
    assert_eq!(app.copy_text(), "Document Outline:\n\n1 Intro\n  1.1 Detail\n");
    app.current_view = ViewMode::Help;
    assert_eq!(app.copy_text(), "Content not available for copying in this view.");
    app.current_view = ViewMode::Search;
    assert_eq!(app.copy_text(), "No search results to copy.");
    for c in "beta".chars() {
        app.handle_key(Key::Char(c));
    }
    assert_eq!(app.copy_text(), "Search results for 'beta':\n\n1. alpha beta\n2. beta gamma\n");
}

#[test]
fn text_without_a_terminal() {
    let mut elements = vec![
        heading(1, "Intro", Some("1")),
        heading(3, "Deep", None),
        list(&[("a", 1)], false),
        list(&[("b", 0)], true),
        table(),
        DocumentElement::Image { description: "logo".to_string(), width: None, height: None },
        DocumentElement::PageBreak,
    ];
    for i in 0..15 {
        elements.push(paragraph(&format!("p{i}")));
    }
    let mut app = App::new(document(elements), &options());
    let mut expected = String::from(
        "Document: Report\nPages: 2\nWords: 300\n\nContent Preview:\n================\n\
# 1 Intro\n\n### Deep\n\n  • a\n\n1. b\n\n[Table content - use --export csv to view]\n\n\
📷 [Image: logo]\n\n---\n\n",
    );
    for i in 0..13 {
        expected.push_str(&format!("p{i}\n\n"));
    }
    expected.push_str("... and 2 more elements\n\n");
    expected.push_str(
        "Use --export to save full content, or run in an interactive terminal for full UI.\n",
    );
    assert_eq!(app.non_interactive_text(), expected);
    app.current_view = ViewMode::Outline;
    assert_eq!(
        app.non_interactive_text(),
        "Document Outline:\n================\n1 Intro\n    Deep\n"
    );
    app.current_view = ViewMode::Search;
    assert_eq!(
        app.non_interactive_text(),
        "Search Results for '':\n==============================\nNo results found.\n"
    );
    app.handle_key(Key::Char('p'));
    app.handle_key(Key::Char('1'));
    assert_eq!(
        app.non_interactive_text(),
        "Search Results for 'p1':\n==============================\n1. p1\n\n2. p10\n\n3. p11\n\n4. p12\n\n5. p13\n\n6. p14\n\n"
    );
}

// ---------------------------------------------------------------------------
// The assistant
// ---------------------------------------------------------------------------

#[test]
fn settings_name_a_provider() {
    let mut config = AIConfig::default();
    assert_eq!(config.provider, "none");
    assert_eq!(config.cost_limit_cents, Some(1000));
    assert!(config.privacy_mode);
    assert!(matches!(config.to_provider(), Ok(AIProvider::Disabled)));
    config.provider = "ollama".to_string();
    match config.to_provider() {
        Ok(AIProvider::Local(client)) => {
            assert_eq!(client.base_url, "http://localhost:11434");
            assert_eq!(client.model, "llama3.2");
        }
        other => panic!("unexpected: {other:?}"),
    }
    config.provider = "local".to_string();
    config.base_url = Some("http://host".to_string());
    config.model = Some("m".to_string());
    match config.to_provider() {
        Ok(AIProvider::Local(client)) => {
            assert_eq!(client.base_url, "http://host");
            assert_eq!(client.model, "m");
        }
        other => panic!("unexpected: {other:?}"),
    }
    config.provider = "openai".to_string();
    match config.to_provider() {
        Err(e) => {
            assert!(matches!(e, AIConfigError::MissingOpenAIKey));
            assert_eq!(e.message(), "OpenAI API key required");
        }
        other => panic!("unexpected: {other:?}"),
    }
    config.api_key = Some("k".to_string());
    assert!(matches!(config.to_provider(), Ok(AIProvider::OpenAI(k)) if k == "k"));
    config.provider = "anthropic".to_string();
    assert!(matches!(config.to_provider(), Ok(AIProvider::Anthropic(k)) if k == "k"));
    config.api_key = None;
    match config.to_provider() {
        Err(e) => assert_eq!(e.message(), "Anthropic API key required"),
        other => panic!("unexpected: {other:?}"),
    }
    config.provider = "other".to_string();
    match config.to_provider() {
        Err(e) => assert_eq!(e.message(), "Unknown AI provider: other"),
        other => panic!("unexpected: {other:?}"),
    }
}

#[test]
fn analysis_gives_the_stock_answers() {
    let doc = document(vec![
        paragraph("x"),
        DocumentElement::Image { description: "logo".to_string(), width: None, height: None },
    ]);
    let provider = AIProvider::default();
    let client = OllamaClient::new("u".to_string(), "m".to_string());
    assert_eq!((client.base_url.as_str(), client.model.as_str()), ("u", "m"));
    assert!(summarize_document(&doc, &provider).starts_with("Document summary"));
    assert!(answer_question(&doc, "why?", &provider).starts_with("AI answer"));
    let images = describe_images(&doc, &provider);
    assert_eq!(images.len(), 1);
    assert_eq!(images[0].image_index, 1);
    assert_eq!(images[0].description, "AI-generated description for: logo");
    assert_eq!(images[0].confidence_percent, 85);
    let risks = analyze_risks(&doc, &provider);
    assert_eq!(risks.len(), 1);
    assert_eq!(risks[0].risk_type, "Payment Terms");
    assert_eq!(risks[0].severity, RiskSeverity::Medium);
    assert_eq!(extract_action_items(&doc, &provider).len(), 3);
    let full = analyze_document_full(&doc, &provider);
    assert_eq!(full.key_points.len(), 3);
    assert_eq!(full.images_described.len(), 1);
    assert!(full.questions_answered.is_empty());
    assert_eq!(full.risk_flags.len(), 1);
}

#[test]
fn status_bar_tells_where_the_viewer_stands() {
    let mut app = App::new(viewer_document(), &options());
    assert_eq!(
        app.status_text(),
        "📄 Document • 📄 report.docx • 2 pages • 300 words • 1/5"
    );
    assert_eq!(app.results_title_text(), "Results (0/0)");
    app.handle_key(Key::Char('s'));
    for c in "zz".chars() {
        app.handle_key(Key::Char(c));
    }
    assert_eq!(
        app.status_text(),
        "🔍 Search • 📄 report.docx • 2 pages • 300 words • 1/5 • 🔍 No matches"
    );
    app.handle_key(Key::Backspace);
    app.handle_key(Key::Backspace);
    for c in "beta".chars() {
        app.handle_key(Key::Char(c));
    }
    app.handle_key(Key::Enter);
    assert_eq!(
        app.status_text(),
        "🔍 Search • 📄 report.docx • 2 pages • 300 words • 4/5 • 🔍 2/2 matches"
    );
    assert_eq!(app.results_title_text(), "Results (2/2)");
    app.copy_finished(CopyOutcome::Copied);
    assert_eq!(app.status_text(), "Copied to clipboard!");
    app.clear_status_message();
    app.current_view = ViewMode::Help;
    assert!(app.status_text().starts_with("❓ Help • "));
    app.current_view = ViewMode::Outline;
    assert!(app.status_text().starts_with("📋 Outline • "));
}
