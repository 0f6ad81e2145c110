use doxx::cell::{default_alignment_for_type, detect_cell_data_type};
use doxx::document::{assemble_document, estimate_page_count};
use doxx::list::{
    calculate_list_level, clean_list_item_text, clean_word_list_markers,
    detect_list_from_paragraph_numbering, group_list_items, TaggedElement,
};
use doxx::model::{
    Block, CellDataType, DocumentElement, Numbering, RawCell, RawParagraph, RawRow, RawTable,
    Run, RunPiece, TableCell, TableData, TextAlignment, TextFormatting,
};
use doxx::normalize::{
    color_value_in, extract_paragraph_text, extract_run_text, extract_runs_formatting,
};
use doxx::search::{generate_outline, search_document};
use doxx::table::{appears_to_be_header, extract_table_data};

fn run(text: &str) -> Run {
    Run {
        pieces: vec![RunPiece::Text(text.to_string())],
        bold: false,
        italic: false,
        underline: false,
        color: None,
    }
}

fn para(text: &str) -> RawParagraph {
    RawParagraph { style: None, numbering: None, runs: vec![run(text)] }
}

fn styled(style: &str, text: &str) -> RawParagraph {
    RawParagraph { style: Some(style.to_string()), numbering: None, runs: vec![run(text)] }
}

fn numbered(id: u64, level: u8, text: &str) -> RawParagraph {
    RawParagraph {
        style: None,
        numbering: Some(Numbering { id: Some(id), level: Some(level) }),
        runs: vec![run(text)],
    }
}

fn cell(text: &str) -> RawCell {
    RawCell { paragraphs: vec![para(text)] }
}

fn row(texts: &[&str]) -> RawRow {
    RawRow { cells: texts.iter().map(|t| cell(t)).collect() }
}

fn table(rows: &[&[&str]]) -> RawTable {
    RawTable { rows: rows.iter().map(|r| row(r)).collect() }
}

fn paragraph_element(text: &str) -> TaggedElement {
    TaggedElement {
        element: DocumentElement::Paragraph {
            text: text.to_string(),
            formatting: TextFormatting::default(),
        },
        list_tagged: false,
    }
}

fn build(blocks: Vec<Block>) -> Vec<DocumentElement> {
    assemble_document("t".to_string(), "t.docx".to_string(), 1, &blocks).elements
}

fn text_of(chars: Vec<char>) -> String {
    chars.into_iter().collect()
}

fn list_of(element: &DocumentElement) -> (Vec<(String, u8)>, bool) {
    match element {
        DocumentElement::List { items, ordered } => {
            (items.iter().map(|i| (i.text.clone(), i.level)).collect(), *ordered)
        }
        other => panic!("no list: {other:?}"),
    }
}

// ---------------------------------------------------------------------------
// Normalizer
// ---------------------------------------------------------------------------

#[test]
fn run_text_renders_tabs_breaks_and_drawings() {
    let r = Run {
        pieces: vec![
            RunPiece::Text("a".to_string()),
            RunPiece::Tab,
            RunPiece::Text("b".to_string()),
            RunPiece::Break,
            RunPiece::Drawing,
        ],
        bold: false,
        italic: false,
        underline: false,
        color: None,
    };
    assert_eq!(text_of(extract_run_text(&r)), "a\tb\n[Image]");
}

#[test]
fn paragraph_text_is_joined_and_trimmed() {
    let p = RawParagraph {
        style: None,
        numbering: None,
        runs: vec![run("  Hello "), run("wor"), run("ld \u{a0}\n")],
    };
    assert_eq!(text_of(extract_paragraph_text(&p)), "Hello world");
    assert_eq!(text_of(extract_paragraph_text(&para(" \t "))), "");
}

#[test]
fn formatting_is_that_of_the_first_emphasized_run() {
    let mut a = run("a");
    a.underline = true;
    let mut b = run("b");
    b.italic = true;
    b.color = Some("FF0000".to_string());
    let mut c = run("c");
    c.bold = true;
    let f = extract_runs_formatting(&vec![a.clone(), b, c]);
    assert!(!f.bold && f.italic && !f.underline);
    assert_eq!(f.color, Some("FF0000".to_string()));
    assert_eq!(f.font_size, None);

    let f = extract_runs_formatting(&vec![run("x"), a]);
    assert!(!f.bold && !f.italic && f.underline);
    let f = extract_runs_formatting(&vec![]);
    assert!(!f.bold && !f.italic && !f.underline && f.color.is_none());
}

// ---------------------------------------------------------------------------
// Lists
// ---------------------------------------------------------------------------

#[test]
fn two_bullets_make_one_unordered_list() {
    let elements = build(vec![
        Block::Paragraph(para("• First item")),
        Block::Paragraph(para("• Second item")),
    ]);
    assert_eq!(elements.len(), 1);
    let (items, ordered) = list_of(&elements[0]);
    assert!(!ordered);
    assert_eq!(items, vec![("First item".to_string(), 0), ("Second item".to_string(), 0)]);
}

#[test]
fn change_of_ordering_splits_the_list() {
    let grouped = group_list_items(vec![
        paragraph_element("• First item"),
        paragraph_element("1. Third item comes with a long enough text"),
        paragraph_element("• Second item"),
    ]);
    assert_eq!(grouped.len(), 3);
    let (items, ordered) = list_of(&grouped[0].element);
    assert_eq!((items.len(), ordered), (1, false));
    let (items, ordered) = list_of(&grouped[1].element);
    assert_eq!(ordered, true);
    assert_eq!(items[0].0, "Third item comes with a long enough text");
    let (_, ordered) = list_of(&grouped[2].element);
    assert!(!ordered);
}

#[test]
fn inserted_numbered_item_splits_in_two() {
    let grouped = group_list_items(vec![
        paragraph_element("• First item"),
        paragraph_element("1. Third item comes with a long enough text"),
    ]);
    assert_eq!(grouped.len(), 2);
    assert_eq!(list_of(&grouped[0].element).1, false);
    assert_eq!(list_of(&grouped[1].element).1, true);
}

#[test]
fn short_numbered_text_is_no_list_item() {
    let grouped = group_list_items(vec![
        paragraph_element("• First item"),
        paragraph_element("1. Third item"),
        paragraph_element("• Second item"),
    ]);
    assert_eq!(grouped.len(), 3);
    assert!(matches!(grouped[1].element, DocumentElement::Paragraph { .. }));
}

#[test]
fn other_elements_close_the_list_and_keep_their_place() {
    let grouped = group_list_items(vec![
        paragraph_element("intro"),
        paragraph_element("- a"),
        paragraph_element("  - b"),
        TaggedElement { element: DocumentElement::PageBreak, list_tagged: false },
        paragraph_element("- c"),
    ]);
    assert_eq!(grouped.len(), 4);
    assert!(matches!(grouped[0].element, DocumentElement::Paragraph { .. }));
    let (items, _) = list_of(&grouped[1].element);
    assert_eq!(items, vec![("a".to_string(), 0), ("b".to_string(), 1)]);
    assert!(matches!(grouped[2].element, DocumentElement::PageBreak));
    assert_eq!(list_of(&grouped[3].element).0.len(), 1);
    assert!(group_list_items(vec![]).is_empty());
}

#[test]
fn tagged_paragraphs_are_left_alone() {
    let mut tagged = paragraph_element("* rendered");
    tagged.list_tagged = true;
    let grouped = group_list_items(vec![tagged, paragraph_element("* rendered")]);
    assert_eq!(grouped.len(), 2);
    assert!(matches!(grouped[0].element, DocumentElement::Paragraph { .. }));
    assert!(grouped[0].list_tagged);
    assert!(matches!(grouped[1].element, DocumentElement::List { .. }));
    let cleaned = clean_word_list_markers(grouped);
    assert_eq!(cleaned.len(), 2);
    match &cleaned[0] {
        DocumentElement::Paragraph { text, .. } => assert_eq!(text, "* rendered"),
        other => panic!("no paragraph: {other:?}"),
    }
}

#[test]
fn level_comes_from_leading_white_space() {
    assert_eq!(calculate_list_level("- a"), 0);
    assert_eq!(calculate_list_level(" - a"), 0);
    assert_eq!(calculate_list_level("  - a"), 1);
    assert_eq!(calculate_list_level("     - a"), 2);
    assert_eq!(calculate_list_level("\t\t\t\t- a"), 2);
    assert_eq!(calculate_list_level(""), 0);
}

#[test]
fn markers_are_removed() {
    assert_eq!(clean_list_item_text("• First item"), "First item");
    assert_eq!(clean_list_item_text("  -   dash  "), "dash");
    assert_eq!(clean_list_item_text("* star"), "star");
    assert_eq!(clean_list_item_text("12. twelve"), "twelve");
    assert_eq!(clean_list_item_text("a. lettered"), "lettered");
    assert_eq!(clean_list_item_text("B.lettered"), "lettered");
    assert_eq!(clean_list_item_text("1a. mixed"), "1a. mixed");
    assert_eq!(clean_list_item_text("plain"), "plain");
    assert_eq!(clean_list_item_text(".5 litres"), "5 litres");
}

#[test]
fn numbering_metadata_decides_the_ordering() {
    let info = |id: Option<u64>, level: Option<u8>| {
        let p = RawParagraph {
            style: None,
            numbering: Some(Numbering { id, level }),
            runs: vec![run("x")],
        };
        let i = detect_list_from_paragraph_numbering(&p).unwrap();
        (i.level, i.is_ordered)
    };
    assert_eq!(info(Some(1), Some(0)), (0, false));
    assert_eq!(info(Some(1), Some(1)), (1, true));
    assert_eq!(info(Some(1), Some(2)), (2, true));
    assert_eq!(info(Some(1), Some(3)), (3, true));
    assert_eq!(info(Some(1), Some(4)), (4, false));
    assert_eq!(info(Some(2), Some(0)), (0, true));
    assert_eq!(info(Some(2), None), (0, true));
    assert_eq!(info(None, Some(3)), (3, false));
    assert!(detect_list_from_paragraph_numbering(&para("x")).is_none());
}

#[test]
fn numbered_paragraphs_are_rendered_with_their_marker() {
    let text = |e: &DocumentElement| match e {
        DocumentElement::Paragraph { text, .. } => text.clone(),
        DocumentElement::List { items, .. } => format!("list:{}", items[0].text),
        other => panic!("unexpected: {other:?}"),
    };
    let elements = build(vec![
        Block::Paragraph(numbered(2, 0, " top ")),
        Block::Paragraph(numbered(2, 1, "second")),
        Block::Paragraph(numbered(2, 5, "deep")),
        Block::Paragraph(numbered(1, 0, "bullet")),
        Block::Paragraph(numbered(1, 4, "deep bullet")),
    ]);
    assert_eq!(elements.len(), 5);
    assert_eq!(text(&elements[0]), "1. top");
    assert_eq!(text(&elements[1]), "  a) second");
    assert_eq!(text(&elements[2]), "          6. deep");
    assert_eq!(text(&elements[3]), "* bullet");
    assert_eq!(text(&elements[4]), "        * deep bullet");
}

#[test]
fn untagged_rendered_item_is_read_as_a_list_item() {
    let elements = build(vec![Block::Paragraph(numbered(1, 0, "bullet"))]);
    let rendered = match &elements[0] {
        DocumentElement::Paragraph { text, .. } => text.clone(),
        other => panic!("no paragraph: {other:?}"),
    };
    let again = build(vec![Block::Paragraph(para(&rendered))]);
    assert!(matches!(again[0], DocumentElement::List { .. }));
    let lettered = build(vec![Block::Paragraph(numbered(2, 1, "second"))]);
    let rendered = match &lettered[0] {
        DocumentElement::Paragraph { text, .. } => text.clone(),
        other => panic!("no paragraph: {other:?}"),
    };
    let again = build(vec![Block::Paragraph(para(&rendered))]);
    assert!(matches!(again[0], DocumentElement::Paragraph { .. }));
}

// ---------------------------------------------------------------------------
// Tables
// ---------------------------------------------------------------------------

#[test]
fn cell_types() {
    assert_eq!(detect_cell_data_type(""), CellDataType::Empty);
    assert_eq!(detect_cell_data_type("   "), CellDataType::Empty);
    assert_eq!(detect_cell_data_type("$30,000"), CellDataType::Currency);
    assert_eq!(detect_cell_data_type("€5"), CellDataType::Currency);
    assert_eq!(detect_cell_data_type("£"), CellDataType::Currency);
    assert_eq!(detect_cell_data_type("45%"), CellDataType::Percentage);
    assert_eq!(detect_cell_data_type("TRUE"), CellDataType::Boolean);
    assert_eq!(detect_cell_data_type("no"), CellDataType::Boolean);
    assert_eq!(detect_cell_data_type(" Y "), CellDataType::Boolean);
    assert_eq!(detect_cell_data_type("25"), CellDataType::Number);
    assert_eq!(detect_cell_data_type("1,234.5"), CellDataType::Number);
    assert_eq!(detect_cell_data_type("-3.5e+10"), CellDataType::Number);
    assert_eq!(detect_cell_data_type(".5"), CellDataType::Number);
    assert_eq!(detect_cell_data_type("5."), CellDataType::Number);
    assert_eq!(detect_cell_data_type("inf"), CellDataType::Number);
    assert_eq!(detect_cell_data_type("-Infinity"), CellDataType::Number);
    assert_eq!(detect_cell_data_type("NaN"), CellDataType::Number);
    assert_eq!(detect_cell_data_type("2024-01-15"), CellDataType::Date);
    assert_eq!(detect_cell_data_type("1/2/2024"), CellDataType::Date);
    assert_eq!(detect_cell_data_type("1/2-3"), CellDataType::Date);
    assert_eq!(detect_cell_data_type("+1/2/3"), CellDataType::Date);
    assert_eq!(detect_cell_data_type("1/2"), CellDataType::Text);
    assert_eq!(detect_cell_data_type("1/2/3/4"), CellDataType::Text);
    assert_eq!(detect_cell_data_type("1//3"), CellDataType::Text);
    assert_eq!(detect_cell_data_type("1/2/4294967295"), CellDataType::Date);
    assert_eq!(detect_cell_data_type("1/2/4294967296"), CellDataType::Text);
    assert_eq!(detect_cell_data_type("."), CellDataType::Text);
    assert_eq!(detect_cell_data_type("1e"), CellDataType::Text);
    assert_eq!(detect_cell_data_type("e5"), CellDataType::Text);
    assert_eq!(detect_cell_data_type("+"), CellDataType::Text);
    assert_eq!(detect_cell_data_type("1.2.3"), CellDataType::Text);
    assert_eq!(detect_cell_data_type("Alice"), CellDataType::Text);
}

#[test]
fn cell_types_agree_with_float_parsing() {
    let samples = [
        "0", "007", "1.", ".1", "1.5", "+1.5", "-1.5", "1e5", "1E5", "1e-5", "1e+5", "1.e5",
        ".e5", "e", "1e5.5", "--1", "+-1", "1 000", "0x10", "infinity", "INF", "+inf", "-nan",
        "nan", "infinit", "1_000", "1,000,000", ",", "1,", "١٢٣",
    ];
    for s in samples {
        let stripped = s.replace(',', "");
        let expect_number = stripped.parse::<f64>().is_ok();
        let got = detect_cell_data_type(s);
        assert_eq!(got == CellDataType::Number, expect_number, "for {s:?}");
    }
}

#[test]
fn alignment_follows_the_type() {
    assert_eq!(default_alignment_for_type(CellDataType::Number), TextAlignment::Right);
    assert_eq!(default_alignment_for_type(CellDataType::Currency), TextAlignment::Right);
    assert_eq!(default_alignment_for_type(CellDataType::Percentage), TextAlignment::Right);
    assert_eq!(default_alignment_for_type(CellDataType::Boolean), TextAlignment::Center);
    assert_eq!(default_alignment_for_type(CellDataType::Text), TextAlignment::Left);
    assert_eq!(default_alignment_for_type(CellDataType::Date), TextAlignment::Left);
    assert_eq!(default_alignment_for_type(CellDataType::Empty), TextAlignment::Left);
}

#[test]
fn header_rows_are_short_or_hold_keywords() {
    let strings = |v: &[&str]| v.iter().map(|s| s.to_string()).collect::<Vec<_>>();
    assert!(appears_to_be_header(&strings(&["Name", "Age", "City"])));
    assert!(appears_to_be_header(&strings(&[
        "the full Description of every single item",
        "one two three four five",
        "ID"
    ])));
    assert!(!appears_to_be_header(&strings(&[
        "one two three four five",
        "six seven eight nine ten",
        "x"
    ])));
    let long = "word ".repeat(20);
    assert!(!appears_to_be_header(&strings(&[&long, &long])));
    assert!(!appears_to_be_header(&[]));
}

#[test]
fn age_column_is_numeric_and_right_aligned() {
    let t = table(&[
        &["Name", "Age", "City", "Salary"],
        &["Alice", "25", "Paris", "$30,000"],
        &["Bob", "30", "Rome", "$45,000"],
    ]);
    let element = extract_table_data(&t).unwrap();
    let data = match element {
        DocumentElement::Table { table } => table,
        other => panic!("no table: {other:?}"),
    };
    assert_eq!(data.headers.len(), 4);
    assert_eq!(data.headers[1].content, "Age");
    assert_eq!(data.rows.len(), 2);
    assert_eq!(data.rows[0][1].data_type, CellDataType::Number);
    assert_eq!(data.rows[1][1].data_type, CellDataType::Number);
    assert_eq!(data.rows[0][1].alignment, TextAlignment::Right);
    assert_eq!(data.rows[0][3].data_type, CellDataType::Currency);
    assert_eq!(data.rows[1][3].alignment, TextAlignment::Right);
    assert_eq!(
        data.metadata.column_alignments,
        vec![TextAlignment::Left, TextAlignment::Right, TextAlignment::Left, TextAlignment::Right]
    );
    assert_eq!(data.metadata.column_widths, vec![5, 3, 5, 7]);
    assert_eq!(data.metadata.column_count, 4);
    assert_eq!(data.metadata.row_count, 2);
    assert!(data.metadata.has_headers);
    assert_eq!(data.metadata.title, None);
    assert_eq!(data._get_column_width(1), 3);
    assert_eq!(data._get_column_width(9), 10);
    assert_eq!(data._get_column_alignment(1), TextAlignment::Right);
    assert_eq!(data._get_column_alignment(9), TextAlignment::Left);
}

#[test]
fn seventy_percent_is_not_enough_for_a_numeric_column() {
    let numbers = |n: usize, texts: usize| {
        let mut rows: Vec<Vec<TableCell>> = Vec::new();
        for _ in 0..n {
            rows.push(vec![TableCell::new("1".to_string())]);
        }
        for _ in 0..texts {
            rows.push(vec![TableCell::new("x".to_string())]);
        }
        TableData::new(vec![TableCell::new("H".to_string())], rows).metadata.column_alignments[0]
    };
    assert_eq!(numbers(7, 3), TextAlignment::Left);
    assert_eq!(numbers(8, 3), TextAlignment::Right);
    assert_eq!(numbers(3, 1), TextAlignment::Right);
    assert_eq!(numbers(0, 0), TextAlignment::Left);
    assert_eq!(numbers(1, 0), TextAlignment::Right);
}

#[test]
fn header_only_table_is_kept_and_empty_table_is_dropped() {
    let header_only = extract_table_data(&table(&[&["Name", "Age"]])).unwrap();
    match header_only {
        DocumentElement::Table { table } => {
            assert_eq!(table.headers.len(), 2);
            assert!(table.rows.is_empty());
        }
        other => panic!("no table: {other:?}"),
    }
    assert!(extract_table_data(&RawTable { rows: vec![] }).is_none());
    assert!(extract_table_data(&RawTable { rows: vec![RawRow { cells: vec![] }] }).is_none());
    let elements = build(vec![
        Block::Table(RawTable { rows: vec![] }),
        Block::Table(table(&[&["Name", "Age"]])),
    ]);
    assert_eq!(elements.len(), 1);
    assert!(matches!(elements[0], DocumentElement::Table { .. }));
}

#[test]
fn first_row_becomes_the_header_even_when_it_looks_like_data() {
    let long = "this first cell is made of quite a lot of words";
    let t = RawTable { rows: vec![RawRow { cells: vec![] }, row(&[long, long]), row(&["a", "b"])] };
    match extract_table_data(&t).unwrap() {
        DocumentElement::Table { table } => {
            assert_eq!(table.headers[0].content, long);
            assert_eq!(table.rows.len(), 1);
            assert_eq!(table.rows[0][0].content, "a");
        }
        other => panic!("no table: {other:?}"),
    }
}

#[test]
fn cell_text_joins_runs_with_one_space() {
    let c = RawCell {
        paragraphs: vec![
            RawParagraph {
                style: None,
                numbering: None,
                runs: vec![run("Total"), run("amount "), run("due")],
            },
            RawParagraph { style: None, numbering: None, runs: vec![run(""), run(" now ")] },
        ],
    };
    let t = RawTable { rows: vec![RawRow { cells: vec![c] }] };
    match extract_table_data(&t).unwrap() {
        DocumentElement::Table { table } => {
            assert_eq!(table.headers[0].content, "Total amount due  now");
        }
        other => panic!("no table: {other:?}"),
    }
}

#[test]
fn width_is_at_least_three_and_the_widest_grapheme_count() {
    let t = table(&[&["A", "Name"], &["é\u{301}x", "👨‍💻👩‍🔬"], &["abcdef"]]);
    match extract_table_data(&t).unwrap() {
        DocumentElement::Table { table } => {
            assert_eq!(table.metadata.column_widths, vec![6, 4]);
        }
        other => panic!("no table: {other:?}"),
    }
}

// ---------------------------------------------------------------------------
// The assembled document
// ---------------------------------------------------------------------------

#[test]
fn pages_are_counted_in_steps_of_250_words() {
    assert_eq!(estimate_page_count(0), 0);
    assert_eq!(estimate_page_count(1), 1);
    assert_eq!(estimate_page_count(250), 1);
    assert_eq!(estimate_page_count(251), 2);
    assert_eq!(estimate_page_count(500), 2);
    assert_eq!(estimate_page_count(usize::MAX), usize::MAX / 250 + 1);
}

#[test]
fn document_is_assembled_in_source_order() {
    let mut bold_run = run("Summary of Results");
    bold_run.bold = true;
    let blocks = vec![
        Block::Paragraph(styled("Heading1", "Introduction")),
        Block::Paragraph(para("   ")),
        Block::Paragraph(para("This is the first paragraph of the text, and it is long.")),
        Block::Paragraph(styled("Heading2", "Background")),
        Block::Paragraph(styled("Heading1", "2. Methods")),
        Block::Paragraph(styled("Heading1", "Results")),
        Block::Paragraph(RawParagraph { style: None, numbering: None, runs: vec![bold_run] }),
        Block::Table(table(&[&["Name", "Age"], &["Alice", "25"]])),
        Block::Paragraph(para("- one")),
        Block::Paragraph(para("- two")),
    ];
    let doc = assemble_document("Report".to_string(), "/tmp/report.docx".to_string(), 99, &blocks);
    assert_eq!(doc.title, "Report");
    assert_eq!(doc.metadata.file_path, "/tmp/report.docx");
    assert_eq!(doc.metadata.file_size, 99);
    assert_eq!(doc.metadata.word_count, 1 + 12 + 1 + 2 + 1 + 3 + 2 + 2);
    assert_eq!(doc.metadata.page_count, 1);
    assert_eq!(doc.metadata.author, None);
    assert_eq!(doc.elements.len(), 8);
    let heading = |e: &DocumentElement| match e {
        DocumentElement::Heading { level, text, number } => {
            (*level, text.clone(), number.clone())
        }
        other => panic!("no heading: {other:?}"),
    };
    assert_eq!(heading(&doc.elements[0]), (1, "Introduction".to_string(), Some("1".to_string())));
    assert!(matches!(doc.elements[1], DocumentElement::Paragraph { .. }));
    assert_eq!(heading(&doc.elements[2]), (2, "Background".to_string(), Some("1.1".to_string())));
    assert_eq!(heading(&doc.elements[3]), (1, "Methods".to_string(), Some("2".to_string())));
    assert_eq!(heading(&doc.elements[4]), (1, "Results".to_string(), Some("2".to_string())));
    assert_eq!(heading(&doc.elements[5]), (1, "Summary of Results".to_string(), None));
    assert!(matches!(doc.elements[6], DocumentElement::Table { .. }));
    let (items, ordered) = list_of(&doc.elements[7]);
    assert_eq!(items.len(), 2);
    assert!(!ordered);

    let outline = generate_outline(&doc);
    let titles: Vec<(String, u8, usize)> =
        outline.iter().map(|o| (o.title.clone(), o.level, o.element_index)).collect();
    assert_eq!(
        titles,
        vec![
            ("1 Introduction".to_string(), 1, 0),
            ("1.1 Background".to_string(), 2, 2),
            ("2 Methods".to_string(), 1, 3),
            ("2 Results".to_string(), 1, 4),
            ("Summary of Results".to_string(), 1, 5),
        ]
    );
}

#[test]
fn numbering_metadata_wins_over_the_heading_style() {
    let mut p = styled("Heading1", "Both");
    p.numbering = Some(Numbering { id: Some(3), level: Some(0) });
    let elements = build(vec![Block::Paragraph(p)]);
    match &elements[0] {
        DocumentElement::Paragraph { text, .. } => assert_eq!(text, "1. Both"),
        other => panic!("no paragraph: {other:?}"),
    }
}

#[test]
fn empty_document_has_no_elements() {
    let doc = assemble_document(String::new(), String::new(), 0, &[]);
    assert!(doc.elements.is_empty());
    assert_eq!(doc.metadata.word_count, 0);
    assert_eq!(doc.metadata.page_count, 0);
}

#[test]
fn search_finds_texts_whatever_the_case() {
    let blocks = vec![
        Block::Paragraph(styled("Heading1", "Revenue Report")),
        Block::Paragraph(para("Total REVENUE grew, said the été report.")),
        Block::Paragraph(para("- revenue item")),
        Block::Paragraph(para("- other item")),
        Block::Table(table(&[&["Name", "Revenue"], &["Alice", "no"], &["revenue", "x"]])),
    ];
    let doc = assemble_document("t".to_string(), "p".to_string(), 0, &blocks);
    let results = search_document(&doc, "Revenue");
    let found: Vec<(usize, String, usize, usize)> = results
        .iter()
        .map(|r| (r.element_index, r.text.clone(), r.start_pos, r.end_pos))
        .collect();
    assert_eq!(
        found,
        vec![
            (0, "Revenue Report".to_string(), 0, 7),
            (1, "Total REVENUE grew, said the été report.".to_string(), 6, 13),
            (2, "revenue item".to_string(), 0, 7),
            (3, "Revenue".to_string(), 0, 7),
            (3, "revenue".to_string(), 0, 7),
        ]
    );
    let results = search_document(&doc, "REPORT.");
    assert_eq!(results.len(), 1);
    assert_eq!((results[0].start_pos, results[0].end_pos), (35, 42));
    assert!(search_document(&doc, "absent").is_empty());
    assert_eq!(search_document(&doc, "").len(), 10);
}

#[test]
fn colour_value_is_read_off_the_printed_form() {
    assert_eq!(
        color_value_in("Color { val: \"FF0000\", theme_color: None }"),
        Some("FF0000".to_string())
    );
    assert_eq!(color_value_in("Color { val: \"\" }"), Some(String::new()));
    assert_eq!(color_value_in("Color { val: \"FF0000 }"), None);
    assert_eq!(color_value_in("Color { value: \"FF0000\" }"), None);
    assert_eq!(color_value_in(""), None);
}
