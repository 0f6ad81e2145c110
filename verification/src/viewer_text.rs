//! The texts that the viewer hands out: what goes to the clipboard, and
//! what is printed where there is no terminal to draw on.

use vstd::prelude::*;
use crate::export::{
    document_text, format_as_text, items_text_before, numbered_heading, push_items,
    push_labelled_number, push_labelled_text, push_numbered_heading, push_spaces, push_text,
    spaces,
};
use crate::model::{Document, DocumentElement, DocumentModel, ElementModel};
use crate::image_extractor::{file_name_chars, file_name_of};
use crate::scan::{byte_len, decimal, lemma_utf8_len_is_length_zero, push_decimal};
use crate::search::{
    generate_outline, outline_model, outline_of, results_model, OutlineItem, OutlineItemModel,
    SearchResult, SearchResultModel,
};
use crate::text::{append_chars, chars_of, string_of, trim, trimmed};
use crate::ui::{App, AppModel, ViewMode};

verus! {

/// How many elements the preview shows.
pub const PREVIEW_LIMIT: usize = 20;

/// The indentation of a heading in the outline: two spaces for each level
/// below the first.
pub open spec fn outline_indent(level: u8) -> Seq<char> {
    spaces(
        (2 * if level > 0 {
            (level - 1) as nat
        } else {
            0
        }) as nat,
    )
}

/// The lines of the outline items before index `n`.
pub open spec fn outline_lines_before(items: Seq<OutlineItemModel>, n: int) -> Seq<char>
    decreases n,
{
    if n <= 0 {
        Seq::empty()
    } else {
        outline_lines_before(items, n - 1) + outline_indent(items[n - 1].level) + items[n
            - 1].title + seq!['\n']
    }
}

/// The lines of the search results before index `n`: each with its number
/// and its text trimmed, and `gap` after it.
pub open spec fn result_lines_before(results: Seq<SearchResultModel>, gap: Seq<char>, n: int) -> Seq<
    char,
>
    decreases n,
{
    if n <= 0 {
        Seq::empty()
    } else {
        result_lines_before(results, gap, n - 1) + decimal(n as nat) + seq!['.', ' '] + trim(
            results[n - 1].text,
        ) + gap
    }
}

/// What goes to the clipboard: in the document view the document as plain
/// text; in the search view the results; in the outline view the outline;
/// in the help view a note that there is nothing to copy.
pub open spec fn clipboard_text(app: AppModel) -> Seq<char> {
    match app.current_view {
        ViewMode::Document => document_text(app.document),
        ViewMode::Search => if app.search_results.len() == 0 {
            "No search results to copy."@
        } else {
            "Search results for '"@ + app.search_query + "':\n\n"@ + result_lines_before(
                app.search_results,
                seq!['\n'],
                app.search_results.len() as int,
            )
        },
        ViewMode::Outline => "Document Outline:\n\n"@ + outline_lines_before(
            outline_of(app.document.elements),
            outline_of(app.document.elements).len() as int,
        ),
        ViewMode::Help => "Content not available for copying in this view."@,
    }
}

fn push_outline_lines(buf: &mut Vec<char>, items: &Vec<OutlineItem>)
    ensures
        final(buf)@ == old(buf)@ + outline_lines_before(
            outline_model(items@),
            items@.len() as int,
        ),
{
    let ghost model = outline_model(items@);
    let mut i: usize = 0;
    assert(buf@ =~= old(buf)@ + outline_lines_before(model, 0));
    while i < items.len()
        invariant
            i <= items.len(),
            model == outline_model(items@),
            buf@ == old(buf)@ + outline_lines_before(model, i as int),
        decreases items.len() - i,
    {
        assert(model[i as int] == items@[i as int]@);
        let level = items[i].level;
        let depth: usize = if level > 0 {
            (level - 1) as usize
        } else {
            0
        };
        push_spaces(buf, 2 * depth);
        push_text(buf, items[i].title.as_str());
        buf.push('\n');
        assert(buf@ =~= old(buf)@ + outline_lines_before(model, i + 1));
        i += 1;
    }
}

fn push_result_lines(buf: &mut Vec<char>, results: &Vec<SearchResult>, gap: &[char])
    ensures
        final(buf)@ == old(buf)@ + result_lines_before(
            results_model(results@),
            gap@,
            results@.len() as int,
        ),
{
    let ghost model = results_model(results@);
    let mut i: usize = 0;
    assert(buf@ =~= old(buf)@ + result_lines_before(model, gap@, 0));
    while i < results.len()
        invariant
            i <= results.len(),
            model == results_model(results@),
            buf@ == old(buf)@ + result_lines_before(model, gap@, i as int),
        decreases results.len() - i,
    {
        assert(model[i as int] == results@[i as int]@);
        push_decimal(buf, (i as u64) + 1);
        buf.push('.');
        buf.push(' ');
        let text = chars_of(results[i].text.as_str());
        let text = trimmed(text.as_slice());
        append_chars(buf, text.as_slice());
        append_chars(buf, gap);
        assert(buf@ =~= old(buf)@ + result_lines_before(model, gap@, i + 1));
        i += 1;
    }
}

impl App {
    /// What goes to the clipboard in the view that is shown.
    pub fn copy_text(&self) -> (out: String)
        ensures
            out@ == clipboard_text(self@),
    {
        match self.current_view {
            ViewMode::Document => format_as_text(&self.document),
            ViewMode::Search => {
                if self.search_results.len() == 0 {
                    "No search results to copy.".to_owned()
                } else {
                    let mut buf: Vec<char> = Vec::new();
                    push_text(&mut buf, "Search results for '");
                    push_text(&mut buf, self.search_query.as_str());
                    push_text(&mut buf, "':\n\n");
                    let mut gap: Vec<char> = Vec::new();
                    gap.push('\n');
                    assert(gap@ =~= seq!['\n']);
                    push_result_lines(&mut buf, &self.search_results, gap.as_slice());
                    assert(buf@ =~= clipboard_text(self@));
                    string_of(buf.as_slice())
                }
            },
            ViewMode::Outline => {
                let outline = generate_outline(&self.document);
                let mut buf: Vec<char> = Vec::new();
                push_text(&mut buf, "Document Outline:\n\n");
                push_outline_lines(&mut buf, &outline);
                assert(outline_model(outline@).len() == outline@.len());
                assert(buf@ =~= clipboard_text(self@));
                string_of(buf.as_slice())
            },
            ViewMode::Help => "Content not available for copying in this view.".to_owned(),
        }
    }
}

// ---------------------------------------------------------------------------
// Without a terminal
// ---------------------------------------------------------------------------

/// What stands in front of a heading in the preview.
pub open spec fn preview_mark(level: u8) -> Seq<char> {
    if level == 1 {
        "# "@
    } else if level == 2 {
        "## "@
    } else {
        "### "@
    }
}

/// One element in the preview.
pub open spec fn element_preview(e: ElementModel) -> Seq<char> {
    match e {
        ElementModel::Heading { level, text, number } => preview_mark(level) + numbered_heading(
            number,
            text,
        ) + seq!['\n', '\n'],
        ElementModel::Paragraph { text, .. } => text + seq!['\n', '\n'],
        ElementModel::List { items, ordered } => items_text_before(
            items,
            ordered,
            seq!['•', ' '],
            items.len() as int,
        ) + seq!['\n'],
        ElementModel::Table { .. } => "[Table content - use --export csv to view]\n\n"@,
        ElementModel::Image { description, .. } => "📷 [Image: "@ + description + seq![
            ']',
            '\n',
            '\n',
        ],
        ElementModel::PageBreak => seq!['-', '-', '-', '\n', '\n'],
    }
}

/// The elements before index `n` in the preview.
pub open spec fn preview_before(elements: Seq<ElementModel>, n: int) -> Seq<char>
    decreases n,
{
    if n <= 0 {
        Seq::empty()
    } else {
        preview_before(elements, n - 1) + element_preview(elements[n - 1])
    }
}

/// How many elements the preview shows of a document.
pub open spec fn preview_count(doc: DocumentModel) -> int {
    if doc.elements.len() < PREVIEW_LIMIT {
        doc.elements.len() as int
    } else {
        PREVIEW_LIMIT as int
    }
}

/// The preview of a document: what is known of it, its first twenty
/// elements, how many more there are, and a hint.
pub open spec fn document_preview(doc: DocumentModel) -> Seq<char> {
    "Document: "@ + doc.title + seq!['\n'] + "Pages: "@ + decimal(doc.metadata.page_count as nat)
        + seq!['\n'] + "Words: "@ + decimal(doc.metadata.word_count as nat) + seq!['\n']
        + "\nContent Preview:\n================\n"@ + preview_before(
        doc.elements,
        preview_count(doc),
    ) + (if doc.elements.len() > preview_count(doc) {
        "... and "@ + decimal((doc.elements.len() - preview_count(doc)) as nat)
            + " more elements\n\n"@
    } else {
        Seq::empty()
    })
        + "Use --export to save full content, or run in an interactive terminal for full UI.\n"@
}

/// What is printed where there is no terminal to draw on: in the outline
/// view the outline, in the search view the results, else the preview.
pub open spec fn printed_text(app: AppModel) -> Seq<char> {
    match app.current_view {
        ViewMode::Outline => "Document Outline:\n================\n"@ + outline_lines_before(
            outline_of(app.document.elements),
            outline_of(app.document.elements).len() as int,
        ),
        ViewMode::Search => "Search Results for '"@ + app.search_query
            + "':\n==============================\n"@ + result_lines_before(
            app.search_results,
            seq!['\n', '\n'],
            app.search_results.len() as int,
        ) + if app.search_results.len() == 0 {
            "No results found.\n"@
        } else {
            Seq::empty()
        },
        _ => document_preview(app.document),
    }
}

fn push_element_preview(buf: &mut Vec<char>, element: &DocumentElement)
    ensures
        final(buf)@ == old(buf)@ + element_preview(element@),
{
    match element {
        DocumentElement::Heading { level, text, number } => {
            if *level == 1 {
                push_text(buf, "# ");
            } else if *level == 2 {
                push_text(buf, "## ");
            } else {
                push_text(buf, "### ");
            }
            push_numbered_heading(buf, number, text);
            buf.push('\n');
            buf.push('\n');
            assert(buf@ =~= old(buf)@ + element_preview(element@));
        },
        DocumentElement::Paragraph { text, .. } => {
            push_text(buf, text.as_str());
            buf.push('\n');
            buf.push('\n');
            assert(buf@ =~= old(buf)@ + element_preview(element@));
        },
        DocumentElement::List { items, ordered } => {
            let mut bullet: Vec<char> = Vec::new();
            bullet.push('•');
            bullet.push(' ');
            assert(bullet@ =~= seq!['•', ' ']);
            push_items(buf, items, *ordered, bullet.as_slice());
            buf.push('\n');
            assert(buf@ =~= old(buf)@ + element_preview(element@));
        },
        DocumentElement::Table { .. } => {
            push_text(buf, "[Table content - use --export csv to view]\n\n");
        },
        DocumentElement::Image { description, .. } => {
            push_text(buf, "📷 [Image: ");
            push_text(buf, description.as_str());
            buf.push(']');
            buf.push('\n');
            buf.push('\n');
            assert(buf@ =~= old(buf)@ + element_preview(element@));
        },
        DocumentElement::PageBreak => {
            buf.push('-');
            buf.push('-');
            buf.push('-');
            buf.push('\n');
            buf.push('\n');
            assert(buf@ =~= old(buf)@ + element_preview(element@));
        },
    }
}

fn push_document_preview(buf: &mut Vec<char>, document: &Document)
    ensures
        final(buf)@ == old(buf)@ + document_preview(document@),
{
    let ghost doc = document@;
    let ghost elements = document@.elements;
    push_labelled_text(buf, "Document: ", document.title.as_str());
    push_labelled_number(buf, "Pages: ", document.metadata.page_count);
    push_labelled_number(buf, "Words: ", document.metadata.word_count);
    push_text(buf, "\nContent Preview:\n================\n");
    let ghost head = buf@;
    let total: usize = document.elements.len();
    let shown: usize = if total < PREVIEW_LIMIT {
        total
    } else {
        PREVIEW_LIMIT
    };
    let mut i: usize = 0;
    assert(buf@ =~= head + preview_before(elements, 0));
    while i < shown
        invariant
            i <= shown <= document.elements.len(),
            elements == document@.elements,
            buf@ == head + preview_before(elements, i as int),
        decreases shown - i,
    {
        assert(elements[i as int] == document.elements@[i as int]@);
        push_element_preview(buf, &document.elements[i]);
        assert(buf@ =~= head + preview_before(elements, i + 1));
        i += 1;
    }
    let ghost previewed = buf@;
    if total > shown {
        push_text(buf, "... and ");
        push_decimal(buf, (total - shown) as u64);
        push_text(buf, " more elements\n\n");
    }
    let ghost counted = buf@;
    assert(counted =~= previewed + (if doc.elements.len() > preview_count(doc) {
        "... and "@ + decimal((doc.elements.len() - preview_count(doc)) as nat)
            + " more elements\n\n"@
    } else {
        Seq::empty()
    }));
    push_text(
        buf,
        "Use --export to save full content, or run in an interactive terminal for full UI.\n",
    );
    assert(buf@ =~= old(buf)@ + document_preview(doc));
}

impl App {
    /// What is printed where there is no terminal to draw on.
    pub fn non_interactive_text(&self) -> (out: String)
        ensures
            out@ == printed_text(self@),
    {
        let mut buf: Vec<char> = Vec::new();
        match self.current_view {
            ViewMode::Outline => {
                let outline = generate_outline(&self.document);
                push_text(&mut buf, "Document Outline:\n================\n");
                push_outline_lines(&mut buf, &outline);
                assert(outline_model(outline@).len() == outline@.len());
                assert(buf@ =~= printed_text(self@));
            },
            ViewMode::Search => {
                push_text(&mut buf, "Search Results for '");
                push_text(&mut buf, self.search_query.as_str());
                push_text(&mut buf, "':\n==============================\n");
                let mut gap: Vec<char> = Vec::new();
                gap.push('\n');
                gap.push('\n');
                assert(gap@ =~= seq!['\n', '\n']);
                push_result_lines(&mut buf, &self.search_results, gap.as_slice());
                if self.search_results.len() == 0 {
                    push_text(&mut buf, "No results found.\n");
                }
                assert(buf@ =~= printed_text(self@));
            },
            _ => {
                push_document_preview(&mut buf, &self.document);
                assert(buf@ =~= printed_text(self@));
            },
        }
        string_of(buf.as_slice())
    }
}

// ---------------------------------------------------------------------------
// The status bar
// ---------------------------------------------------------------------------

/// The name of a view with its sign.
pub open spec fn view_label(view: ViewMode) -> Seq<char> {
    match view {
        ViewMode::Document => "📄 Document"@,
        ViewMode::Outline => "📋 Outline"@,
        ViewMode::Search => "🔍 Search"@,
        ViewMode::Help => "❓ Help"@,
    }
}

/// A number one higher, as a decimal numeral; the highest number that a
/// machine word can count stays as it is.
pub open spec fn ordinal(index: usize) -> Seq<char> {
    if index < usize::MAX {
        decimal((index + 1) as nat)
    } else {
        decimal(index as nat)
    }
}

/// What the status bar says of the search: the place among the matches,
/// or that there is none, or nothing where nothing was asked.
pub open spec fn search_note(app: AppModel) -> Seq<char> {
    if app.search_results.len() > 0 {
        " • 🔍 "@ + ordinal(app.current_search_index) + seq!['/'] + decimal(
            app.search_results.len(),
        ) + " matches"@
    } else if app.search_query.len() > 0 {
        " • 🔍 No matches"@
    } else {
        Seq::empty()
    }
}

/// What the status bar says: the status message where there is one; else
/// the view, the name of the file, pages and words, the place in the
/// document, and the search.
pub open spec fn status_line(app: AppModel) -> Seq<char> {
    match app.status_message {
        Some(message) => message,
        None => view_label(app.current_view) + " • 📄 "@ + file_name_of(
            app.document.metadata.file_path,
        ) + " • "@ + decimal(app.document.metadata.page_count as nat) + " pages • "@ + decimal(
            app.document.metadata.word_count as nat,
        ) + " words • "@ + ordinal(app.scroll_offset) + seq!['/'] + decimal(
            app.document.elements.len(),
        ) + search_note(app),
    }
}

/// The title of the list of results: the place of the picked result among
/// them, 0 where there is none, and their number.
pub open spec fn results_title(app: AppModel) -> Seq<char> {
    "Results ("@ + (if app.search_results.len() == 0 {
        decimal(0)
    } else {
        ordinal(app.current_search_index)
    }) + seq!['/'] + decimal(app.search_results.len()) + seq![')']
}

fn push_ordinal(buf: &mut Vec<char>, index: usize)
    ensures
        final(buf)@ == old(buf)@ + ordinal(index),
{
    if index < usize::MAX {
        push_decimal(buf, (index + 1) as u64);
    } else {
        push_decimal(buf, index as u64);
    }
}

impl App {
    /// What the status bar says.
    pub fn status_text(&self) -> (out: String)
        ensures
            out@ == status_line(self@),
    {
        if let Some(message) = &self.status_message {
            return message.clone();
        }
        let mut buf: Vec<char> = Vec::new();
        match self.current_view {
            ViewMode::Document => push_text(&mut buf, "📄 Document"),
            ViewMode::Outline => push_text(&mut buf, "📋 Outline"),
            ViewMode::Search => push_text(&mut buf, "🔍 Search"),
            ViewMode::Help => push_text(&mut buf, "❓ Help"),
        }
        push_text(&mut buf, " • 📄 ");
        let path = chars_of(self.document.metadata.file_path.as_str());
        let name = file_name_chars(path.as_slice());
        append_chars(&mut buf, name.as_slice());
        push_text(&mut buf, " • ");
        push_decimal(&mut buf, self.document.metadata.page_count as u64);
        push_text(&mut buf, " pages • ");
        push_decimal(&mut buf, self.document.metadata.word_count as u64);
        push_text(&mut buf, " words • ");
        push_ordinal(&mut buf, self.scroll_offset);
        buf.push('/');
        push_decimal(&mut buf, self.document.elements.len() as u64);
        let ghost head = buf@;
        if self.search_results.len() > 0 {
            push_text(&mut buf, " • 🔍 ");
            push_ordinal(&mut buf, self.current_search_index);
            buf.push('/');
            push_decimal(&mut buf, self.search_results.len() as u64);
            push_text(&mut buf, " matches");
        } else if byte_len(self.search_query.as_str()) > 0 {
            push_text(&mut buf, " • 🔍 No matches");
        }
        proof {
            lemma_utf8_len_is_length_zero(self.search_query@);
            assert(buf@ =~= head + search_note(self@));
            assert(buf@ =~= status_line(self@));
        }
        string_of(buf.as_slice())
    }

    /// The title of the list of results.
    pub fn results_title_text(&self) -> (out: String)
        ensures
            out@ == results_title(self@),
    {
        let mut buf: Vec<char> = Vec::new();
        push_text(&mut buf, "Results (");
        if self.search_results.len() == 0 {
            push_decimal(&mut buf, 0);
        } else {
            push_ordinal(&mut buf, self.current_search_index);
        }
        buf.push('/');
        push_decimal(&mut buf, self.search_results.len() as u64);
        buf.push(')');
        assert(buf@ =~= results_title(self@));
        string_of(buf.as_slice())
    }
}

} // verus!
