//! The state of the interactive viewer and the decisions it takes.
//!
//! Drawing, the clipboard and the reading of keys are the caller's part.
//! This module holds the state, says how each key changes it, and what the
//! caller is to do next.

use vstd::prelude::*;
use crate::model::{opt_text, Document, DocumentModel};
use crate::scan::{
    byte_len, char_width, lemma_utf8_len_concat, utf8_len, width_of,
};
use crate::search::{
    generate_outline, outline_of, results_model, search_document, search_hits, SearchResult,
    SearchResultModel,
};
use crate::text::{chars_of, copy_range, string_of};

verus! {

/// A search result longer than this is cut when it is shown.
pub const RESULT_DISPLAY_LIMIT: usize = 80;

/// How many bytes of a long search result are shown.
pub const RESULT_DISPLAY_KEPT: usize = 77;

/// How many elements make a page when jumping to one.
pub const ELEMENTS_PER_PAGE: usize = 10;

// ---------------------------------------------------------------------------
// Cutting a text without cutting a character
// ---------------------------------------------------------------------------

/// The number of characters at the start of `s` that fit into `budget`
/// bytes.
pub open spec fn fitting_chars(s: Seq<char>, budget: nat) -> nat
    decreases s.len(),
{
    if s.len() == 0 || char_width(s[0]) > budget {
        0
    } else {
        1 + fitting_chars(s.drop_first(), (budget - char_width(s[0])) as nat)
    }
}

/// The longest start of `s` that takes no more than `max_bytes` bytes and
/// ends where a character ends.
pub open spec fn truncated_to(s: Seq<char>, max_bytes: nat) -> Seq<char> {
    s.subrange(0, fitting_chars(s, max_bytes) as int)
}

/// What fits does fit, and one character more does not.
pub proof fn lemma_fitting_chars(s: Seq<char>, budget: nat)
    ensures
        fitting_chars(s, budget) <= s.len(),
        utf8_len(s.subrange(0, fitting_chars(s, budget) as int)) <= budget,
        fitting_chars(s, budget) < s.len() ==> utf8_len(
            s.subrange(0, (fitting_chars(s, budget) + 1) as int),
        ) > budget,
    decreases s.len(),
{
    if s.len() == 0 || char_width(s[0]) > budget {
        assert(s.subrange(0, 0) =~= Seq::<char>::empty());
        if s.len() > 0 {
            assert(s.subrange(0, 1) =~= seq![s[0]]);
            assert(seq![s[0]].drop_first() =~= Seq::<char>::empty());
            assert(utf8_len(seq![s[0]]) == char_width(s[0]) + utf8_len(seq![s[0]].drop_first()));
        }
    } else {
        let rest = s.drop_first();
        let left = (budget - char_width(s[0])) as nat;
        lemma_fitting_chars(rest, left);
        let k = fitting_chars(rest, left) as int;
        assert(s.subrange(0, k + 1) =~= seq![s[0]] + rest.subrange(0, k));
        lemma_utf8_len_concat(seq![s[0]], rest.subrange(0, k));
        assert(seq![s[0]].drop_first() =~= Seq::<char>::empty());
        assert(utf8_len(seq![s[0]]) == char_width(s[0]) + utf8_len(seq![s[0]].drop_first()));
        if k < rest.len() {
            assert(s.subrange(0, k + 2) =~= seq![s[0]] + rest.subrange(0, k + 1));
            lemma_utf8_len_concat(seq![s[0]], rest.subrange(0, k + 1));
        }
    }
}

fn fitting_prefix(chars: &[char], max_bytes: usize) -> (k: usize)
    ensures
        k == fitting_chars(chars@, max_bytes as nat),
        k <= chars.len(),
{
    let mut k: usize = 0;
    let mut left: usize = max_bytes;
    assert(chars@.skip(0) =~= chars@);
    while k < chars.len() && (width_of(chars[k]) as usize) <= left
        invariant
            k <= chars.len(),
            fitting_chars(chars@, max_bytes as nat) == k + fitting_chars(
                chars@.skip(k as int),
                left as nat,
            ),
        decreases chars.len() - k,
    {
        proof {
            assert(chars@.skip(k as int)[0] == chars@[k as int]);
            assert(chars@.skip(k as int).drop_first() =~= chars@.skip(k + 1));
        }
        left = left - width_of(chars[k]) as usize;
        k += 1;
    }
    proof {
        if k < chars.len() {
            assert(chars@.skip(k as int)[0] == chars@[k as int]);
        }
    }
    k
}

/// The longest start of `s` that takes no more than `max_bytes` bytes and
/// ends where a character ends.
pub fn safe_truncate_bytes(s: &str, max_bytes: usize) -> (out: String)
    ensures
        out@ == truncated_to(s@, max_bytes as nat),
{
    let cs = chars_of(s);
    let k = fitting_prefix(cs.as_slice(), max_bytes);
    let kept = copy_range(cs.as_slice(), 0, k);
    string_of(kept.as_slice())
}

/// How a search result is shown: as it is where it takes no more than 80
/// bytes; else its first 77 bytes, or fewer so as to end where a character
/// ends, and three dots.
pub open spec fn result_display(text: Seq<char>) -> Seq<char> {
    if utf8_len(text) > RESULT_DISPLAY_LIMIT {
        truncated_to(text, RESULT_DISPLAY_KEPT as nat) + seq!['.', '.', '.']
    } else {
        text
    }
}

/// How the search result `text` is shown.
pub fn display_search_result(text: &str) -> (out: String)
    ensures
        out@ == result_display(text@),
{
    if byte_len(text) > RESULT_DISPLAY_LIMIT {
        let cs = chars_of(text);
        let k = fitting_prefix(cs.as_slice(), RESULT_DISPLAY_KEPT);
        let mut kept = copy_range(cs.as_slice(), 0, k);
        kept.push('.');
        kept.push('.');
        kept.push('.');
        assert(kept@ =~= truncated_to(text@, RESULT_DISPLAY_KEPT as nat) + seq!['.', '.', '.']);
        string_of(kept.as_slice())
    } else {
        let cs = chars_of(text);
        string_of(cs.as_slice())
    }
}

// ---------------------------------------------------------------------------
// Colours
// ---------------------------------------------------------------------------

/// The value of a hexadecimal digit, if `c` is one.
pub open spec fn hex_value(c: char) -> Option<u8> {
    if '0' <= c <= '9' {
        Some((c as u8 - 0x30) as u8)
    } else if 'a' <= c <= 'f' {
        Some((c as u8 - 0x61 + 10) as u8)
    } else if 'A' <= c <= 'F' {
        Some((c as u8 - 0x41 + 10) as u8)
    } else {
        None
    }
}

/// The byte that two characters write in base sixteen: two digits, or a
/// `+` and one digit.
pub open spec fn hex_byte(high: char, low: char) -> Option<u8> {
    if high == '+' {
        hex_value(low)
    } else {
        match (hex_value(high), hex_value(low)) {
            (Some(h), Some(l)) => Some((h * 16 + l) as u8),
            _ => None,
        }
    }
}

/// `s` without the characters `#` at its start.
pub open spec fn without_hashes(s: Seq<char>) -> Seq<char>
    decreases s.len(),
{
    if s.len() > 0 && s[0] == '#' {
        without_hashes(s.drop_first())
    } else {
        s
    }
}

/// The red, green and blue of a colour written as three bytes in base
/// sixteen, six characters in all, with or without `#` in front, and
/// nothing for any other text.
pub open spec fn hex_color(s: Seq<char>) -> Option<(u8, u8, u8)> {
    let h = without_hashes(s);
    if h.len() != 6 {
        None
    } else {
        match (hex_byte(h[0], h[1]), hex_byte(h[2], h[3]), hex_byte(h[4], h[5])) {
            (Some(r), Some(g), Some(b)) => Some((r, g, b)),
            _ => None,
        }
    }
}

fn hex_digit(c: char) -> (r: Option<u8>)
    ensures
        r == hex_value(c),
{
    if '0' <= c && c <= '9' {
        Some((c as u8) - 0x30)
    } else if 'a' <= c && c <= 'f' {
        Some((c as u8) - 0x61 + 10)
    } else if 'A' <= c && c <= 'F' {
        Some((c as u8) - 0x41 + 10)
    } else {
        None
    }
}

fn hex_pair(high: char, low: char) -> (r: Option<u8>)
    ensures
        r == hex_byte(high, low),
{
    if high == '+' {
        return hex_digit(low);
    }
    match (hex_digit(high), hex_digit(low)) {
        (Some(h), Some(l)) => Some(h * 16 + l),
        _ => None,
    }
}

/// The red, green and blue of the colour that `hex` writes.
pub fn hex_to_color(hex: &str) -> (r: Option<(u8, u8, u8)>)
    ensures
        r == hex_color(hex@),
{
    let cs = chars_of(hex);
    let cs = cs.as_slice();
    let mut start: usize = 0;
    assert(cs@.skip(0) =~= cs@);
    while start < cs.len() && cs[start] == '#'
        invariant
            start <= cs.len(),
            without_hashes(cs@.skip(start as int)) == without_hashes(cs@),
        decreases cs.len() - start,
    {
        proof {
            assert(cs@.skip(start as int)[0] == cs@[start as int]);
            assert(cs@.skip(start as int).drop_first() =~= cs@.skip(start + 1));
        }
        start += 1;
    }
    proof {
        if start < cs.len() {
            assert(cs@.skip(start as int)[0] == cs@[start as int]);
        }
        assert(without_hashes(cs@) == cs@.skip(start as int));
    }
    if cs.len() - start != 6 {
        return None;
    }
    match (
        hex_pair(cs[start], cs[start + 1]),
        hex_pair(cs[start + 2], cs[start + 3]),
        hex_pair(cs[start + 4], cs[start + 5]),
    ) {
        (Some(r), Some(g), Some(b)) => Some((r, g, b)),
        _ => None,
    }
}

// ---------------------------------------------------------------------------
// The state of the viewer
// ---------------------------------------------------------------------------

/// What the viewer shows.
#[derive(Debug, Clone, Copy, PartialEq, Eq, Structural)]
pub enum ViewMode {
    Document,
    Outline,
    Search,
    Help,
}

/// How the viewer is started.
#[derive(Debug, Clone)]
pub struct ViewerOptions {
    /// Start with the outline.
    pub outline: bool,
    /// Start with a search for this text.
    pub search: Option<String>,
    /// Start at this page, counted from 1.
    pub page: Option<usize>,
    /// Show the colours of the text.
    pub color: bool,
}

/// The view of a `ViewerOptions`: every string as the sequence of its characters.
pub struct ViewerOptionsModel {
    pub outline: bool,
    pub search: Option<Seq<char>>,
    pub page: Option<usize>,
    pub color: bool,
}

impl View for ViewerOptions {
    type V = ViewerOptionsModel;

    open spec fn view(&self) -> ViewerOptionsModel {
        ViewerOptionsModel {
            outline: self.outline,
            search: opt_text(self.search),
            page: self.page,
            color: self.color,
        }
    }
}

/// The state of the viewer.
#[derive(Debug)]
pub struct App {
    pub document: Document,
    pub current_view: ViewMode,
    pub scroll_offset: usize,
    pub search_query: String,
    pub search_results: Vec<SearchResult>,
    pub current_search_index: usize,
    /// The heading that is picked in the outline.
    pub outline_selected: Option<usize>,
    pub show_help: bool,
    pub status_message: Option<String>,
    pub color_enabled: bool,
}

/// The view of a `App`: every string as the sequence of its characters.
pub struct AppModel {
    pub document: DocumentModel,
    pub current_view: ViewMode,
    pub scroll_offset: usize,
    pub search_query: Seq<char>,
    pub search_results: Seq<SearchResultModel>,
    pub current_search_index: usize,
    pub outline_selected: Option<usize>,
    pub show_help: bool,
    pub status_message: Option<Seq<char>>,
    pub color_enabled: bool,
}

impl View for App {
    type V = AppModel;

    open spec fn view(&self) -> AppModel {
        AppModel {
            document: self.document@,
            current_view: self.current_view,
            scroll_offset: self.scroll_offset,
            search_query: self.search_query@,
            search_results: results_model(self.search_results@),
            current_search_index: self.current_search_index,
            outline_selected: self.outline_selected,
            show_help: self.show_help,
            status_message: opt_text(self.status_message),
            color_enabled: self.color_enabled,
        }
    }
}

/// A key that was pressed.
#[derive(Debug, Clone, Copy, PartialEq, Eq, Structural)]
pub enum Key {
    Char(char),
    /// A function key, by its number.
    F(u8),
    Up,
    Down,
    PageUp,
    PageDown,
    Home,
    End,
    Esc,
    Enter,
    Backspace,
    /// Any other key.
    Other,
}

/// What the caller is to do after a key.
#[derive(Debug, Clone, Copy, PartialEq, Eq, Structural)]
pub enum ViewerAction {
    /// Draw again and wait for the next key.
    Continue,
    /// Leave the viewer.
    Quit,
    /// Put `copy_text` on the clipboard and report with `copy_finished`.
    Copy,
}

/// How putting a text on the clipboard ended.
#[derive(Debug, Clone, Copy, PartialEq, Eq, Structural)]
pub enum CopyOutcome {
    Copied,
    Failed,
    /// There is no clipboard.
    Unavailable,
}

/// The number of pages that a key pages by.
pub const PAGE_KEY_STEP: usize = 10;

/// The number of elements that one turn of the wheel scrolls by.
pub const WHEEL_STEP: usize = 3;

/// A product held to what a machine word can count.
pub open spec fn capped_product(a: nat, b: nat) -> usize {
    if a * b > usize::MAX {
        usize::MAX
    } else {
        (a * b) as usize
    }
}

/// The element at which the viewer starts for a page.
pub open spec fn page_offset(page: Option<usize>) -> usize {
    match page {
        Some(p) => capped_product(
            if p > 0 {
                (p - 1) as nat
            } else {
                0
            },
            ELEMENTS_PER_PAGE as nat,
        ),
        None => 0,
    }
}

/// The state in which the viewer starts: with a search where one was asked
/// for, else with the outline where that was asked for, else with the
/// document.
pub open spec fn initial_app(document: DocumentModel, options: ViewerOptionsModel) -> AppModel {
    AppModel {
        document,
        current_view: if options.search is Some {
            ViewMode::Search
        } else if options.outline {
            ViewMode::Outline
        } else {
            ViewMode::Document
        },
        scroll_offset: page_offset(options.page),
        search_query: match options.search {
            Some(q) => q,
            None => Seq::empty(),
        },
        search_results: match options.search {
            Some(q) => search_hits(document.elements, q),
            None => Seq::empty(),
        },
        current_search_index: 0,
        outline_selected: None,
        show_help: false,
        status_message: None,
        color_enabled: options.color,
    }
}

/// The state with the search result of index `index` picked: the viewer
/// scrolls to its element where there is such a result.
pub open spec fn at_result(app: AppModel, index: usize) -> AppModel {
    AppModel {
        current_search_index: index,
        scroll_offset: if index < app.search_results.len() {
            app.search_results[index as int].element_index
        } else {
            app.scroll_offset
        },
        ..app
    }
}

/// The state after a step to the next search result, the first coming
/// after the last.
pub open spec fn next_result(app: AppModel) -> AppModel {
    if app.search_results.len() == 0 {
        app
    } else {
        at_result(app, ((app.current_search_index + 1) % (app.search_results.len() as int)) as usize)
    }
}

/// The state after a step to the search result before, the last coming
/// before the first.
pub open spec fn prev_result(app: AppModel) -> AppModel {
    if app.search_results.len() == 0 {
        app
    } else if app.current_search_index == 0 {
        at_result(app, (app.search_results.len() - 1) as usize)
    } else {
        at_result(app, (app.current_search_index - 1) as usize)
    }
}

/// The state scrolled up by `step` elements, not past the first.
pub open spec fn scrolled_up(app: AppModel, step: nat) -> AppModel {
    AppModel {
        scroll_offset: if app.scroll_offset > step {
            (app.scroll_offset - step) as usize
        } else {
            0
        },
        ..app
    }
}

/// The state scrolled down by one element, not past the last.
pub open spec fn scrolled_down(app: AppModel) -> AppModel {
    if app.scroll_offset + 1 < app.document.elements.len() {
        AppModel { scroll_offset: (app.scroll_offset + 1) as usize, ..app }
    } else {
        app
    }
}

/// The index of the last element, and 0 for a document without elements.
pub open spec fn last_offset(app: AppModel) -> usize {
    if app.document.elements.len() > 0 {
        (app.document.elements.len() - 1) as usize
    } else {
        0
    }
}

/// The state scrolled down by `step` elements, not past the last.
pub open spec fn paged_down(app: AppModel, step: nat) -> AppModel {
    AppModel {
        scroll_offset: if app.scroll_offset + step < last_offset(app) {
            (app.scroll_offset + step) as usize
        } else {
            last_offset(app)
        },
        ..app
    }
}

/// The state with the heading before the picked one picked in the outline.
pub open spec fn outline_up(app: AppModel) -> AppModel {
    match app.outline_selected {
        Some(s) if s > 0 => AppModel { outline_selected: Some((s - 1) as usize), ..app },
        _ => app,
    }
}

/// The heading that counts as picked: the first where none is.
pub open spec fn picked(app: AppModel) -> usize {
    match app.outline_selected {
        Some(s) => s,
        None => 0,
    }
}

/// The state with the heading after the picked one picked in the outline.
pub open spec fn outline_down(app: AppModel) -> AppModel {
    if picked(app) + 1 < outline_of(app.document.elements).len() {
        AppModel { outline_selected: Some((picked(app) + 1) as usize), ..app }
    } else {
        app
    }
}

/// The state after the picked heading was chosen: the viewer shows the
/// document at that heading.
pub open spec fn outline_chosen(app: AppModel) -> AppModel {
    match app.outline_selected {
        Some(s) if s < outline_of(app.document.elements).len() => AppModel {
            scroll_offset: outline_of(app.document.elements)[s as int].element_index,
            current_view: ViewMode::Document,
            ..app
        },
        _ => app,
    }
}

/// The state with another query: the results are those of the query and
/// the first of them is picked.
pub open spec fn with_query(app: AppModel, query: Seq<char>) -> AppModel {
    AppModel {
        search_query: query,
        search_results: search_hits(app.document.elements, query),
        current_search_index: 0,
        ..app
    }
}

/// A text without its last character.
pub open spec fn without_last(s: Seq<char>) -> Seq<char> {
    if s.len() > 0 {
        s.drop_last()
    } else {
        s
    }
}

/// Whether a key leaves the status message in place: the keys that copy.
pub open spec fn keeps_status(key: Key) -> bool {
    key == Key::Char('c') || key == Key::F(2)
}

/// The state without a status message.
pub open spec fn without_status(app: AppModel) -> AppModel {
    AppModel { status_message: None, ..app }
}

/// What a key does while the document is shown.
pub open spec fn document_key(app: AppModel, key: Key) -> (AppModel, ViewerAction) {
    match key {
        Key::Char('q') => (app, ViewerAction::Quit),
        Key::Char('o') => (AppModel { current_view: ViewMode::Outline, ..app }, ViewerAction::Continue),
        Key::Char('s') => (AppModel { current_view: ViewMode::Search, ..app }, ViewerAction::Continue),
        Key::Char('h') | Key::F(1) => (
            AppModel { show_help: !app.show_help, ..app },
            ViewerAction::Continue,
        ),
        Key::Char('c') => (app, ViewerAction::Copy),
        Key::Up | Key::Char('k') => (scrolled_up(app, 1), ViewerAction::Continue),
        Key::Down | Key::Char('j') => (scrolled_down(app), ViewerAction::Continue),
        Key::PageUp => (scrolled_up(app, PAGE_KEY_STEP as nat), ViewerAction::Continue),
        Key::PageDown => (paged_down(app, PAGE_KEY_STEP as nat), ViewerAction::Continue),
        Key::Home => (AppModel { scroll_offset: 0, ..app }, ViewerAction::Continue),
        Key::End => (AppModel { scroll_offset: last_offset(app), ..app }, ViewerAction::Continue),
        Key::Char('n') => (next_result(app), ViewerAction::Continue),
        Key::Char('p') => (prev_result(app), ViewerAction::Continue),
        _ => (app, ViewerAction::Continue),
    }
}

/// What a key does while the outline is shown.
pub open spec fn outline_key(app: AppModel, key: Key) -> (AppModel, ViewerAction) {
    match key {
        Key::Char('q') | Key::Esc => (
            AppModel { current_view: ViewMode::Document, ..app },
            ViewerAction::Continue,
        ),
        Key::Char('c') => (app, ViewerAction::Copy),
        Key::Up | Key::Char('k') => (outline_up(app), ViewerAction::Continue),
        Key::Down | Key::Char('j') => (outline_down(app), ViewerAction::Continue),
        Key::Enter => (outline_chosen(app), ViewerAction::Continue),
        _ => (app, ViewerAction::Continue),
    }
}

/// What a key does while the search is shown.
pub open spec fn search_key(app: AppModel, key: Key) -> (AppModel, ViewerAction) {
    match key {
        Key::Char('q') | Key::Esc => (
            AppModel { current_view: ViewMode::Document, ..app },
            ViewerAction::Continue,
        ),
        Key::F(2) => (app, ViewerAction::Copy),
        Key::Char(c) => (with_query(app, app.search_query.push(c)), ViewerAction::Continue),
        Key::Backspace => (
            with_query(app, without_last(app.search_query)),
            ViewerAction::Continue,
        ),
        Key::Enter | Key::Down => (next_result(app), ViewerAction::Continue),
        Key::Up => (prev_result(app), ViewerAction::Continue),
        _ => (app, ViewerAction::Continue),
    }
}

/// What a key does while the help is shown.
pub open spec fn help_key(app: AppModel, key: Key) -> (AppModel, ViewerAction) {
    match key {
        Key::Char('q') | Key::Esc | Key::Char('h') | Key::F(1) => (
            AppModel { show_help: false, current_view: ViewMode::Document, ..app },
            ViewerAction::Continue,
        ),
        _ => (app, ViewerAction::Continue),
    }
}

/// What a key does: any key but one that copies takes the status message
/// away; then the view decides.
pub open spec fn after_key(app: AppModel, key: Key) -> (AppModel, ViewerAction) {
    let cleared = if app.status_message is Some && !keeps_status(key) {
        without_status(app)
    } else {
        app
    };
    match cleared.current_view {
        ViewMode::Document => document_key(cleared, key),
        ViewMode::Outline => outline_key(cleared, key),
        ViewMode::Search => search_key(cleared, key),
        ViewMode::Help => help_key(cleared, key),
    }
}

/// What a turn of the wheel does: in the document it scrolls by three
/// elements, in the outline it picks the next heading, in the search the
/// next result.
pub open spec fn after_wheel(app: AppModel, up: bool) -> AppModel {
    match app.current_view {
        ViewMode::Document => if up {
            scrolled_up(app, WHEEL_STEP as nat)
        } else {
            scrolled_down(scrolled_down(scrolled_down(app)))
        },
        ViewMode::Outline => if up {
            outline_up(app)
        } else {
            outline_down(app)
        },
        ViewMode::Search => if up {
            prev_result(app)
        } else {
            next_result(app)
        },
        ViewMode::Help => app,
    }
}

/// The status message that reports how copying ended.
pub open spec fn copy_status(outcome: CopyOutcome) -> Seq<char> {
    match outcome {
        CopyOutcome::Copied => "Copied to clipboard!"@,
        CopyOutcome::Failed => "Failed to copy to clipboard."@,
        CopyOutcome::Unavailable => "Clipboard not available."@,
    }
}

impl App {
    /// The viewer at its start.
    pub fn new(document: Document, options: &ViewerOptions) -> (app: Self)
        ensures
            app@ == initial_app(document@, options@),
    {
        let mut current_view = ViewMode::Document;
        if options.outline {
            current_view = ViewMode::Outline;
        }
        let mut search_query = String::new();
        let mut search_results: Vec<SearchResult> = Vec::new();
        if let Some(search) = &options.search {
            search_query = search.clone();
            search_results = search_document(&document, search.as_str());
            current_view = ViewMode::Search;
        }
        let scroll_offset: usize = match options.page {
            Some(page) => {
                let before: usize = if page > 0 {
                    page - 1
                } else {
                    0
                };
                match before.checked_mul(ELEMENTS_PER_PAGE) {
                    Some(offset) => offset,
                    None => usize::MAX,
                }
            },
            None => 0,
        };
        let app = App {
            document,
            current_view,
            scroll_offset,
            search_query,
            search_results,
            current_search_index: 0,
            outline_selected: None,
            show_help: false,
            status_message: None,
            color_enabled: options.color,
        };
        assert(app@.search_results =~= initial_app(document@, options@).search_results);
        assert(app@.search_query =~= initial_app(document@, options@).search_query);
        app
    }

    fn go_to_result(&mut self, index: usize)
        ensures
            final(self)@ == at_result(old(self)@, index),
    {
        self.current_search_index = index;
        if index < self.search_results.len() {
            self.scroll_offset = self.search_results[index].element_index;
        }
    }

    /// Steps to the next search result, the first coming after the last,
    /// and scrolls to its element.
    pub fn next_search_result(&mut self)
        ensures
            final(self)@ == next_result(old(self)@),
    {
        let n: usize = self.search_results.len();
        if n > 0 {
            let r: usize = self.current_search_index % n;
            let next: usize = if r + 1 == n {
                0
            } else {
                r + 1
            };
            assert(next == (self.current_search_index + 1) % (n as int)) by {
                vstd::arithmetic::div_mod::lemma_add_mod_noop(
                    self.current_search_index as int,
                    1,
                    n as int,
                );
                if n == 1 {
                    vstd::arithmetic::div_mod::lemma_mod_self_0(1);
                } else {
                    vstd::arithmetic::div_mod::lemma_small_mod(1, n as nat);
                    if r + 1 == n {
                        vstd::arithmetic::div_mod::lemma_mod_self_0(n as int);
                    } else {
                        vstd::arithmetic::div_mod::lemma_small_mod((r + 1) as nat, n as nat);
                    }
                }
            }
            self.go_to_result(next);
        }
    }

    /// Steps to the search result before, the last coming before the
    /// first, and scrolls to its element.
    pub fn prev_search_result(&mut self)
        ensures
            final(self)@ == prev_result(old(self)@),
    {
        let n: usize = self.search_results.len();
        if n > 0 {
            let prev: usize = if self.current_search_index == 0 {
                n - 1
            } else {
                self.current_search_index - 1
            };
            self.go_to_result(prev);
        }
    }

    /// Scrolls up by one element.
    pub fn scroll_up(&mut self)
        ensures
            final(self)@ == scrolled_up(old(self)@, 1),
    {
        self.scroll_offset = self.scroll_offset.saturating_sub(1);
    }

    /// Scrolls down by one element, not past the last.
    pub fn scroll_down(&mut self)
        ensures
            final(self)@ == scrolled_down(old(self)@),
    {
        let n: usize = self.document.elements.len();
        if n > 0 && self.scroll_offset < n - 1 {
            self.scroll_offset += 1;
        }
    }

    /// Scrolls up by `page_size` elements.
    pub fn page_up(&mut self, page_size: usize)
        ensures
            final(self)@ == scrolled_up(old(self)@, page_size as nat),
    {
        self.scroll_offset = self.scroll_offset.saturating_sub(page_size);
    }

    /// Scrolls down by `page_size` elements, not past the last.
    pub fn page_down(&mut self, page_size: usize)
        ensures
            final(self)@ == paged_down(old(self)@, page_size as nat),
    {
        let max_offset: usize = self.document.elements.len().saturating_sub(1);
        let target: usize = self.scroll_offset.saturating_add(page_size);
        self.scroll_offset = if target < max_offset {
            target
        } else {
            max_offset
        };
    }

    /// Takes the status message away.
    pub fn clear_status_message(&mut self)
        ensures
            final(self)@ == without_status(old(self)@),
    {
        self.status_message = None;
    }

    /// Reports how putting the text on the clipboard ended.
    pub fn copy_finished(&mut self, outcome: CopyOutcome)
        ensures
            final(self)@ == (AppModel { status_message: Some(copy_status(outcome)), ..old(self)@ }),
    {
        let message: &str = match outcome {
            CopyOutcome::Copied => "Copied to clipboard!",
            CopyOutcome::Failed => "Failed to copy to clipboard.",
            CopyOutcome::Unavailable => "Clipboard not available.",
        };
        self.status_message = Some(message.to_owned());
    }

    fn select_up(&mut self)
        ensures
            final(self)@ == outline_up(old(self)@),
    {
        if let Some(selected) = self.outline_selected {
            if selected > 0 {
                self.outline_selected = Some(selected - 1);
            }
        }
    }

    fn select_down(&mut self)
        ensures
            final(self)@ == outline_down(old(self)@),
    {
        let selected: usize = match self.outline_selected {
            Some(s) => s,
            None => 0,
        };
        let outline = generate_outline(&self.document);
        assert(crate::search::outline_model(outline@).len() == outline@.len());
        let count: usize = outline.len();
        if selected < usize::MAX && selected + 1 < count {
            self.outline_selected = Some(selected + 1);
        }
    }

    fn choose_selected(&mut self)
        ensures
            final(self)@ == outline_chosen(old(self)@),
    {
        if let Some(selected) = self.outline_selected {
            let outline = generate_outline(&self.document);
            assert(crate::search::outline_model(outline@).len() == outline@.len());
            if selected < outline.len() {
                assert(outline_of(self.document@.elements)[selected as int] == outline@[selected as int]@);
                self.scroll_offset = outline[selected].element_index;
                self.current_view = ViewMode::Document;
            }
        }
    }

    fn set_query(&mut self, query: String)
        ensures
            final(self)@ == with_query(old(self)@, query@),
    {
        self.search_results = search_document(&self.document, query.as_str());
        self.search_query = query;
        self.current_search_index = 0;
    }

    /// Takes a key and says what the caller is to do next.
    #[verifier::spinoff_prover]
    #[verifier::rlimit(40)]
    pub fn handle_key(&mut self, key: Key) -> (action: ViewerAction)
        ensures
            (final(self)@, action) == after_key(old(self)@, key),
    {
        let copies = match key {
            Key::Char(c) => c == 'c',
            Key::F(n) => n == 2,
            _ => false,
        };
        if self.status_message.is_some() && !copies {
            self.clear_status_message();
        }
        match self.current_view {
            ViewMode::Document => match key {
                Key::Char(c) => {
                    if c == 'q' {
                        return ViewerAction::Quit;
                    } else if c == 'o' {
                        self.current_view = ViewMode::Outline;
                    } else if c == 's' {
                        self.current_view = ViewMode::Search;
                    } else if c == 'h' {
                        self.show_help = !self.show_help;
                    } else if c == 'c' {
                        return ViewerAction::Copy;
                    } else if c == 'k' {
                        self.scroll_up();
                    } else if c == 'j' {
                        self.scroll_down();
                    } else if c == 'n' {
                        self.next_search_result();
                    } else if c == 'p' {
                        self.prev_search_result();
                    }
                    ViewerAction::Continue
                },
                Key::F(n) => {
                    if n == 1 {
                        self.show_help = !self.show_help;
                    }
                    ViewerAction::Continue
                },
                Key::Up => {
                    self.scroll_up();
                    ViewerAction::Continue
                },
                Key::Down => {
                    self.scroll_down();
                    ViewerAction::Continue
                },
                Key::PageUp => {
                    self.page_up(PAGE_KEY_STEP);
                    ViewerAction::Continue
                },
                Key::PageDown => {
                    self.page_down(PAGE_KEY_STEP);
                    ViewerAction::Continue
                },
                Key::Home => {
                    self.scroll_offset = 0;
                    ViewerAction::Continue
                },
                Key::End => {
                    self.scroll_offset = self.document.elements.len().saturating_sub(1);
                    ViewerAction::Continue
                },
                _ => ViewerAction::Continue,
            },
            ViewMode::Outline => match key {
                Key::Char(c) => {
                    if c == 'q' {
                        self.current_view = ViewMode::Document;
                    } else if c == 'c' {
                        return ViewerAction::Copy;
                    } else if c == 'k' {
                        self.select_up();
                    } else if c == 'j' {
                        self.select_down();
                    }
                    ViewerAction::Continue
                },
                Key::Esc => {
                    self.current_view = ViewMode::Document;
                    ViewerAction::Continue
                },
                Key::Up => {
                    self.select_up();
                    ViewerAction::Continue
                },
                Key::Down => {
                    self.select_down();
                    ViewerAction::Continue
                },
                Key::Enter => {
                    self.choose_selected();
                    ViewerAction::Continue
                },
                _ => ViewerAction::Continue,
            },
            ViewMode::Search => match key {
                Key::Char(c) => {
                    if c == 'q' {
                        self.current_view = ViewMode::Document;
                    } else {
                        let mut query = self.search_query.clone();
                        query.push(c);
                        self.set_query(query);
                    }
                    ViewerAction::Continue
                },
                Key::Esc => {
                    self.current_view = ViewMode::Document;
                    ViewerAction::Continue
                },
                Key::F(n) => {
                    if n == 2 {
                        return ViewerAction::Copy;
                    }
                    ViewerAction::Continue
                },
                Key::Backspace => {
                    let cs = chars_of(self.search_query.as_str());
                    let kept: usize = if cs.len() > 0 {
                        cs.len() - 1
                    } else {
                        0
                    };
                    let shorter = copy_range(cs.as_slice(), 0, kept);
                    assert(shorter@ =~= without_last(self.search_query@));
                    self.set_query(string_of(shorter.as_slice()));
                    ViewerAction::Continue
                },
                Key::Enter | Key::Down => {
                    self.next_search_result();
                    ViewerAction::Continue
                },
                Key::Up => {
                    self.prev_search_result();
                    ViewerAction::Continue
                },
                _ => ViewerAction::Continue,
            },
            ViewMode::Help => {
                let leaves = match key {
                    Key::Char(c) => c == 'q' || c == 'h',
                    Key::Esc => true,
                    Key::F(n) => n == 1,
                    _ => false,
                };
                if leaves {
                    self.show_help = false;
                    self.current_view = ViewMode::Document;
                }
                ViewerAction::Continue
            },
        }
    }

    /// Takes a turn of the wheel.
    pub fn handle_wheel(&mut self, up: bool)
        ensures
            final(self)@ == after_wheel(old(self)@, up),
    {
        match self.current_view {
            ViewMode::Document => {
                if up {
                    self.page_up(WHEEL_STEP);
                } else {
                    self.scroll_down();
                    self.scroll_down();
                    self.scroll_down();
                }
            },
            ViewMode::Outline => {
                if up {
                    self.select_up();
                } else {
                    self.select_down();
                }
            },
            ViewMode::Search => {
                if up {
                    self.prev_search_result();
                } else {
                    self.next_search_result();
                }
            },
            ViewMode::Help => {},
        }
    }
}

// ---------------------------------------------------------------------------
// Tables on screen
// ---------------------------------------------------------------------------

/// Which border of a table.
#[derive(Debug, Clone, Copy, PartialEq, Eq, Structural)]
pub enum BorderType {
    Top,
    Separator,
    Bottom,
}

/// The left, middle and right pieces of a border.
pub open spec fn border_pieces(border_type: BorderType) -> (char, char, char) {
    match border_type {
        BorderType::Top => ('┌', '┬', '┐'),
        BorderType::Separator => ('├', '┼', '┤'),
        BorderType::Bottom => ('└', '┴', '┘'),
    }
}

/// A border of a table on screen.
pub open spec fn screen_border(widths: Seq<usize>, border_type: BorderType) -> Seq<char> {
    crate::export::table_border(
        widths,
        seq![border_pieces(border_type).0],
        seq![border_pieces(border_type).1],
        seq![border_pieces(border_type).2],
        seq!['─'],
    )
}

/// A border of a table: its corner or joint pieces with a line two wider
/// than each column between them.
pub fn generate_table_border(column_widths: &[usize], border_type: BorderType) -> (out: String)
    ensures
        out@ == screen_border(column_widths@, border_type),
{
    let (left, middle, right) = match border_type {
        BorderType::Top => ('┌', '┬', '┐'),
        BorderType::Separator => ('├', '┼', '┤'),
        BorderType::Bottom => ('└', '┴', '┘'),
    };
    let mut buf: Vec<char> = Vec::new();
    crate::export::push_box_border(&mut buf, column_widths, left, middle, right);
    assert(buf@ =~= screen_border(column_widths@, border_type));
    string_of(buf.as_slice())
}

/// The text of a cell, trimmed and padded to `width`.
pub fn align_cell_content(content: &str, alignment: crate::model::TextAlignment, width: usize) -> (out:
    String)
    ensures
        out@ == crate::export::aligned_cell(content@, alignment, width as nat),
{
    crate::export::align_text_cell_content(content, alignment, width)
}

/// The text of a cell as it is shown: formatting leaves it as it is.
pub fn apply_cell_formatting(content: &str, _formatting: &crate::model::TextFormatting) -> (out:
    String)
    ensures
        out@ == content@,
{
    content.to_owned()
}

/// A row of a table on screen.
pub fn render_table_row(
    cells: &Vec<crate::model::TableCell>,
    column_widths: &[usize],
    _is_header: bool,
) -> (out: String)
    ensures
        out@ == crate::export::table_row(crate::model::cells_model(cells@), column_widths@),
{
    crate::export::render_text_table_row(cells, column_widths, _is_header)
}

} // verus!
