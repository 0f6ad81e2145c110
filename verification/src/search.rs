//! Search over the texts of a document, and its outline.

use vstd::prelude::*;
use crate::model::{
    cells_model, items_model, rows_model, CellModel, Document, DocumentElement, ElementModel,
    ListItem, ListItemModel, TableCell,
};
use crate::scan::{
    byte_len, byte_len_of, lemma_utf8_len_subrange, matches_at, occurs_at, utf8_len,
};
use crate::text::{append_chars, chars_of, copy_range, string_of};
use crate::trusted::to_lowercase_text;

verus! {

// ---------------------------------------------------------------------------
// Search
// ---------------------------------------------------------------------------

/// One text of the document that holds the query.
///
/// `start_pos` and `end_pos` are byte offsets into the lower-case form of
/// the text.
#[derive(Debug, Clone)]
pub struct SearchResult {
    pub element_index: usize,
    pub text: String,
    pub start_pos: usize,
    pub end_pos: usize,
}

/// The view of a `SearchResult`: every string as the sequence of its characters.
pub struct SearchResultModel {
    pub element_index: usize,
    pub text: Seq<char>,
    pub start_pos: usize,
    pub end_pos: usize,
}

impl View for SearchResult {
    type V = SearchResultModel;

    open spec fn view(&self) -> SearchResultModel {
        SearchResultModel {
            element_index: self.element_index,
            text: self.text@,
            start_pos: self.start_pos,
            end_pos: self.end_pos,
        }
    }
}

/// The views of a sequence of results.
pub open spec fn results_model(results: Seq<SearchResult>) -> Seq<SearchResultModel> {
    results.map_values(|r: SearchResult| r@)
}

/// The first index at or after `from` at which `p` stands in `s`, and a
/// number beyond the length of `s` where it stands nowhere.
pub open spec fn find_text(s: Seq<char>, p: Seq<char>, from: int) -> int
    decreases s.len() + 1 - from,
{
    if from < 0 || from + p.len() > s.len() {
        (s.len() + 1) as int
    } else if occurs_at(s, p, from) {
        from
    } else {
        find_text(s, p, from + 1)
    }
}

/// A sum held to what a machine word can count.
pub open spec fn capped_sum(a: nat, b: nat) -> usize {
    if a + b > usize::MAX {
        usize::MAX
    } else {
        (a + b) as usize
    }
}

/// Where `needle` stands first in `hay`, in bytes: the offset of the
/// place, and that offset plus `query_len`; nothing where it stands
/// nowhere.
pub open spec fn match_span(hay: Seq<char>, needle: Seq<char>, query_len: nat) -> Option<
    (usize, usize),
> {
    let at = find_text(hay, needle, 0);
    if at <= hay.len() {
        let start = utf8_len(hay.subrange(0, at));
        Some((start as usize, capped_sum(start, query_len)))
    } else {
        None
    }
}

/// The result for one text, if the lower-case form of the query stands in
/// the lower-case form of the text: the text as it is, the byte offset of
/// the first such place, and that offset plus the length of the query.
pub open spec fn hit(index: usize, text: Seq<char>, query: Seq<char>) -> Seq<SearchResultModel> {
    match match_span(to_lowercase_text(text), to_lowercase_text(query), utf8_len(query)) {
        Some((start, end)) => seq![
            SearchResultModel { element_index: index, text, start_pos: start, end_pos: end },
        ],
        None => Seq::empty(),
    }
}

/// The results for the items of a list, in order.
pub open spec fn hits_in_items(index: usize, items: Seq<ListItemModel>, query: Seq<char>) -> Seq<
    SearchResultModel,
>
    decreases items.len(),
{
    if items.len() == 0 {
        Seq::empty()
    } else {
        hits_in_items(index, items.drop_last(), query) + hit(index, items.last().text, query)
    }
}

/// The results for a row of cells, in order.
pub open spec fn hits_in_cells(index: usize, cells: Seq<CellModel>, query: Seq<char>) -> Seq<
    SearchResultModel,
>
    decreases cells.len(),
{
    if cells.len() == 0 {
        Seq::empty()
    } else {
        hits_in_cells(index, cells.drop_last(), query) + hit(index, cells.last().content, query)
    }
}

/// The results for the rows of a table, row by row.
pub open spec fn hits_in_rows(index: usize, rows: Seq<Seq<CellModel>>, query: Seq<char>) -> Seq<
    SearchResultModel,
>
    decreases rows.len(),
{
    if rows.len() == 0 {
        Seq::empty()
    } else {
        hits_in_rows(index, rows.drop_last(), query) + hits_in_cells(index, rows.last(), query)
    }
}

/// The results for one element: for a heading, a paragraph or an image
/// its text; for a list its items; for a table its header cells and then
/// its rows; for a page break nothing.
pub open spec fn element_hits(index: usize, e: ElementModel, query: Seq<char>) -> Seq<
    SearchResultModel,
> {
    match e {
        ElementModel::Heading { text, .. } => hit(index, text, query),
        ElementModel::Paragraph { text, .. } => hit(index, text, query),
        ElementModel::List { items, .. } => hits_in_items(index, items, query),
        ElementModel::Table { table } => hits_in_cells(index, table.headers, query) + hits_in_rows(
            index,
            table.rows,
            query,
        ),
        ElementModel::Image { description, .. } => hit(index, description, query),
        ElementModel::PageBreak => Seq::empty(),
    }
}

/// The results for the elements before index `n`, element by element.
pub open spec fn hits_before(elements: Seq<ElementModel>, n: int, query: Seq<char>) -> Seq<
    SearchResultModel,
>
    decreases n,
{
    if n <= 0 {
        Seq::empty()
    } else {
        hits_before(elements, n - 1, query) + element_hits(
            (n - 1) as usize,
            elements[n - 1],
            query,
        )
    }
}

/// Every result of a search, in the order of the document.
pub open spec fn search_hits(elements: Seq<ElementModel>, query: Seq<char>) -> Seq<
    SearchResultModel,
> {
    hits_before(elements, elements.len() as int, query)
}

pub proof fn lemma_find_text(s: Seq<char>, p: Seq<char>, from: int)
    requires
        0 <= from,
    ensures
        find_text(s, p, from) <= s.len() ==> from <= find_text(s, p, from) && occurs_at(
            s,
            p,
            find_text(s, p, from),
        ),
        forall|k: int| from <= k < find_text(s, p, from) ==> !occurs_at(s, p, k),
    decreases s.len() + 1 - from,
{
    if from + p.len() > s.len() {
    } else if occurs_at(s, p, from) {
    } else {
        lemma_find_text(s, p, from + 1);
    }
}

/// The first index at which `p` stands in `s`, if it stands anywhere.
pub fn find_in(s: &[char], p: &[char]) -> (r: Option<usize>)
    ensures
        match r {
            Some(i) => i == find_text(s@, p@, 0) && i <= s.len(),
            None => find_text(s@, p@, 0) > s.len(),
        },
{
    if p.len() > s.len() {
        return None;
    }
    let last: usize = s.len() - p.len();
    let mut i: usize = 0;
    while i <= last
        invariant
            i <= last + 1,
            last == s.len() - p.len(),
            find_text(s@, p@, i as int) == find_text(s@, p@, 0),
        decreases last + 1 - i,
    {
        if matches_at(s, p, i) {
            return Some(i);
        }
        if i == last {
            assert(find_text(s@, p@, i + 1) == s.len() + 1);
            return None;
        }
        i += 1;
    }
    None
}

/// Where `needle` stands first in `hay`, in bytes, with the end that a
/// query of `query_len` bytes gives.
pub fn locate_match(hay: &str, needle: &[char], query_len: usize) -> (r: Option<(usize, usize)>)
    ensures
        r == match_span(hay@, needle@, query_len as nat),
{
    let total = byte_len(hay);
    let cs = chars_of(hay);
    match find_in(cs.as_slice(), needle) {
        Some(at) => {
            let prefix = copy_range(cs.as_slice(), 0, at);
            proof {
                lemma_utf8_len_subrange(cs@, 0, at as int);
            }
            let start: usize = byte_len_of(prefix.as_slice()) as usize;
            Some((start, start.saturating_add(query_len)))
        },
        None => None,
    }
}

fn push_hit(
    results: &mut Vec<SearchResult>,
    index: usize,
    text: &String,
    needle: &[char],
    query_len: usize,
    Ghost(query): Ghost<Seq<char>>,
)
    requires
        needle@ == to_lowercase_text(query),
        query_len == utf8_len(query),
    ensures
        results_model(final(results)@) == results_model(old(results)@) + hit(index, text@, query),
{
    let lower = text.as_str().to_lowercase();
    match locate_match(lower.as_str(), needle, query_len) {
        Some((start, end)) => {
            let found = SearchResult {
                element_index: index,
                text: text.clone(),
                start_pos: start,
                end_pos: end,
            };
            let ghost before = results_model(results@);
            results.push(found);
            assert(results_model(results@) =~= before.push(found@));
            assert(results_model(results@) =~= before + hit(index, text@, query));
        },
        None => {
            assert(results_model(results@) =~= results_model(old(results)@) + hit(
                index,
                text@,
                query,
            ));
        },
    }
}

fn push_item_hits(
    results: &mut Vec<SearchResult>,
    index: usize,
    items: &Vec<ListItem>,
    needle: &[char],
    query_len: usize,
    Ghost(query): Ghost<Seq<char>>,
)
    requires
        needle@ == to_lowercase_text(query),
        query_len == utf8_len(query),
    ensures
        results_model(final(results)@) == results_model(old(results)@) + hits_in_items(
            index,
            items_model(items@),
            query,
        ),
{
    let ghost model = items_model(items@);
    let ghost base = results_model(results@);
    let mut i: usize = 0;
    assert(base + hits_in_items(index, model.take(0), query) =~= base);
    while i < items.len()
        invariant
            i <= items.len(),
            model == items_model(items@),
            needle@ == to_lowercase_text(query),
            query_len == utf8_len(query),
            results_model(results@) == base + hits_in_items(index, model.take(i as int), query),
        decreases items.len() - i,
    {
        proof {
            let now = model.take(i + 1);
            assert(now.drop_last() == model.take(i as int));
            assert(now.last() == items@[i as int]@);
        }
        push_hit(results, index, &items[i].text, needle, query_len, Ghost(query));
        assert(results_model(results@) =~= base + hits_in_items(index, model.take(i + 1), query));
        i += 1;
    }
    assert(model.take(items.len() as int) == model);
}

fn push_cell_hits(
    results: &mut Vec<SearchResult>,
    index: usize,
    cells: &Vec<TableCell>,
    needle: &[char],
    query_len: usize,
    Ghost(query): Ghost<Seq<char>>,
)
    requires
        needle@ == to_lowercase_text(query),
        query_len == utf8_len(query),
    ensures
        results_model(final(results)@) == results_model(old(results)@) + hits_in_cells(
            index,
            cells_model(cells@),
            query,
        ),
{
    let ghost model = cells_model(cells@);
    let ghost base = results_model(results@);
    let mut i: usize = 0;
    assert(base + hits_in_cells(index, model.take(0), query) =~= base);
    while i < cells.len()
        invariant
            i <= cells.len(),
            model == cells_model(cells@),
            needle@ == to_lowercase_text(query),
            query_len == utf8_len(query),
            results_model(results@) == base + hits_in_cells(index, model.take(i as int), query),
        decreases cells.len() - i,
    {
        proof {
            let now = model.take(i + 1);
            assert(now.drop_last() == model.take(i as int));
            assert(now.last() == cells@[i as int]@);
        }
        push_hit(results, index, &cells[i].content, needle, query_len, Ghost(query));
        assert(results_model(results@) =~= base + hits_in_cells(index, model.take(i + 1), query));
        i += 1;
    }
    assert(model.take(cells.len() as int) == model);
}

fn push_row_hits(
    results: &mut Vec<SearchResult>,
    index: usize,
    rows: &Vec<Vec<TableCell>>,
    needle: &[char],
    query_len: usize,
    Ghost(query): Ghost<Seq<char>>,
)
    requires
        needle@ == to_lowercase_text(query),
        query_len == utf8_len(query),
    ensures
        results_model(final(results)@) == results_model(old(results)@) + hits_in_rows(
            index,
            rows_model(rows@),
            query,
        ),
{
    let ghost model = rows_model(rows@);
    let ghost base = results_model(results@);
    let mut i: usize = 0;
    assert(base + hits_in_rows(index, model.take(0), query) =~= base);
    while i < rows.len()
        invariant
            i <= rows.len(),
            model == rows_model(rows@),
            needle@ == to_lowercase_text(query),
            query_len == utf8_len(query),
            results_model(results@) == base + hits_in_rows(index, model.take(i as int), query),
        decreases rows.len() - i,
    {
        proof {
            let now = model.take(i + 1);
            assert(now.drop_last() == model.take(i as int));
            assert(now.last() == cells_model(rows@[i as int]@));
        }
        push_cell_hits(results, index, &rows[i], needle, query_len, Ghost(query));
        assert(results_model(results@) =~= base + hits_in_rows(index, model.take(i + 1), query));
        i += 1;
    }
    assert(model.take(rows.len() as int) == model);
}

/// Every text of the document that holds the query, whatever the case of
/// either, in the order of the document. A heading, a paragraph and an
/// image are searched by their text, a list item by item, a table cell by
/// cell, header first.
pub fn search_document(document: &Document, query: &str) -> (results: Vec<SearchResult>)
    ensures
        results_model(results@) == search_hits(document@.elements, query@),
{
    let ghost elements = document@.elements;
    let lower = query.to_lowercase();
    let needle = chars_of(lower.as_str());
    let needle = needle.as_slice();
    let query_len = byte_len(query);
    let mut results: Vec<SearchResult> = Vec::new();
    assert(results_model(results@) =~= hits_before(elements, 0, query@));
    let mut i: usize = 0;
    while i < document.elements.len()
        invariant
            i <= document.elements.len(),
            elements == document@.elements,
            needle@ == to_lowercase_text(query@),
            query_len == utf8_len(query@),
            results_model(results@) == hits_before(elements, i as int, query@),
        decreases document.elements.len() - i,
    {
        assert(elements[i as int] == document.elements@[i as int]@);
        match &document.elements[i] {
            DocumentElement::Heading { text, .. } => {
                push_hit(&mut results, i, text, needle, query_len, Ghost(query@));
            },
            DocumentElement::Paragraph { text, .. } => {
                push_hit(&mut results, i, text, needle, query_len, Ghost(query@));
            },
            DocumentElement::List { items, .. } => {
                push_item_hits(&mut results, i, items, needle, query_len, Ghost(query@));
            },
            DocumentElement::Table { table } => {
                push_cell_hits(&mut results, i, &table.headers, needle, query_len, Ghost(query@));
                push_row_hits(&mut results, i, &table.rows, needle, query_len, Ghost(query@));
            },
            DocumentElement::Image { description, .. } => {
                push_hit(&mut results, i, description, needle, query_len, Ghost(query@));
            },
            DocumentElement::PageBreak => {
                assert(results_model(results@) + Seq::<SearchResultModel>::empty()
                    =~= results_model(results@));
            },
        }
        i += 1;
    }
    results
}

// ---------------------------------------------------------------------------
// Outline
// ---------------------------------------------------------------------------

/// One heading of the outline.
#[derive(Debug, Clone)]
pub struct OutlineItem {
    pub title: String,
    pub level: u8,
    pub element_index: usize,
}

/// The view of a `OutlineItem`: every string as the sequence of its characters.
pub struct OutlineItemModel {
    pub title: Seq<char>,
    pub level: u8,
    pub element_index: usize,
}

impl View for OutlineItem {
    type V = OutlineItemModel;

    open spec fn view(&self) -> OutlineItemModel {
        OutlineItemModel {
            title: self.title@,
            level: self.level,
            element_index: self.element_index,
        }
    }
}

/// The views of a sequence of outline items.
pub open spec fn outline_model(items: Seq<OutlineItem>) -> Seq<OutlineItemModel> {
    items.map_values(|i: OutlineItem| i@)
}

/// The title of a heading in the outline: its number, a space and its
/// text, or its text alone where it has no number.
pub open spec fn outline_title(number: Option<Seq<char>>, text: Seq<char>) -> Seq<char> {
    match number {
        Some(n) => n + seq![' '] + text,
        None => text,
    }
}

/// The outline of the elements before index `n`: one item for each
/// heading, in order.
pub open spec fn outline_before(elements: Seq<ElementModel>, n: int) -> Seq<OutlineItemModel>
    decreases n,
{
    if n <= 0 {
        Seq::empty()
    } else {
        match elements[n - 1] {
            ElementModel::Heading { level, text, number } => outline_before(elements, n - 1).push(
                OutlineItemModel {
                    title: outline_title(number, text),
                    level,
                    element_index: (n - 1) as usize,
                },
            ),
            _ => outline_before(elements, n - 1),
        }
    }
}

/// The outline of a document.
pub open spec fn outline_of(elements: Seq<ElementModel>) -> Seq<OutlineItemModel> {
    outline_before(elements, elements.len() as int)
}

/// The outline of a document: its headings in order, each with its number
/// in front of its text, its level and its place among the elements.
pub fn generate_outline(document: &Document) -> (outline: Vec<OutlineItem>)
    ensures
        outline_model(outline@) == outline_of(document@.elements),
{
    let ghost elements = document@.elements;
    let mut outline: Vec<OutlineItem> = Vec::new();
    assert(outline_model(outline@) =~= outline_before(elements, 0));
    let mut i: usize = 0;
    while i < document.elements.len()
        invariant
            i <= document.elements.len(),
            elements == document@.elements,
            outline_model(outline@) == outline_before(elements, i as int),
        decreases document.elements.len() - i,
    {
        assert(elements[i as int] == document.elements@[i as int]@);
        if let DocumentElement::Heading { level, text, number } = &document.elements[i] {
            let title = match number {
                Some(n) => {
                    let mut buf = chars_of(n.as_str());
                    buf.push(' ');
                    let t = chars_of(text.as_str());
                    append_chars(&mut buf, t.as_slice());
                    assert(buf@ =~= n@ + seq![' '] + text@);
                    string_of(buf.as_slice())
                },
                None => text.clone(),
            };
            assert(title@ == outline_title(crate::model::opt_text(*number), text@));
            let item = OutlineItem { title, level: *level, element_index: i };
            let ghost before = outline_model(outline@);
            outline.push(item);
            assert(outline_model(outline@) =~= before.push(item@));
        } else {
            assert(!(elements[i as int] is Heading));
        }
        i += 1;
    }
    outline
}

} // verus!
