//! Citations in the text of a document and the entries of its
//! bibliography.

use vstd::prelude::*;
use crate::model::{items_model, Document, DocumentElement, ElementModel, ListItem, ListItemModel};
use crate::scan::{contains, contains_text};
use crate::text::{char_is_white_space, chars_of, is_white_space};
use crate::trusted::{find_all_matches, regex_matches, strings_model, to_lowercase_text};

verus! {

/// Where a citation stands.
#[derive(Debug, Clone, Copy, PartialEq, Eq, Structural)]
pub enum CitationType {
    InText,
    Bibliography,
}

/// A citation, or an entry of the bibliography.
#[derive(Debug, Clone)]
pub struct Citation {
    pub text: String,
    pub element_index: usize,
    pub citation_type: CitationType,
}

/// The view of a `Citation`: every string as the sequence of its characters.
pub struct CitationModel {
    pub text: Seq<char>,
    pub element_index: usize,
    pub citation_type: CitationType,
}

impl View for Citation {
    type V = CitationModel;

    open spec fn view(&self) -> CitationModel {
        CitationModel {
            text: self.text@,
            element_index: self.element_index,
            citation_type: self.citation_type,
        }
    }
}

/// The views of a sequence of citations.
pub open spec fn citations_model(citations: Seq<Citation>) -> Seq<CitationModel> {
    citations.map_values(|c: Citation| c@)
}

/// The number of citation patterns.
pub const CITATION_PATTERN_COUNT: usize = 3;

/// The citation patterns: author and year in round brackets, a number in
/// square brackets, and author `et al.` and year in round brackets.
pub open spec fn citation_pattern(k: int) -> Seq<char> {
    if k == 0 {
        r"\([A-Z][a-z]+,\s*\d{4}\)"@
    } else if k == 1 {
        r"\[[0-9]+\]"@
    } else {
        r"\([A-Z][a-z]+\s+et\s+al\.,\s*\d{4}\)"@
    }
}

/// The citation pattern of index `k`.
pub fn citation_pattern_text(k: usize) -> (p: &'static str)
    ensures
        p@ == citation_pattern(k as int),
{
    if k == 0 {
        r"\([A-Z][a-z]+,\s*\d{4}\)"
    } else if k == 1 {
        r"\[[0-9]+\]"
    } else {
        r"\([A-Z][a-z]+\s+et\s+al\.,\s*\d{4}\)"
    }
}

/// The citations that the matched texts `found` make in the element of
/// index `index`.
pub open spec fn citations_of_matches(index: usize, found: Seq<Seq<char>>) -> Seq<CitationModel> {
    found.map_values(
        |t: Seq<char>|
            CitationModel { text: t, element_index: index, citation_type: CitationType::InText },
    )
}

/// The citations that the patterns before index `k` find in a text, pattern
/// by pattern.
pub open spec fn text_citations_before(index: usize, text: Seq<char>, k: int) -> Seq<
    CitationModel,
>
    decreases k,
{
    if k <= 0 {
        Seq::empty()
    } else {
        text_citations_before(index, text, k - 1) + citations_of_matches(
            index,
            regex_matches(citation_pattern(k - 1), text),
        )
    }
}

/// The citations in one element: those in the text of a heading or a
/// paragraph, and none in any other element.
pub open spec fn element_citations(index: usize, e: ElementModel) -> Seq<CitationModel> {
    match e {
        ElementModel::Heading { text, .. } => text_citations_before(
            index,
            text,
            CITATION_PATTERN_COUNT as int,
        ),
        ElementModel::Paragraph { text, .. } => text_citations_before(
            index,
            text,
            CITATION_PATTERN_COUNT as int,
        ),
        _ => Seq::empty(),
    }
}

/// The citations in the elements before index `n`.
pub open spec fn citations_before(elements: Seq<ElementModel>, n: int) -> Seq<CitationModel>
    decreases n,
{
    if n <= 0 {
        Seq::empty()
    } else {
        citations_before(elements, n - 1) + element_citations((n - 1) as usize, elements[n - 1])
    }
}

/// The citations that the matches `found` make, appended to `out`.
pub fn push_citations(out: &mut Vec<Citation>, index: usize, found: Vec<String>)
    ensures
        citations_model(final(out)@) == citations_model(old(out)@) + citations_of_matches(
            index,
            strings_model(found@),
        ),
{
    let ghost base = citations_model(out@);
    let ghost texts = strings_model(found@);
    assert(base + citations_of_matches(index, texts.take(0)) =~= base);
    for text in it: found
        invariant
            it.seq() == found@,
            texts == strings_model(found@),
            citations_model(out@) == base + citations_of_matches(
                index,
                texts.take(it.index() as int),
            ),
    {
        let citation = Citation { text, element_index: index, citation_type: CitationType::InText };
        let ghost before = citations_model(out@);
        out.push(citation);
        assert(citations_model(out@) =~= before.push(citation@));
        assert(texts.take(it.index() + 1) =~= texts.take(it.index() as int).push(text@));
        assert(citations_model(out@) =~= base + citations_of_matches(
            index,
            texts.take(it.index() + 1),
        ));
    }
    assert(texts.take(found@.len() as int) == texts);
}

fn push_text_citations(out: &mut Vec<Citation>, index: usize, text: &String)
    ensures
        citations_model(final(out)@) == citations_model(old(out)@) + text_citations_before(
            index,
            text@,
            CITATION_PATTERN_COUNT as int,
        ),
{
    let ghost base = citations_model(out@);
    let mut k: usize = 0;
    assert(base + text_citations_before(index, text@, 0) =~= base);
    while k < CITATION_PATTERN_COUNT
        invariant
            k <= CITATION_PATTERN_COUNT,
            citations_model(out@) == base + text_citations_before(index, text@, k as int),
        decreases CITATION_PATTERN_COUNT - k,
    {
        let found = find_all_matches(citation_pattern_text(k), text.as_str());
        push_citations(out, index, found);
        assert(citations_model(out@) =~= base + text_citations_before(index, text@, k + 1));
        k += 1;
    }
}

/// The citations in the headings and paragraphs of the document, element
/// by element and, within an element, pattern by pattern.
pub fn extract_citations(document: &Document) -> (out: Vec<Citation>)
    ensures
        citations_model(out@) == citations_before(
            document@.elements,
            document@.elements.len() as int,
        ),
{
    let ghost elements = document@.elements;
    let mut out: Vec<Citation> = Vec::new();
    assert(citations_model(out@) =~= citations_before(elements, 0));
    let mut i: usize = 0;
    while i < document.elements.len()
        invariant
            i <= document.elements.len(),
            elements == document@.elements,
            citations_model(out@) == citations_before(elements, i as int),
        decreases document.elements.len() - i,
    {
        assert(elements[i as int] == document.elements@[i as int]@);
        match &document.elements[i] {
            DocumentElement::Heading { text, .. } => {
                push_text_citations(&mut out, i, text);
            },
            DocumentElement::Paragraph { text, .. } => {
                push_text_citations(&mut out, i, text);
            },
            _ => {
                assert(citations_model(out@) + Seq::<CitationModel>::empty() =~= citations_model(
                    out@,
                ));
            },
        }
        i += 1;
    }
    out
}

// ---------------------------------------------------------------------------
// Bibliography
// ---------------------------------------------------------------------------

/// Whether a text in lower case names a bibliography: it holds
/// `reference`, `bibliography` or `works cited`.
pub open spec fn is_bibliography_title(lower: Seq<char>) -> bool {
    contains_text(lower, "reference"@) || contains_text(lower, "bibliography"@) || contains_text(
        lower,
        "works cited"@,
    )
}

/// Whether the lower-case form of a heading text names a bibliography.
pub open spec fn names_bibliography(text: Seq<char>) -> bool {
    is_bibliography_title(to_lowercase_text(text))
}

/// Whether an element is a heading that names a bibliography.
pub open spec fn is_bibliography_heading(e: ElementModel) -> bool {
    e matches ElementModel::Heading { text, .. } && names_bibliography(text)
}

/// The index of the first heading at or after `from` that names a
/// bibliography, or the number of elements.
pub open spec fn bibliography_start(elements: Seq<ElementModel>, from: int) -> int
    decreases elements.len() - from,
{
    if 0 <= from < elements.len() && !is_bibliography_heading(elements[from]) {
        bibliography_start(elements, from + 1)
    } else {
        from
    }
}

/// Whether a text is all white space.
pub open spec fn is_blank(text: Seq<char>) -> bool {
    forall|k: int| 0 <= k < text.len() ==> is_white_space(#[trigger] text[k])
}

/// An entry of the bibliography.
pub open spec fn entry(index: usize, text: Seq<char>) -> CitationModel {
    CitationModel { text, element_index: index, citation_type: CitationType::Bibliography }
}

/// The entries that the items of a list make.
pub open spec fn item_entries(index: usize, items: Seq<ListItemModel>) -> Seq<CitationModel> {
    items.map_values(|i: ListItemModel| entry(index, i.text))
}

/// The entries that one element under the bibliography heading makes: a
/// paragraph with text one, a list one for each item, anything else none.
pub open spec fn element_entries(index: usize, e: ElementModel) -> Seq<CitationModel> {
    match e {
        ElementModel::Paragraph { text, .. } => if is_blank(text) {
            Seq::empty()
        } else {
            seq![entry(index, text)]
        },
        ElementModel::List { items, .. } => item_entries(index, items),
        _ => Seq::empty(),
    }
}

/// The entries that the elements from index `from` on make, up to the next
/// heading.
pub open spec fn entries_from(elements: Seq<ElementModel>, from: int) -> Seq<CitationModel>
    decreases elements.len() - from,
{
    if from < 0 || from >= elements.len() || elements[from] is Heading {
        Seq::empty()
    } else {
        element_entries(from as usize, elements[from]) + entries_from(elements, from + 1)
    }
}

/// The entries of the bibliography: what stands between the first heading
/// that names one and the heading after it.
pub open spec fn bibliography_of(elements: Seq<ElementModel>) -> Seq<CitationModel> {
    entries_from(elements, bibliography_start(elements, 0) + 1)
}

/// Whether the text `lower`, which is in lower case, names a bibliography.
pub fn lowered_names_bibliography(lower: &str) -> (r: bool)
    ensures
        r == is_bibliography_title(lower@),
{
    let l = chars_of(lower);
    let reference = chars_of("reference");
    let bibliography = chars_of("bibliography");
    let works = chars_of("works cited");
    contains(l.as_slice(), reference.as_slice()) || contains(l.as_slice(), bibliography.as_slice())
        || contains(l.as_slice(), works.as_slice())
}

fn heading_names_bibliography(text: &String) -> (r: bool)
    ensures
        r == names_bibliography(text@),
{
    let lower = text.as_str().to_lowercase();
    lowered_names_bibliography(lower.as_str())
}

fn blank(text: &String) -> (r: bool)
    ensures
        r == is_blank(text@),
{
    let cs = chars_of(text.as_str());
    let mut i: usize = 0;
    while i < cs.len()
        invariant
            i <= cs.len(),
            cs@ == text@,
            forall|k: int| 0 <= k < i ==> is_white_space(#[trigger] cs@[k]),
        decreases cs.len() - i,
    {
        if !char_is_white_space(cs[i]) {
            return false;
        }
        i += 1;
    }
    true
}

fn push_item_entries(out: &mut Vec<Citation>, index: usize, items: &Vec<ListItem>)
    ensures
        citations_model(final(out)@) == citations_model(old(out)@) + item_entries(
            index,
            items_model(items@),
        ),
{
    let ghost base = citations_model(out@);
    let ghost model = items_model(items@);
    let mut i: usize = 0;
    assert(base + item_entries(index, model.take(0)) =~= base);
    while i < items.len()
        invariant
            i <= items.len(),
            model == items_model(items@),
            citations_model(out@) == base + item_entries(index, model.take(i as int)),
        decreases items.len() - i,
    {
        let citation = Citation {
            text: items[i].text.clone(),
            element_index: index,
            citation_type: CitationType::Bibliography,
        };
        let ghost before = citations_model(out@);
        out.push(citation);
        assert(citations_model(out@) =~= before.push(citation@));
        assert(model.take(i + 1) =~= model.take(i as int).push(items@[i as int]@));
        assert(citations_model(out@) =~= base + item_entries(index, model.take(i + 1)));
        i += 1;
    }
    assert(model.take(items.len() as int) == model);
}

/// The entries of the bibliography of the document: the paragraphs with
/// text and the list items that stand between the first heading whose
/// text names a bibliography and the heading after it.
#[verifier::spinoff_prover]
#[verifier::rlimit(40)]
pub fn extract_bibliography(document: &Document) -> (out: Vec<Citation>)
    ensures
        citations_model(out@) == bibliography_of(document@.elements),
{
    let ghost elements = document@.elements;
    let n: usize = document.elements.len();
    let mut start: usize = 0;
    let mut searching: bool = true;
    while searching && start < n
        invariant
            start <= n,
            n == document.elements.len(),
            elements == document@.elements,
            bibliography_start(elements, start as int) == bibliography_start(elements, 0),
            !searching ==> start < n && is_bibliography_heading(elements[start as int]),
        decreases
                n - start + if searching {
                    1int
                } else {
                    0int
                },
    {
        assert(elements[start as int] == document.elements@[start as int]@);
        let found = match &document.elements[start] {
            DocumentElement::Heading { text, .. } => heading_names_bibliography(text),
            _ => false,
        };
        if found {
            searching = false;
        } else {
            start += 1;
        }
    }
    let mut out: Vec<Citation> = Vec::new();
    if start >= n {
        assert(citations_model(out@) =~= bibliography_of(elements));
        return out;
    }
    let ghost first = (start + 1) as int;
    let mut i: usize = start + 1;
    let mut open: bool = true;
    assert(citations_model(out@) + entries_from(elements, first) =~= entries_from(elements, first));
    while open && i < n
        invariant
            start < i <= n,
            n == document.elements.len(),
            elements == document@.elements,
            first == start + 1,
            open ==> citations_model(out@) + entries_from(elements, i as int) == entries_from(
                elements,
                first,
            ),
            !open ==> citations_model(out@) == entries_from(elements, first),
        decreases
                n - i + if open {
                    1int
                } else {
                    0int
                },
    {
        assert(elements[i as int] == document.elements@[i as int]@);
        let ghost before = citations_model(out@);
        match &document.elements[i] {
            DocumentElement::Paragraph { text, .. } => {
                if !blank(text) {
                    let citation = Citation {
                        text: text.clone(),
                        element_index: i,
                        citation_type: CitationType::Bibliography,
                    };
                    out.push(citation);
                    assert(citations_model(out@) =~= before.push(citation@));
                }
                assert(citations_model(out@) =~= before + element_entries(
                    i,
                    elements[i as int],
                ));
            },
            DocumentElement::List { items, .. } => {
                push_item_entries(&mut out, i, items);
            },
            DocumentElement::Heading { .. } => {
                open = false;
                assert(before + Seq::<CitationModel>::empty() =~= before);
            },
            _ => {
                assert(before + Seq::<CitationModel>::empty() =~= before);
            },
        }
        if open {
            assert(citations_model(out@) + entries_from(elements, i + 1) =~= before + (
            element_entries(i, elements[i as int]) + entries_from(elements, i + 1)));
            i += 1;
        }
    }
    proof {
        if open {
            assert(citations_model(out@) + Seq::<CitationModel>::empty() =~= citations_model(
                out@,
            ));
        }
    }
    out
}

} // verus!
