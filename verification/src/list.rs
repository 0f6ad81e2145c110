//! The list classifier and the grouper.
//!
//! A paragraph is a list item by its numbering metadata or, failing that,
//! by the look of its text. Items found by metadata are rendered at once
//! and tagged, so that the text detector leaves them alone; items found by
//! the text are gathered into list elements.

use vstd::prelude::*;
use crate::heuristics::{
    has_bullet_marker, has_letter_marker, is_list_item_like, list_item_like, starts_with_bullet,
    starts_with_letter_marker,
};
use crate::model::{
    items_model, DocumentElement, ElementModel, FormattingModel, ListItem, ListItemModel,
    Numbering, RawParagraph,
};
use crate::scan::{
    byte_len_of, char_is_ascii_digit, contains_char, decimal,
    first_index_of, index_of, is_ascii_digit, lemma_contains_char_iff, lemma_first_index_of,
    push_decimal, utf8_len,
};
use crate::text::{
    append_chars, chars_of, copy_range, is_white_space, lemma_trim_bounds, lemma_trim_of_padded,
    lemma_trim_of_wrapped, string_of, trim, trim_range, trim_start_index, trimmed,
};
use crate::trusted::is_numeric_char;

verus! {

// ---------------------------------------------------------------------------
// The metadata detector
// ---------------------------------------------------------------------------

/// The numbering id of the conventional mixed list.
pub const MIXED_LIST_ID: u64 = 1;

/// How many spaces one nesting level indents a rendered item.
pub const INDENT_PER_LEVEL: usize = 2;

/// What the numbering metadata says of a list item.
#[derive(Debug, Clone, Copy)]
pub struct ListInfo {
    pub level: u8,
    pub is_ordered: bool,
}

/// Whether a numbered paragraph is an item of an ordered list. Without an
/// id it is not. Under the id of the mixed list, level 0 is unordered,
/// levels 1 and 2 are ordered and a deeper level is ordered when it is odd.
/// Under any other id it is ordered.
pub open spec fn numbering_is_ordered(id: Option<u64>, level: u8) -> bool {
    match id {
        None => false,
        Some(id) => {
            if id == MIXED_LIST_ID {
                if level == 0 {
                    false
                } else if level <= 2 {
                    true
                } else {
                    level % 2 == 1
                }
            } else {
                true
            }
        },
    }
}

/// What the numbering metadata of a paragraph says of a list item: nothing
/// without metadata; else the declared level, 0 where none is declared, and
/// the ordering.
pub open spec fn metadata_list_info(numbering: Option<Numbering>) -> Option<ListInfo> {
    match numbering {
        None => None,
        Some(n) => {
            let level = match n.level {
                Some(l) => l,
                None => 0u8,
            };
            Some(ListInfo { level, is_ordered: numbering_is_ordered(n.id, level) })
        },
    }
}

/// What the numbering metadata of `para` says of a list item.
pub fn detect_list_from_paragraph_numbering(para: &RawParagraph) -> (r: Option<ListInfo>)
    ensures
        r == metadata_list_info(para@.numbering),
{
    match &para.numbering {
        None => None,
        Some(n) => {
            let level: u8 = match n.level {
                Some(l) => l,
                None => 0,
            };
            let is_ordered = match n.id {
                None => false,
                Some(id) => {
                    if id == MIXED_LIST_ID {
                        if level == 0 {
                            false
                        } else if level <= 2 {
                            true
                        } else {
                            level % 2 == 1
                        }
                    } else {
                        true
                    }
                },
            };
            Some(ListInfo { level, is_ordered })
        },
    }
}

/// The indentation of a rendered item: two spaces for each level.
pub open spec fn item_indent(level: u8) -> Seq<char> {
    Seq::new((INDENT_PER_LEVEL * level) as nat, |i: int| ' ')
}

/// The marker of a rendered item: `* ` for an unordered one; for an ordered
/// one `1. `, `a) `, `i. `, `A. `, `I. ` by level, and below that the level
/// plus one as a decimal numeral, a dot and a space.
pub open spec fn item_marker(info: ListInfo) -> Seq<char> {
    if !info.is_ordered {
        seq!['*', ' ']
    } else if info.level == 0 {
        seq!['1', '.', ' ']
    } else if info.level == 1 {
        seq!['a', ')', ' ']
    } else if info.level == 2 {
        seq!['i', '.', ' ']
    } else if info.level == 3 {
        seq!['A', '.', ' ']
    } else if info.level == 4 {
        seq!['I', '.', ' ']
    } else {
        decimal((info.level + 1) as nat) + seq!['.', ' ']
    }
}

/// The text of an item found by metadata: indentation, marker, and the
/// paragraph's text trimmed.
pub open spec fn rendered_item(info: ListInfo, text: Seq<char>) -> Seq<char> {
    item_indent(info.level) + item_marker(info) + trim(text)
}

/// Renders an item found by metadata.
pub fn render_list_item(info: ListInfo, text: &[char]) -> (out: Vec<char>)
    ensures
        out@ == rendered_item(info, text@),
{
    let mut out: Vec<char> = Vec::new();
    let width: usize = INDENT_PER_LEVEL * (info.level as usize);
    let mut i: usize = 0;
    while i < width
        invariant
            i <= width,
            width == INDENT_PER_LEVEL * info.level,
            out@ == Seq::new(i as nat, |k: int| ' '),
        decreases width - i,
    {
        out.push(' ');
        assert(out@ =~= Seq::new((i + 1) as nat, |k: int| ' '));
        i += 1;
    }
    let ghost indent = out@;
    assert(indent == item_indent(info.level));
    if !info.is_ordered {
        out.push('*');
        out.push(' ');
    } else if info.level == 0 {
        out.push('1');
        out.push('.');
        out.push(' ');
    } else if info.level == 1 {
        out.push('a');
        out.push(')');
        out.push(' ');
    } else if info.level == 2 {
        out.push('i');
        out.push('.');
        out.push(' ');
    } else if info.level == 3 {
        out.push('A');
        out.push('.');
        out.push(' ');
    } else if info.level == 4 {
        out.push('I');
        out.push('.');
        out.push(' ');
    } else {
        push_decimal(&mut out, (info.level as u64) + 1);
        out.push('.');
        out.push(' ');
    }
    assert(out@ =~= indent + item_marker(info));
    let t = trimmed(text);
    append_chars(&mut out, t.as_slice());
    out
}

// ---------------------------------------------------------------------------
// The text detector
// ---------------------------------------------------------------------------

/// Whether the text, once trimmed, starts with a numeric character: the
/// mark of an item of an ordered list.
pub open spec fn starts_with_number(text: Seq<char>) -> bool {
    trim(text).len() > 0 && is_numeric_char(trim(text)[0])
}

/// The nesting level that the indentation of a text gives: half the length
/// in bytes of its leading white space, cut to eight bits.
pub open spec fn list_level(text: Seq<char>) -> u8 {
    ((utf8_len(text.subrange(0, trim_start_index(text))) / 2) % 256) as u8
}

/// Whether everything before the first `.` of `t` is an ASCII digit.
pub open spec fn has_digits_before_dot(t: Seq<char>) -> bool {
    contains_char(t, '.') && forall|k: int|
        0 <= k < first_index_of(t, '.', 0) ==> is_ascii_digit(#[trigger] t[k])
}

/// The text of an item without its marker: the trimmed text without a
/// bullet marker, or without the digits up to the first `.`, or without a
/// letter and its `.`, and trimmed again.
pub open spec fn without_list_marker(text: Seq<char>) -> Seq<char> {
    let t = trim(text);
    if has_bullet_marker(t) {
        trim(t.subrange(2, t.len() as int))
    } else if has_digits_before_dot(t) {
        trim(t.subrange(first_index_of(t, '.', 0) + 1, t.len() as int))
    } else if has_letter_marker(t) {
        trim(t.subrange(2, t.len() as int))
    } else {
        t
    }
}

/// The list item that a paragraph text gives.
pub open spec fn item_of_text(text: Seq<char>) -> ListItemModel {
    ListItemModel { text: without_list_marker(text), level: list_level(text) }
}

/// Whether `text`, once trimmed, starts with a numeric character.
pub fn text_starts_with_number(text: &[char]) -> (r: bool)
    ensures
        r == starts_with_number(text@),
{
    let (a, b) = trim_range(text);
    proof {
        lemma_trim_bounds(text@);
    }
    a < b && text[a].is_numeric()
}

/// The nesting level that the indentation of `text` gives.
pub fn level_of_chars(text: &[char]) -> (l: u8)
    ensures
        l == list_level(text@),
{
    let (a, _b) = trim_range(text);
    let lead = copy_range(text, 0, a);
    let n = byte_len_of(lead.as_slice());
    ((n / 2) % 256) as u8
}

/// The nesting level that the indentation of `text` gives: one level for
/// every two bytes of leading white space.
pub fn calculate_list_level(text: &str) -> (l: u8)
    ensures
        l == list_level(text@),
{
    let cs = chars_of(text);
    level_of_chars(cs.as_slice())
}

fn digits_before(t: &[char], dot: usize) -> (r: bool)
    requires
        dot <= t.len(),
    ensures
        r == (forall|k: int| 0 <= k < dot ==> is_ascii_digit(#[trigger] t@[k])),
{
    let mut i: usize = 0;
    while i < dot
        invariant
            i <= dot <= t.len(),
            forall|k: int| 0 <= k < i ==> is_ascii_digit(#[trigger] t@[k]),
        decreases dot - i,
    {
        if !char_is_ascii_digit(t[i]) {
            return false;
        }
        i += 1;
    }
    true
}

/// The characters `text` without a list marker.
pub fn chars_without_marker(text: &[char]) -> (out: Vec<char>)
    ensures
        out@ == without_list_marker(text@),
{
    let t = trimmed(text);
    let t = t.as_slice();
    if starts_with_bullet(t) {
        proof {
            reveal_strlit("• ");
            reveal_strlit("- ");
            reveal_strlit("* ");
        }
        let rest = copy_range(t, 2, t.len());
        return trimmed(rest.as_slice());
    }
    let dot = index_of(t, '.');
    proof {
        lemma_contains_char_iff(t@, '.');
        lemma_first_index_of(t@, '.', 0);
    }
    if dot < t.len() && digits_before(t, dot) {
        let rest = copy_range(t, dot + 1, t.len());
        return trimmed(rest.as_slice());
    }
    if starts_with_letter_marker(t) {
        let rest = copy_range(t, 2, t.len());
        return trimmed(rest.as_slice());
    }
    copy_range(t, 0, t.len())
}

/// The text of a list item without its bullet, number or letter marker and
/// without the white space around it.
pub fn clean_list_item_text(text: &str) -> (out: String)
    ensures
        out@ == without_list_marker(text@),
{
    let cs = chars_of(text);
    let cleaned = chars_without_marker(cs.as_slice());
    string_of(cleaned.as_slice())
}

// ---------------------------------------------------------------------------
// The grouper
// ---------------------------------------------------------------------------

/// An element on its way through the passes, with the tag that marks a
/// paragraph as a list item that the metadata detector has rendered.
#[derive(Debug, Clone)]
pub struct TaggedElement {
    pub element: DocumentElement,
    pub list_tagged: bool,
}

/// The view of a `TaggedElement`: every string as the sequence of its characters.
pub struct TaggedModel {
    pub element: ElementModel,
    pub list_tagged: bool,
}

impl View for TaggedElement {
    type V = TaggedModel;

    open spec fn view(&self) -> TaggedModel {
        TaggedModel { element: self.element@, list_tagged: self.list_tagged }
    }
}

/// The views of a sequence of tagged elements.
pub open spec fn tagged_model(elements: Seq<TaggedElement>) -> Seq<TaggedModel> {
    elements.map_values(|e: TaggedElement| e@)
}

/// Where the grouper stands: the elements it has put out, the items of the
/// list that is open, and whether that list is ordered.
pub struct GroupState {
    pub done: Seq<TaggedModel>,
    pub open: Seq<ListItemModel>,
    pub ordered: bool,
}

/// The list element that closes the open list.
pub open spec fn open_list(st: GroupState) -> TaggedModel {
    TaggedModel {
        element: ElementModel::List { items: st.open, ordered: st.ordered },
        list_tagged: false,
    }
}

/// What is put out once the open list is closed; with no item open nothing
/// is added.
pub open spec fn flushed(st: GroupState) -> Seq<TaggedModel> {
    if st.open.len() == 0 {
        st.done
    } else {
        st.done.push(open_list(st))
    }
}

/// Whether the text detector takes an element for a list item: an untagged
/// paragraph whose text looks like one.
pub open spec fn is_text_list_item(e: TaggedModel) -> bool {
    e.element matches ElementModel::Paragraph { text, .. } && !e.list_tagged && is_list_item_like(
        text,
    )
}

/// One step of the grouper. A list item joins the open list, after that
/// list was closed if its ordering differs; anything else closes the open
/// list and follows it.
pub open spec fn group_step(st: GroupState, e: TaggedModel) -> GroupState {
    if is_text_list_item(e) {
        let text = e.element->Paragraph_text;
        let ordered = starts_with_number(text);
        if st.open.len() > 0 && ordered != st.ordered {
            GroupState { done: flushed(st), open: seq![item_of_text(text)], ordered }
        } else {
            GroupState { done: st.done, open: st.open.push(item_of_text(text)), ordered }
        }
    } else {
        GroupState { done: flushed(st).push(e), open: Seq::empty(), ordered: st.ordered }
    }
}

/// Where the grouper stands after the elements `es`.
pub open spec fn group_fold(es: Seq<TaggedModel>) -> GroupState
    decreases es.len(),
{
    if es.len() == 0 {
        GroupState { done: Seq::empty(), open: Seq::empty(), ordered: false }
    } else {
        group_step(group_fold(es.drop_last()), es.last())
    }
}

/// The elements with every run of consecutive list items of one ordering
/// gathered into one list element.
pub open spec fn grouped(es: Seq<TaggedModel>) -> Seq<TaggedModel> {
    flushed(group_fold(es))
}

fn flush_items(result: &mut Vec<TaggedElement>, items: &mut Vec<ListItem>, ordered: bool)
    ensures
        tagged_model(final(result)@) == flushed(
            GroupState {
                done: tagged_model(old(result)@),
                open: items_model(old(items)@),
                ordered,
            },
        ),
        final(items)@.len() == 0,
{
    if items.len() > 0 {
        let mut taken: Vec<ListItem> = Vec::new();
        std::mem::swap(items, &mut taken);
        let ghost before = tagged_model(result@);
        let list = TaggedElement {
            element: DocumentElement::List { items: taken, ordered },
            list_tagged: false,
        };
        result.push(list);
        assert(tagged_model(result@) =~= before.push(list@));
    }
}

/// Gathers consecutive list items into list elements. A paragraph is an
/// item when it carries no tag and its text looks like one; an item whose
/// ordering differs from the open list's starts a new list; any other
/// element closes the open list. Every other element stays as it is, in
/// its place.
#[verifier::spinoff_prover]
#[verifier::rlimit(40)]
pub fn group_list_items(elements: Vec<TaggedElement>) -> (result: Vec<TaggedElement>)
    ensures
        tagged_model(result@) == grouped(tagged_model(elements@)),
{
    let ghost input = tagged_model(elements@);
    let mut result: Vec<TaggedElement> = Vec::new();
    let mut items: Vec<ListItem> = Vec::new();
    let mut ordered: bool = false;
    proof {
        assert(input.take(0) =~= Seq::empty());
        assert(tagged_model(result@) =~= Seq::empty());
        assert(items_model(items@) =~= Seq::empty());
    }
    for element in it: elements
        invariant
            it.seq() == elements@,
            input == tagged_model(elements@),
            group_fold(input.take(it.index() as int)) == (GroupState {
                done: tagged_model(result@),
                open: items_model(items@),
                ordered,
            }),
    {
        proof {
            let now = input.take(it.index() + 1);
            assert(now.drop_last() == input.take(it.index() as int));
            assert(now.last() == element@);
        }
        let ghost st = GroupState {
            done: tagged_model(result@),
            open: items_model(items@),
            ordered,
        };
        let ghost target = group_step(st, element@);
        let mut joined: bool = false;
        if !element.list_tagged {
            if let DocumentElement::Paragraph { text, .. } = &element.element {
                let cs = chars_of(text.as_str());
                if list_item_like(cs.as_slice()) {
                    let is_ordered = text_starts_with_number(cs.as_slice());
                    assert(is_text_list_item(element@));
                    assert(element@.element->Paragraph_text == text@);
                    if items.len() > 0 && is_ordered != ordered {
                        flush_items(&mut result, &mut items, ordered);
                        assert(items_model(items@) =~= Seq::empty());
                    }
                    ordered = is_ordered;
                    let level = level_of_chars(cs.as_slice());
                    let cleaned = chars_without_marker(cs.as_slice());
                    let item = ListItem { text: string_of(cleaned.as_slice()), level };
                    let ghost before = items_model(items@);
                    items.push(item);
                    assert(item@ == item_of_text(text@));
                    assert(items_model(items@) =~= before.push(item_of_text(text@)));
                    assert(items_model(items@) =~= target.open);
                    assert(tagged_model(result@) =~= target.done);
                    joined = true;
                }
            }
        }
        if !joined {
            assert(!is_text_list_item(element@));
            flush_items(&mut result, &mut items, ordered);
            let ghost before = tagged_model(result@);
            result.push(element);
            assert(tagged_model(result@) =~= before.push(element@));
            assert(items_model(items@) =~= Seq::empty());
            assert(items_model(items@) =~= target.open);
            assert(tagged_model(result@) =~= target.done);
        }
    }
    assert(input.take(elements@.len() as int) == input);
    flush_items(&mut result, &mut items, ordered);
    result
}

// ---------------------------------------------------------------------------
// Dropping the tags
// ---------------------------------------------------------------------------

/// The elements without their tags.
pub open spec fn untagged(es: Seq<TaggedModel>) -> Seq<ElementModel> {
    es.map_values(|e: TaggedModel| e.element)
}

/// Strips the tag from every element: what is left is the element itself,
/// whichever detector made it.
pub fn clean_word_list_markers(elements: Vec<TaggedElement>) -> (result: Vec<DocumentElement>)
    ensures
        crate::model::elements_model(result@) == untagged(tagged_model(elements@)),
{
    let mut result: Vec<DocumentElement> = Vec::new();
    assert(crate::model::elements_model(result@) =~= untagged(tagged_model(elements@.take(0))));
    for element in it: elements
        invariant
            it.seq() == elements@,
            crate::model::elements_model(result@) == untagged(
                tagged_model(elements@.take(it.index() as int)),
            ),
    {
        let ghost before = crate::model::elements_model(result@);
        proof {
            let now = elements@.take(it.index() + 1);
            assert(now.drop_last() == elements@.take(it.index() as int));
            assert(now.last() == element);
        }
        result.push(element.element);
        assert(crate::model::elements_model(result@) =~= before.push(element.element@));
        assert(crate::model::elements_model(result@) =~= untagged(
            tagged_model(elements@.take(it.index() + 1)),
        ));
    }
    assert(elements@.take(elements@.len() as int) == elements@);
    result
}

/// Where the text detector takes no element for a list item, every
/// element stays as it is and where it is.
pub proof fn lemma_grouping_keeps_other_elements(es: Seq<TaggedModel>)
    requires
        forall|k: int| 0 <= k < es.len() ==> !is_text_list_item(#[trigger] es[k]),
    ensures
        group_fold(es).open.len() == 0,
        group_fold(es).done == es,
        grouped(es) == es,
    decreases es.len(),
{
    if es.len() > 0 {
        let front = es.drop_last();
        assert forall|k: int| 0 <= k < front.len() implies !is_text_list_item(
            #[trigger] front[k],
        ) by {
            assert(front[k] == es[k]);
        }
        lemma_grouping_keeps_other_elements(front);
        assert(!is_text_list_item(es[es.len() - 1]));
        assert(group_fold(es).done =~= es);
    } else {
        assert(group_fold(es).done =~= es);
    }
}

/// Where the grouper stands after the elements `es` when it started from
/// the state `st`.
pub open spec fn group_from(st: GroupState, es: Seq<TaggedModel>) -> GroupState
    decreases es.len(),
{
    if es.len() == 0 {
        st
    } else {
        group_step(group_from(st, es.drop_last()), es.last())
    }
}

/// The grouper reads a sequence in two parts as it reads it in one.
pub proof fn lemma_group_from_concat(st: GroupState, a: Seq<TaggedModel>, b: Seq<TaggedModel>)
    ensures
        group_from(st, a + b) == group_from(group_from(st, a), b),
    decreases b.len(),
{
    if b.len() == 0 {
        assert(a + b =~= a);
    } else {
        assert((a + b).drop_last() =~= a + b.drop_last());
        assert((a + b).last() == b.last());
        lemma_group_from_concat(st, a, b.drop_last());
    }
}

/// Reading from the start is reading from the empty state.
pub proof fn lemma_group_fold_is_from_start(es: Seq<TaggedModel>)
    ensures
        group_fold(es) == group_from(group_fold(Seq::empty()), es),
    decreases es.len(),
{
    if es.len() > 0 {
        lemma_group_fold_is_from_start(es.drop_last());
    }
}

/// The paragraphs that the texts `texts` make, without tags.
pub open spec fn paragraphs_of(texts: Seq<Seq<char>>, formatting: FormattingModel) -> Seq<
    TaggedModel,
> {
    texts.map_values(
        |t: Seq<char>|
            TaggedModel { element: ElementModel::Paragraph { text: t, formatting }, list_tagged: false },
    )
}

/// The list items that the texts `texts` make.
pub open spec fn items_of_texts(texts: Seq<Seq<char>>) -> Seq<ListItemModel> {
    texts.map_values(|t: Seq<char>| item_of_text(t))
}

/// Whether every text looks like a list item of the ordering `ordered`.
pub open spec fn all_items_of_ordering(texts: Seq<Seq<char>>, ordered: bool) -> bool {
    forall|k: int|
        0 <= k < texts.len() ==> is_list_item_like(#[trigger] texts[k]) && starts_with_number(
            texts[k],
        ) == ordered
}

/// A run of list items of one ordering joins the list that is open where
/// that list is of the same ordering or has no item yet.
#[verifier::spinoff_prover]
#[verifier::rlimit(40)]
pub proof fn lemma_run_joins_open_list(
    st: GroupState,
    texts: Seq<Seq<char>>,
    formatting: FormattingModel,
    ordered: bool,
)
    requires
        texts.len() > 0,
        all_items_of_ordering(texts, ordered),
        st.open.len() == 0 || st.ordered == ordered,
    ensures
        group_from(st, paragraphs_of(texts, formatting)) == (GroupState {
            done: st.done,
            open: st.open + items_of_texts(texts),
            ordered,
        }),
    decreases texts.len(),
{
    let es = paragraphs_of(texts, formatting);
    let front = texts.drop_last();
    let last = texts[texts.len() - 1];
    assert(is_list_item_like(last) && starts_with_number(last) == ordered);
    assert(es.drop_last() =~= paragraphs_of(front, formatting));
    assert(es.last().element->Paragraph_text == last);
    assert(is_text_list_item(es.last()));
    let before = group_from(st, es.drop_last());
    assert(group_from(st, es) == group_step(before, es.last()));
    if front.len() == 0 {
        assert(before == st);
        assert(items_of_texts(texts) =~= seq![item_of_text(last)]);
        assert(st.open + items_of_texts(texts) =~= st.open.push(item_of_text(last)));
        if st.open.len() == 0 {
            assert(st.open.push(item_of_text(last)) =~= seq![item_of_text(last)]);
        }
    } else {
        assert forall|k: int| 0 <= k < front.len() implies is_list_item_like(#[trigger] front[k])
            && starts_with_number(front[k]) == ordered by {
            assert(front[k] == texts[k]);
        }
        lemma_run_joins_open_list(st, front, formatting, ordered);
        assert(before.open == st.open + items_of_texts(front));
        assert(before.open.len() > 0);
        assert(before.ordered == ordered);
        assert(items_of_texts(texts) =~= items_of_texts(front).push(item_of_text(last)));
        assert(st.open + items_of_texts(texts) =~= before.open.push(item_of_text(last)));
    }
}

/// A list element with the items that the texts make.
pub open spec fn list_of_texts(texts: Seq<Seq<char>>, ordered: bool) -> TaggedModel {
    TaggedModel {
        element: ElementModel::List { items: items_of_texts(texts), ordered },
        list_tagged: false,
    }
}

/// Consecutive paragraphs that look like list items of one ordering make
/// one list with an item for each of them, in their order.
pub proof fn lemma_run_of_items_is_one_list(
    texts: Seq<Seq<char>>,
    formatting: FormattingModel,
    ordered: bool,
)
    requires
        texts.len() > 0,
        all_items_of_ordering(texts, ordered),
    ensures
        grouped(paragraphs_of(texts, formatting)) == seq![list_of_texts(texts, ordered)],
{
    let start = group_fold(Seq::empty());
    lemma_group_fold_is_from_start(paragraphs_of(texts, formatting));
    lemma_run_joins_open_list(start, texts, formatting, ordered);
    assert(start.open + items_of_texts(texts) =~= items_of_texts(texts));
    assert(grouped(paragraphs_of(texts, formatting)) =~= seq![list_of_texts(texts, ordered)]);
}

/// A run of list items of one ordering followed by a run of the other
/// ordering makes two lists: a change of ordering starts a new list.
#[verifier::spinoff_prover]
#[verifier::rlimit(40)]
pub proof fn lemma_change_of_ordering_splits(
    first: Seq<Seq<char>>,
    second: Seq<Seq<char>>,
    formatting: FormattingModel,
    ordered: bool,
)
    requires
        first.len() > 0,
        second.len() > 0,
        all_items_of_ordering(first, ordered),
        all_items_of_ordering(second, !ordered),
    ensures
        grouped(paragraphs_of(first, formatting) + paragraphs_of(second, formatting)) == seq![
            list_of_texts(first, ordered),
            list_of_texts(second, !ordered),
        ],
{
    let a = paragraphs_of(first, formatting);
    let b = paragraphs_of(second, formatting);
    let start = group_fold(Seq::empty());
    lemma_group_fold_is_from_start(a + b);
    lemma_group_from_concat(start, a, b);
    lemma_run_joins_open_list(start, first, formatting, ordered);
    assert(start.open + items_of_texts(first) =~= items_of_texts(first));
    let mid = group_from(start, a);
    // the first text of the second run closes the open list
    let head = second.subrange(0, 1);
    let tail = second.subrange(1, second.len() as int);
    let bh = paragraphs_of(head, formatting);
    let bt = paragraphs_of(tail, formatting);
    assert(b =~= bh + bt);
    lemma_group_from_concat(mid, bh, bt);
    assert(bh.len() == 1);
    assert(bh.drop_last() =~= Seq::empty());
    assert(group_from(mid, bh.drop_last()) == mid);
    assert(bh.last().element->Paragraph_text == second[0]);
    assert(is_text_list_item(bh.last()));
    assert(head[0] == second[0]);
    let after_head = group_from(mid, bh);
    assert(after_head == group_step(mid, bh.last()));
    assert(after_head.done =~= seq![list_of_texts(first, ordered)]);
    assert(after_head.open =~= seq![item_of_text(second[0])]);
    if tail.len() > 0 {
        assert forall|k: int| 0 <= k < tail.len() implies is_list_item_like(#[trigger] tail[k])
            && starts_with_number(tail[k]) == !ordered by {
            assert(tail[k] == second[k + 1]);
        }
        lemma_run_joins_open_list(after_head, tail, formatting, !ordered);
        assert(after_head.open + items_of_texts(tail) =~= items_of_texts(second));
    } else {
        assert(bt =~= Seq::empty());
        assert(after_head.open =~= items_of_texts(second));
    }
    assert(grouped(a + b) =~= seq![list_of_texts(first, ordered), list_of_texts(second, !ordered)]);
}

// ---------------------------------------------------------------------------
// What the tag is for
// ---------------------------------------------------------------------------

/// A paragraph that holds a rendered item.
pub open spec fn rendered_paragraph(
    info: ListInfo,
    text: Seq<char>,
    formatting: FormattingModel,
    list_tagged: bool,
) -> TaggedModel {
    TaggedModel {
        element: ElementModel::Paragraph { text: rendered_item(info, text), formatting },
        list_tagged,
    }
}

/// The marker of a rendered item down to level 4 starts with a character
/// that is no white space.
pub proof fn lemma_marker_starts_with_a_mark(info: ListInfo)
    requires
        !info.is_ordered || info.level <= 4,
    ensures
        item_marker(info).len() >= 2,
        !is_white_space(item_marker(info)[0]),
{
}

/// The marker of a rendered item without the space at its end.
pub open spec fn bare_marker(info: ListInfo) -> Seq<char> {
    item_marker(info).drop_last()
}

/// A rendered item, trimmed, is its marker and its text; where it has no
/// text, it is its marker without the space at the end.
#[verifier::spinoff_prover]
#[verifier::rlimit(40)]
pub proof fn lemma_trim_of_rendered_item(info: ListInfo, text: Seq<char>)
    requires
        !info.is_ordered || info.level <= 4,
    ensures
        trim(text).len() > 0 ==> trim(rendered_item(info, text)) == item_marker(info) + trim(
            text,
        ),
        trim(text).len() == 0 ==> trim(rendered_item(info, text)) == bare_marker(info),
{
    let marker = item_marker(info);
    let body = trim(text);
    let pad = item_indent(info.level);
    lemma_marker_starts_with_a_mark(info);
    assert(forall|j: int| 0 <= j < pad.len() ==> is_white_space(#[trigger] pad[j]));
    if body.len() > 0 {
        let core = marker + body;
        assert(!is_white_space(body.last())) by {
            lemma_trim_bounds(text);
        }
        assert(core[0] == marker[0]);
        assert(core.last() == body.last());
        assert(rendered_item(info, text) == pad + core) by {
            assert(pad + marker + body =~= pad + (marker + body));
        }
        lemma_trim_of_padded(pad, core);
    } else {
        let core = bare_marker(info);
        let tail = seq![' '];
        assert(marker.last() == ' ');
        assert(marker =~= core + tail);
        assert(core[0] == marker[0]);
        assert(!is_white_space(core.last()));
        assert(rendered_item(info, text) =~= pad + core + tail);
        lemma_trim_of_wrapped(pad, core, tail);
    }
}

/// The tag decides. With its tag a rendered item is no business of the
/// text detector and stays the paragraph it is. Without the tag the same
/// text is read afresh, and where its marker is a bullet before a text, or
/// a letter with a dot, the text detector takes it for a list item.
#[verifier::spinoff_prover]
#[verifier::rlimit(40)]
pub proof fn lemma_tag_decides_classification(
    info: ListInfo,
    text: Seq<char>,
    formatting: FormattingModel,
)
    requires
        (!info.is_ordered && trim(text).len() > 0) || (info.is_ordered && 2 <= info.level <= 4),
    ensures
        !is_text_list_item(rendered_paragraph(info, text, formatting, true)),
        is_text_list_item(rendered_paragraph(info, text, formatting, false)),
        grouped(seq![rendered_paragraph(info, text, formatting, true)]) == seq![
            rendered_paragraph(info, text, formatting, true),
        ],
        grouped(seq![rendered_paragraph(info, text, formatting, false)]) == seq![
            TaggedModel {
                element: ElementModel::List {
                    items: seq![item_of_text(rendered_item(info, text))],
                    ordered: starts_with_number(rendered_item(info, text)),
                },
                list_tagged: false,
            },
        ],
{
    lemma_trim_of_rendered_item(info, text);
    let marker = item_marker(info);
    let t = trim(rendered_item(info, text));
    if !info.is_ordered {
        assert(t == marker + trim(text));
        reveal_strlit("* ");
        assert(t.subrange(0, 2) =~= "* "@);
        assert(has_bullet_marker(t));
    } else {
        assert(marker.len() == 3);
        assert(marker[1] == '.');
        if trim(text).len() > 0 {
            assert(t == marker + trim(text));
            assert(t[1] == marker[1]);
        } else {
            assert(t == bare_marker(info));
            assert(t[1] == marker[1]);
        }
        assert(has_letter_marker(t));
    }
    let with_tag = rendered_paragraph(info, text, formatting, true);
    let without_tag = rendered_paragraph(info, text, formatting, false);
    assert(seq![with_tag].drop_last() =~= Seq::empty());
    assert(seq![without_tag].drop_last() =~= Seq::empty());
    assert(group_fold(Seq::empty()).open.len() == 0);
    assert(grouped(seq![with_tag]) =~= seq![with_tag]);
    let st = group_fold(seq![without_tag]);
    assert(st.done =~= Seq::empty());
    assert(st.open =~= seq![item_of_text(rendered_item(info, text))]);
    assert(grouped(seq![without_tag]) =~= seq![open_list(st)]);
}

/// With a bullet and no text after it, a rendered item is no list item to
/// the text detector either: what is left of it is the bullet alone.
pub proof fn lemma_bare_bullet_is_no_item(info: ListInfo, text: Seq<char>)
    requires
        !info.is_ordered,
        trim(text).len() == 0,
    ensures
        trim(rendered_item(info, text)) == seq!['*'],
        !has_bullet_marker(trim(rendered_item(info, text))),
        !has_letter_marker(trim(rendered_item(info, text))),
{
    lemma_trim_of_rendered_item(info, text);
    assert(bare_marker(info) =~= seq!['*']);
    reveal_strlit("• ");
    reveal_strlit("- ");
    reveal_strlit("* ");
}

} // verus!
