//! The document assembler: one pass over the decoded blocks, the
//! classifiers in their order of priority for each block, then the grouper.

use vstd::prelude::*;
use crate::heading::{styled_heading, text_heading_level, HeadingInfoModel};
use crate::list::{
    grouped, metadata_list_info, render_list_item, rendered_item, tagged_model, untagged,
    TaggedElement, TaggedModel,
};
use crate::model::{
    blocks_model, Block, BlockModel, DocumentMetadataModel, DocumentModel, ElementModel,
    ParagraphModel, RawParagraph,
};
use crate::normalize::{
    extract_paragraph_text, extract_runs_formatting, paragraph_text, runs_formatting,
};
use crate::numbering::{bumped, level_index, rendered_number, TRACKED_LEVELS};
use crate::scan::{count_words, word_count};
use crate::table::inferred_table;
use crate::text::string_of;

pub use crate::cell::{default_alignment_for_type, detect_cell_data_type};
pub use crate::heading::{
    detect_heading_from_paragraph_style, detect_heading_from_text, detect_heading_with_numbering,
    determine_heading_level_from_text, extract_heading_number_from_text,
};
pub use crate::heuristics::{is_likely_list_item, is_likely_sentence};
pub use crate::list::{
    calculate_list_level, clean_list_item_text, clean_word_list_markers,
    detect_list_from_paragraph_numbering, group_list_items,
};
pub use crate::model::{
    CellDataType, Document, DocumentElement, DocumentMetadata, ListItem, TableCell, TableData,
    TableMetadata, TextAlignment, TextFormatting,
};
pub use crate::numbering::{reconstruct_heading_number, HeadingNumberTracker};
pub use crate::search::{generate_outline, search_document, OutlineItem, SearchResult};
pub use crate::table::{
    appears_to_be_header, calculate_column_widths, determine_column_alignments,
    extract_table_data,
};

verus! {

/// How many words make a page.
pub const WORDS_PER_PAGE: usize = 250;

/// The number of pages that `words` words take: `words / 250`, rounded up.
pub open spec fn page_count(words: nat) -> nat {
    (words + WORDS_PER_PAGE - 1) as nat / (WORDS_PER_PAGE as nat)
}

/// The number of pages that `word_count` words take.
pub fn estimate_page_count(word_count: usize) -> (pages: usize)
    ensures
        pages == page_count(word_count as nat),
{
    let full: usize = word_count / WORDS_PER_PAGE;
    if word_count % WORDS_PER_PAGE == 0 {
        full
    } else {
        full + 1
    }
}

/// Where the assembler stands: the elements so far with their tags, the
/// counters of the numbering tracker, and the words counted.
pub struct AssemblyState {
    pub elements: Seq<TaggedModel>,
    pub counters: Seq<u64>,
    pub words: nat,
}

/// The assembler before the first block.
pub open spec fn initial_state() -> AssemblyState {
    AssemblyState {
        elements: Seq::empty(),
        counters: Seq::new(TRACKED_LEVELS as nat, |k: int| 0u64),
        words: 0,
    }
}

/// An element without a tag.
pub open spec fn plain(element: ElementModel) -> TaggedModel {
    TaggedModel { element, list_tagged: false }
}

/// The text that a styled heading shows: its clean text where it has one,
/// else the paragraph's text.
pub open spec fn heading_text(h: HeadingInfoModel, text: Seq<char>) -> Seq<char> {
    match h.clean_text {
        Some(t) => t,
        None => text,
    }
}

/// One paragraph. A paragraph without text is dropped. Its words are
/// counted once. Then, first match wins: with numbering metadata it is a
/// rendered and tagged list item; with a heading style it is a heading,
/// numbered by the tracker where it brings no number; by the look of its
/// text it is a heading without a number; else it is a paragraph.
pub open spec fn paragraph_step(st: AssemblyState, p: ParagraphModel) -> AssemblyState {
    let text = paragraph_text(p);
    let formatting = runs_formatting(p.runs);
    let words = st.words + word_count(text);
    if text.len() == 0 {
        st
    } else if metadata_list_info(p.numbering) is Some {
        let info = metadata_list_info(p.numbering)->0;
        AssemblyState {
            elements: st.elements.push(
                TaggedModel {
                    element: ElementModel::Paragraph {
                        text: rendered_item(info, text),
                        formatting,
                    },
                    list_tagged: true,
                },
            ),
            counters: st.counters,
            words,
        }
    } else if styled_heading(p) is Some {
        let h = styled_heading(p)->0;
        if h.number is Some {
            AssemblyState {
                elements: st.elements.push(
                    plain(
                        ElementModel::Heading {
                            level: h.level,
                            text: heading_text(h, text),
                            number: h.number,
                        },
                    ),
                ),
                counters: st.counters,
                words,
            }
        } else {
            let counters = bumped(st.counters, level_index(h.level));
            AssemblyState {
                elements: st.elements.push(
                    plain(
                        ElementModel::Heading {
                            level: h.level,
                            text: heading_text(h, text),
                            number: Some(rendered_number(counters, level_index(h.level) + 1)),
                        },
                    ),
                ),
                counters,
                words,
            }
        }
    } else if text_heading_level(text, formatting.bold) is Some {
        AssemblyState {
            elements: st.elements.push(
                plain(
                    ElementModel::Heading {
                        level: text_heading_level(text, formatting.bold)->0,
                        text,
                        number: None,
                    },
                ),
            ),
            counters: st.counters,
            words,
        }
    } else {
        AssemblyState {
            elements: st.elements.push(plain(ElementModel::Paragraph { text, formatting })),
            counters: st.counters,
            words,
        }
    }
}

/// One block: a paragraph as `paragraph_step` says; a table as a table
/// element, or nothing where none of its rows holds a cell.
pub open spec fn block_step(st: AssemblyState, b: BlockModel) -> AssemblyState {
    match b {
        BlockModel::Paragraph(p) => paragraph_step(st, p),
        BlockModel::Table(t) => match inferred_table(t) {
            Some(table) => AssemblyState {
                elements: st.elements.push(plain(ElementModel::Table { table })),
                ..st
            },
            None => st,
        },
    }
}

/// Where the assembler stands after the blocks `bs`.
pub open spec fn assembly_fold(bs: Seq<BlockModel>) -> AssemblyState
    decreases bs.len(),
{
    if bs.len() == 0 {
        initial_state()
    } else {
        block_step(assembly_fold(bs.drop_last()), bs.last())
    }
}

/// The elements of the document that the blocks `bs` make: what the pass
/// over the blocks puts out, with consecutive list items gathered.
pub open spec fn document_elements(bs: Seq<BlockModel>) -> Seq<ElementModel> {
    untagged(grouped(assembly_fold(bs).elements))
}

/// The number of words, held to what a machine word can count.
pub open spec fn capped(words: nat) -> usize {
    if words > usize::MAX {
        usize::MAX
    } else {
        words as usize
    }
}

/// The document that the blocks `bs` make.
pub open spec fn assembled(
    title: Seq<char>,
    file_path: Seq<char>,
    file_size: u64,
    bs: Seq<BlockModel>,
) -> DocumentModel {
    let words = capped(assembly_fold(bs).words);
    DocumentModel {
        title,
        metadata: DocumentMetadataModel {
            file_path,
            file_size,
            word_count: words,
            page_count: page_count(words as nat) as usize,
            created: None,
            modified: None,
            author: None,
        },
        elements: document_elements(bs),
    }
}

/// The element that a paragraph with text becomes, and the new state of
/// the tracker.
#[verifier::spinoff_prover]
#[verifier::rlimit(40)]
fn classify_paragraph(
    para: &RawParagraph,
    text: Vec<char>,
    tracker: &mut HeadingNumberTracker,
    Ghost(st): Ghost<AssemblyState>,
) -> (out: TaggedElement)
    requires
        text@ == paragraph_text(para@),
        text@.len() > 0,
        old(tracker).counters() == st.counters,
    ensures
        paragraph_step(st, para@).elements == st.elements.push(out@),
        paragraph_step(st, para@).counters == final(tracker).counters(),
{
    let formatting = extract_runs_formatting(&para.runs);
    if let Some(info) = detect_list_from_paragraph_numbering(para) {
        let rendered = render_list_item(info, text.as_slice());
        return TaggedElement {
            element: DocumentElement::Paragraph {
                text: string_of(rendered.as_slice()),
                formatting,
            },
            list_tagged: true,
        };
    }
    if let Some(info) = detect_heading_with_numbering(para) {
        let heading_text = match info.clean_text {
            Some(t) => t,
            None => string_of(text.as_slice()),
        };
        let number = match info.number {
            Some(n) => Some(n),
            None => Some(tracker.get_number(info.level)),
        };
        return TaggedElement {
            element: DocumentElement::Heading { level: info.level, text: heading_text, number },
            list_tagged: false,
        };
    }
    let text = string_of(text.as_slice());
    match detect_heading_from_text(text.as_str(), &formatting) {
        Some(level) => TaggedElement {
            element: DocumentElement::Heading { level, text, number: None },
            list_tagged: false,
        },
        None => TaggedElement {
            element: DocumentElement::Paragraph { text, formatting },
            list_tagged: false,
        },
    }
}

/// Reconstructs the document from its decoded blocks.
///
/// The blocks are read once, in order. Each paragraph with text becomes a
/// list item, a heading or a paragraph, each table with cells a typed
/// table; then consecutive list items are gathered and the tags dropped.
/// The elements keep the order of the blocks. `title`, `file_path` and
/// `file_size` are handed on as they are.
#[verifier::spinoff_prover]
#[verifier::rlimit(40)]
pub fn assemble_document(title: String, file_path: String, file_size: u64, blocks: &[Block]) -> (doc:
    Document)
    ensures
        doc@ == assembled(title@, file_path@, file_size, blocks_model(blocks@)),
{
    let ghost bs = blocks_model(blocks@);
    let mut elements: Vec<TaggedElement> = Vec::new();
    let mut word_count: usize = 0;
    let mut tracker = HeadingNumberTracker::new();
    proof {
        assert(bs.take(0) =~= Seq::empty());
        assert(tagged_model(elements@) =~= Seq::empty());
    }
    let mut i: usize = 0;
    while i < blocks.len()
        invariant
            i <= blocks.len(),
            bs == blocks_model(blocks@),
            tagged_model(elements@) == assembly_fold(bs.take(i as int)).elements,
            tracker.counters() == assembly_fold(bs.take(i as int)).counters,
            word_count == capped(assembly_fold(bs.take(i as int)).words),
        decreases blocks.len() - i,
    {
        let ghost st = assembly_fold(bs.take(i as int));
        proof {
            let now = bs.take(i + 1);
            assert(now.drop_last() == bs.take(i as int));
            assert(now.last() == blocks@[i as int]@);
        }
        match &blocks[i] {
            Block::Paragraph(para) => {
                let text = extract_paragraph_text(para);
                if text.len() > 0 {
                    let words = count_words(text.as_slice());
                    word_count = word_count.saturating_add(words);
                    let element = classify_paragraph(para, text, &mut tracker, Ghost(st));
                    let ghost before = tagged_model(elements@);
                    elements.push(element);
                    assert(tagged_model(elements@) =~= before.push(element@));
                }
            },
            Block::Table(table) => {
                if let Some(element) = extract_table_data(table) {
                    let ghost before = tagged_model(elements@);
                    elements.push(TaggedElement { element, list_tagged: false });
                    assert(tagged_model(elements@) =~= before.push(plain(element@)));
                }
            },
        }
        i += 1;
    }
    assert(bs.take(blocks.len() as int) == bs);
    let elements = group_list_items(elements);
    let elements = clean_word_list_markers(elements);
    let metadata = DocumentMetadata {
        file_path,
        file_size,
        word_count,
        page_count: estimate_page_count(word_count),
        created: None,
        modified: None,
        author: None,
    };
    Document { title, metadata, elements }
}

} // verus!
