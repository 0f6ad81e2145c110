//! What holds of every document that the assembler makes.

use vstd::prelude::*;
use crate::document::{
    assembly_fold, block_step, document_elements, paragraph_step, AssemblyState,
};
use crate::heading::{
    lemma_style_level_range, lemma_text_heading_level_range, styled_heading, MAX_HEADING_LEVEL,
};
use crate::list::{
    flushed, group_fold, group_step, grouped, is_text_list_item, GroupState, TaggedModel,
};
use crate::model::{BlockModel, ElementModel, ParagraphModel};
use crate::normalize::{paragraph_text, runs_formatting};
use crate::table::{inferred_table, lemma_inferred_table_shape};

verus! {

/// Whether an element is as the data model wants it: a heading of a level
/// from 1 to 6; a list with at least one item; a table with at least one
/// header cell and a width and an alignment for every column.
pub open spec fn is_sound_element(e: ElementModel) -> bool {
    match e {
        ElementModel::Heading { level, .. } => 1 <= level <= MAX_HEADING_LEVEL,
        ElementModel::List { items, .. } => items.len() > 0,
        ElementModel::Table { table } => {
            &&& table.headers.len() > 0
            &&& table.metadata.column_widths.len() == table.headers.len()
            &&& table.metadata.column_alignments.len() == table.headers.len()
        },
        _ => true,
    }
}

/// Whether every element of a sequence is sound.
pub open spec fn all_sound(es: Seq<TaggedModel>) -> bool {
    forall|k: int| 0 <= k < es.len() ==> is_sound_element((#[trigger] es[k]).element)
}

/// A paragraph adds at most one element, and a sound one.
#[verifier::spinoff_prover]
#[verifier::rlimit(40)]
pub proof fn lemma_paragraph_step_is_sound(st: AssemblyState, p: ParagraphModel)
    requires
        all_sound(st.elements),
    ensures
        all_sound(paragraph_step(st, p).elements),
{
    let text = paragraph_text(p);
    let formatting = runs_formatting(p.runs);
    let next = paragraph_step(st, p);
    if text.len() > 0 {
        if styled_heading(p) is Some {
            match p.style {
                Some(name) => lemma_style_level_range(name),
                None => {},
            }
        }
        lemma_text_heading_level_range(text, formatting.bold);
        assert(next.elements.len() == st.elements.len() + 1);
        assert forall|k: int| 0 <= k < next.elements.len() implies is_sound_element(
            (#[trigger] next.elements[k]).element,
        ) by {
            if k < st.elements.len() {
                assert(next.elements[k] == st.elements[k]);
            }
        }
    }
}

/// The pass over the blocks puts out sound elements only.
pub proof fn lemma_assembly_is_sound(bs: Seq<BlockModel>)
    ensures
        all_sound(assembly_fold(bs).elements),
    decreases bs.len(),
{
    if bs.len() > 0 {
        lemma_assembly_is_sound(bs.drop_last());
        let st = assembly_fold(bs.drop_last());
        match bs.last() {
            BlockModel::Paragraph(p) => {
                lemma_paragraph_step_is_sound(st, p);
            },
            BlockModel::Table(t) => {
                if inferred_table(t) is Some {
                    lemma_inferred_table_shape(t);
                    let next = block_step(st, bs.last());
                    assert forall|k: int| 0 <= k < next.elements.len() implies is_sound_element(
                        (#[trigger] next.elements[k]).element,
                    ) by {
                        if k < st.elements.len() {
                            assert(next.elements[k] == st.elements[k]);
                        }
                    }
                }
            },
        }
    }
}

/// The grouper puts out sound elements where it takes in sound elements:
/// a list that it closes has an item.
#[verifier::spinoff_prover]
#[verifier::rlimit(40)]
pub proof fn lemma_grouping_is_sound(es: Seq<TaggedModel>)
    requires
        all_sound(es),
    ensures
        all_sound(group_fold(es).done),
        all_sound(grouped(es)),
    decreases es.len(),
{
    if es.len() > 0 {
        let front = es.drop_last();
        assert forall|k: int| 0 <= k < front.len() implies is_sound_element(
            (#[trigger] front[k]).element,
        ) by {
            assert(front[k] == es[k]);
        }
        lemma_grouping_is_sound(front);
        let st = group_fold(front);
        let e = es.last();
        assert(is_sound_element(es[es.len() - 1].element));
        lemma_flushed_is_sound(st);
        let next = group_step(st, e);
        if !is_text_list_item(e) {
            assert forall|k: int| 0 <= k < next.done.len() implies is_sound_element(
                (#[trigger] next.done[k]).element,
            ) by {
                if k < flushed(st).len() {
                    assert(next.done[k] == flushed(st)[k]);
                }
            }
        }
        lemma_flushed_is_sound(next);
    } else {
        lemma_flushed_is_sound(group_fold(es));
    }
}

/// Closing the open list keeps the elements sound.
pub proof fn lemma_flushed_is_sound(st: GroupState)
    requires
        all_sound(st.done),
    ensures
        all_sound(flushed(st)),
{
    let out = flushed(st);
    assert forall|k: int| 0 <= k < out.len() implies is_sound_element(
        (#[trigger] out[k]).element,
    ) by {
        if k < st.done.len() {
            assert(out[k] == st.done[k]);
        }
    }
}

/// Every element of an assembled document is sound: its headings are of a
/// level from 1 to 6, its lists have items, and its tables have a header
/// cell, a width and an alignment for every column.
pub proof fn lemma_document_is_sound(bs: Seq<BlockModel>)
    ensures
        forall|k: int|
            0 <= k < document_elements(bs).len() ==> is_sound_element(
                #[trigger] document_elements(bs)[k],
            ),
{
    lemma_assembly_is_sound(bs);
    lemma_grouping_is_sound(assembly_fold(bs).elements);
    let grouped_elements = grouped(assembly_fold(bs).elements);
    assert forall|k: int| 0 <= k < document_elements(bs).len() implies is_sound_element(
        #[trigger] document_elements(bs)[k],
    ) by {
        assert(document_elements(bs)[k] == grouped_elements[k].element);
    }
}

} // verus!
