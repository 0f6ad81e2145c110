//! The text and formatting normalizer: one trimmed text and one formatting
//! record for each paragraph.

use vstd::prelude::*;
use crate::model::{
    copy_opt_text, opt_text, plain_formatting, FormattingModel, ParagraphModel, RawParagraph, Run, RunModel,
    RunPiece, RunPieceModel, TextFormatting,
};
use crate::scan::first_index_of;
use crate::search::{find_in, find_text, lemma_find_text};
use crate::text::{append_chars, chars_of, copy_range, string_of, trim, trimmed};

verus! {

/// The text that stands for an embedded drawing.
pub open spec fn drawing_placeholder() -> Seq<char> {
    seq!['[', 'I', 'm', 'a', 'g', 'e', ']']
}

/// The text of one piece: its own text, a tab character, a newline, or the
/// drawing placeholder.
pub open spec fn piece_text(p: RunPieceModel) -> Seq<char> {
    match p {
        RunPieceModel::Text(t) => t,
        RunPieceModel::Tab => seq!['\t'],
        RunPieceModel::Break => seq!['\n'],
        RunPieceModel::Drawing => drawing_placeholder(),
    }
}

/// The texts of the pieces, one after the other.
pub open spec fn pieces_text(ps: Seq<RunPieceModel>) -> Seq<char>
    decreases ps.len(),
{
    if ps.len() == 0 {
        Seq::empty()
    } else {
        pieces_text(ps.drop_last()) + piece_text(ps.last())
    }
}

/// The text of a run.
pub open spec fn run_text(r: RunModel) -> Seq<char> {
    pieces_text(r.pieces)
}

/// The texts of the runs, one after the other.
pub open spec fn runs_text(rs: Seq<RunModel>) -> Seq<char>
    decreases rs.len(),
{
    if rs.len() == 0 {
        Seq::empty()
    } else {
        runs_text(rs.drop_last()) + run_text(rs.last())
    }
}

/// The normalized text of a paragraph: the texts of its runs, trimmed.
pub open spec fn paragraph_text(p: ParagraphModel) -> Seq<char> {
    trim(runs_text(p.runs))
}

/// The formatting that a run declares.
pub open spec fn run_formatting(r: RunModel) -> FormattingModel {
    FormattingModel {
        bold: r.bold,
        italic: r.italic,
        underline: r.underline,
        font_size: None,
        color: r.color,
    }
}

/// Whether a formatting carries a bold or an italic flag.
pub open spec fn is_emphasized(f: FormattingModel) -> bool {
    f.bold || f.italic
}

/// The single formatting of a sequence of runs: each run replaces the
/// formatting so far until one carries a bold or an italic flag; from then
/// on the formatting stays.
pub open spec fn runs_formatting(rs: Seq<RunModel>) -> FormattingModel
    decreases rs.len(),
{
    if rs.len() == 0 {
        plain_formatting()
    } else {
        let before = runs_formatting(rs.drop_last());
        if is_emphasized(before) {
            before
        } else {
            run_formatting(rs.last())
        }
    }
}

/// Whether no run before index `i` carries a bold or an italic flag.
pub open spec fn none_emphasized_before(rs: Seq<RunModel>, i: int) -> bool {
    forall|k: int| 0 <= k < i ==> !is_emphasized(run_formatting(#[trigger] rs[k]))
}

/// The formatting of a paragraph is that of its first run with a bold or an
/// italic flag; the runs after it do not count.
pub proof fn lemma_formatting_of_first_emphasized_run(rs: Seq<RunModel>, i: int)
    requires
        0 <= i < rs.len(),
        is_emphasized(run_formatting(rs[i])),
        none_emphasized_before(rs, i),
    ensures
        runs_formatting(rs) == run_formatting(rs[i]),
    decreases rs.len(),
{
    let front = rs.drop_last();
    if i == rs.len() - 1 {
        lemma_formatting_without_emphasis(front);
    } else {
        assert(front[i] == rs[i]);
        assert forall|k: int| 0 <= k < i implies !is_emphasized(
            run_formatting(#[trigger] front[k]),
        ) by {
            assert(front[k] == rs[k]);
        }
        lemma_formatting_of_first_emphasized_run(front, i);
    }
}

/// Where no run carries a bold or an italic flag, the formatting is that of
/// the last run, and plain where there is no run.
pub proof fn lemma_formatting_without_emphasis(rs: Seq<RunModel>)
    requires
        none_emphasized_before(rs, rs.len() as int),
    ensures
        !is_emphasized(runs_formatting(rs)),
        rs.len() > 0 ==> runs_formatting(rs) == run_formatting(rs.last()),
        rs.len() == 0 ==> runs_formatting(rs) == plain_formatting(),
    decreases rs.len(),
{
    if rs.len() > 0 {
        let front = rs.drop_last();
        assert forall|k: int| 0 <= k < front.len() implies !is_emphasized(
            run_formatting(#[trigger] front[k]),
        ) by {
            assert(front[k] == rs[k]);
        }
        lemma_formatting_without_emphasis(front);
        assert(!is_emphasized(run_formatting(rs[rs.len() - 1])));
    }
}

/// Appends the text of one piece to `buf`.
fn push_piece_text(buf: &mut Vec<char>, piece: &RunPiece)
    ensures
        final(buf)@ == old(buf)@ + piece_text(piece@),
{
    match piece {
        RunPiece::Text(t) => {
            let cs = chars_of(t.as_str());
            append_chars(buf, cs.as_slice());
        },
        RunPiece::Tab => {
            buf.push('\t');
            assert(buf@ == old(buf)@ + seq!['\t']);
        },
        RunPiece::Break => {
            buf.push('\n');
            assert(buf@ == old(buf)@ + seq!['\n']);
        },
        RunPiece::Drawing => {
            buf.push('[');
            buf.push('I');
            buf.push('m');
            buf.push('a');
            buf.push('g');
            buf.push('e');
            buf.push(']');
            assert(buf@ == old(buf)@ + drawing_placeholder());
        },
    }
}

/// Appends the text of one run to `buf`.
pub fn push_run_text(buf: &mut Vec<char>, run: &Run)
    ensures
        final(buf)@ == old(buf)@ + run_text(run@),
{
    let mut i: usize = 0;
    while i < run.pieces.len()
        invariant
            i <= run.pieces.len(),
            buf@ == old(buf)@ + pieces_text(run@.pieces.take(i as int)),
        decreases run.pieces.len() - i,
    {
        proof {
            let now = run@.pieces.take(i + 1);
            assert(now.drop_last() == run@.pieces.take(i as int));
            assert(now.last() == run.pieces@[i as int]@);
        }
        push_piece_text(buf, &run.pieces[i]);
        i += 1;
    }
    assert(run@.pieces.take(run.pieces.len() as int) == run@.pieces);
}

/// The text of a run: tabs become a tab character, line breaks a newline
/// and drawings the placeholder.
pub fn extract_run_text(run: &Run) -> (out: Vec<char>)
    ensures
        out@ == run_text(run@),
{
    let mut out: Vec<char> = Vec::new();
    push_run_text(&mut out, run);
    out
}

/// The texts of all runs of a paragraph, untrimmed.
pub fn extract_runs_text(para: &RawParagraph) -> (out: Vec<char>)
    ensures
        out@ == runs_text(para@.runs),
{
    let mut out: Vec<char> = Vec::new();
    let mut i: usize = 0;
    while i < para.runs.len()
        invariant
            i <= para.runs.len(),
            out@ == runs_text(para@.runs.take(i as int)),
        decreases para.runs.len() - i,
    {
        proof {
            let now = para@.runs.take(i + 1);
            assert(now.drop_last() == para@.runs.take(i as int));
            assert(now.last() == para.runs@[i as int]@);
        }
        push_run_text(&mut out, &para.runs[i]);
        i += 1;
    }
    assert(para@.runs.take(para.runs.len() as int) == para@.runs);
    out
}

/// The normalized text of a paragraph.
pub fn extract_paragraph_text(para: &RawParagraph) -> (out: Vec<char>)
    ensures
        out@ == paragraph_text(para@),
{
    let raw = extract_runs_text(para);
    trimmed(raw.as_slice())
}

/// The formatting that a run declares.
pub fn extract_run_formatting(run: &Run) -> (f: TextFormatting)
    ensures
        f@ == run_formatting(run@),
{
    TextFormatting {
        bold: run.bold,
        italic: run.italic,
        underline: run.underline,
        font_size: None,
        color: copy_opt_text(&run.color),
    }
}

/// The single formatting of a sequence of runs.
pub fn extract_runs_formatting(runs: &Vec<Run>) -> (f: TextFormatting)
    ensures
        f@ == runs_formatting(runs@.map_values(|r: Run| r@)),
{
    let ghost rs = runs@.map_values(|r: Run| r@);
    let mut f = TextFormatting::default();
    let mut i: usize = 0;
    while i < runs.len()
        invariant
            i <= runs.len(),
            rs == runs@.map_values(|r: Run| r@),
            f@ == runs_formatting(rs.take(i as int)),
        decreases runs.len() - i,
    {
        proof {
            let now = rs.take(i + 1);
            assert(now.drop_last() == rs.take(i as int));
            assert(now.last() == runs@[i as int]@);
        }
        if !f.bold && !f.italic {
            f = extract_run_formatting(&runs[i]);
        }
        i += 1;
    }
    assert(rs.take(runs.len() as int) == rs);
    f
}

/// What opens the value of a colour in its printed form.
pub open spec fn color_value_opener() -> Seq<char> {
    "val: \""@
}

/// The value of a colour as it stands in the printed form `printed` of the
/// colour: what stands between the first `val: "` and the next `"`, and
/// nothing where either is missing.
pub open spec fn color_value_of(printed: Seq<char>) -> Option<Seq<char>> {
    let at = find_text(printed, color_value_opener(), 0);
    let start = at + color_value_opener().len();
    let end = first_index_of(printed, '"', start);
    if at <= printed.len() && end < printed.len() {
        Some(printed.subrange(start, end))
    } else {
        None
    }
}

/// The value of a colour, read off its printed form.
pub fn color_value_in(printed: &str) -> (r: Option<String>)
    ensures
        opt_text(r) == color_value_of(printed@),
{
    let cs = chars_of(printed);
    let cs = cs.as_slice();
    let opener = chars_of("val: \"");
    let at = match find_in(cs, opener.as_slice()) {
        Some(at) => at,
        None => {
            return None;
        },
    };
    proof {
        lemma_find_text(cs@, opener@, 0);
    }
    let start: usize = at + opener.len();
    let mut end: usize = start;
    while end < cs.len() && cs[end] != '"'
        invariant
            start <= end <= cs.len(),
            first_index_of(cs@, '"', end as int) == first_index_of(cs@, '"', start as int),
        decreases cs.len() - end,
    {
        end += 1;
    }
    if end >= cs.len() {
        return None;
    }
    let value = copy_range(cs, start, end);
    Some(string_of(value.as_slice()))
}

} // verus!
