//! The table schema inferencer: header detection, column widths and column
//! alignments, and the typed table that a decoded table gives.

use vstd::prelude::*;
use crate::cell::{cell_of_text, is_numeric_type};
use crate::model::{
    cells_model, plain_formatting, rows_model, CellDataType, CellModel, DocumentElement,
    ElementModel, FormattingModel, ParagraphModel, RawCell, RawCellModel, RawRow, RawRowModel,
    RawTable, RawTableModel, Run, RunModel, TableCell, TableData, TableMetadata,
    TableMetadataModel, TableModel, TextAlignment, TextFormatting,
};
use crate::normalize::{
    extract_run_formatting, extract_run_text, is_emphasized, run_formatting, run_text,
};
use crate::scan::{
    ascii_lowercase, byte_len, contains, contains_text, count_words, to_ascii_lowercase,
    utf8_len, word_count,
};
use crate::text::{
    append_chars, char_is_white_space, chars_of, is_white_space, string_of, trim, trimmed,
};
use crate::trusted::grapheme_count;

verus! {

/// A row whose cells are longer than this on average is no header.
pub const HEADER_MAX_AVERAGE_LEN: u128 = 50;

/// A cell of at most this many words looks like a header.
pub const HEADER_MAX_WORDS: usize = 3;

/// No column is narrower than this.
pub const MIN_COLUMN_WIDTH: usize = 3;

/// A column is numeric when more than `NUMERIC_SHARE_PARTS` in
/// `NUMERIC_SHARE_WHOLE` of its cells are.
pub const NUMERIC_SHARE_PARTS: u128 = 7;

/// See `NUMERIC_SHARE_PARTS`.
pub const NUMERIC_SHARE_WHOLE: u128 = 10;

// ---------------------------------------------------------------------------
// Header detection
// ---------------------------------------------------------------------------

/// The views of a row of texts.
pub open spec fn texts_model(row: Seq<String>) -> Seq<Seq<char>> {
    row.map_values(|s: String| s@)
}

/// The lengths in bytes of the texts of a row, added up.
pub open spec fn total_len(row: Seq<Seq<char>>) -> nat
    decreases row.len(),
{
    if row.len() == 0 {
        0
    } else {
        total_len(row.drop_last()) + utf8_len(row.last())
    }
}

/// Whether a text, in any mix of ASCII cases, holds one of the words that
/// headers are made of.
pub open spec fn has_header_keyword(cell: Seq<char>) -> bool {
    let l = ascii_lowercase(cell);
    ||| contains_text(l, "name"@)
    ||| contains_text(l, "date"@)
    ||| contains_text(l, "amount"@)
    ||| contains_text(l, "type"@)
    ||| contains_text(l, "status"@)
    ||| contains_text(l, "id"@)
    ||| contains_text(l, "description"@)
    ||| contains_text(l, "count"@)
}

/// Whether a cell looks like a header: it has at most three words, or it
/// holds a header keyword.
pub open spec fn looks_like_header_cell(cell: Seq<char>) -> bool {
    word_count(cell) <= HEADER_MAX_WORDS || has_header_keyword(cell)
}

/// The number of cells before index `n` that look like headers.
pub open spec fn header_cells_before(row: Seq<Seq<char>>, n: int) -> nat
    decreases n,
{
    if n <= 0 {
        0
    } else {
        header_cells_before(row, n - 1) + if looks_like_header_cell(row[n - 1]) {
            1nat
        } else {
            0nat
        }
    }
}

/// The average length in bytes of the cells of a row, rounded down, and 0
/// for a row without cells.
pub open spec fn average_len(row: Seq<Seq<char>>) -> nat {
    if row.len() > 0 {
        total_len(row) / row.len()
    } else {
        0
    }
}

/// Whether a row looks like a header: its cells are, on average, no longer
/// than `HEADER_MAX_AVERAGE_LEN`, and more than half of them look like
/// headers.
pub open spec fn looks_like_header(row: Seq<Seq<char>>) -> bool {
    average_len(row) <= HEADER_MAX_AVERAGE_LEN && header_cells_before(row, row.len() as int)
        > row.len() / 2
}

fn header_keyword_in(cell: &[char]) -> (r: bool)
    ensures
        r == has_header_keyword(cell@),
{
    let l = to_ascii_lowercase(cell);
    let l = l.as_slice();
    let name = chars_of("name");
    let date = chars_of("date");
    let amount = chars_of("amount");
    let kind = chars_of("type");
    let status = chars_of("status");
    let id = chars_of("id");
    let description = chars_of("description");
    let count = chars_of("count");
    contains(l, name.as_slice()) || contains(l, date.as_slice()) || contains(l, amount.as_slice())
        || contains(l, kind.as_slice()) || contains(l, status.as_slice()) || contains(
        l,
        id.as_slice(),
    ) || contains(l, description.as_slice()) || contains(l, count.as_slice())
}

fn header_cell(cell: &str) -> (r: bool)
    ensures
        r == looks_like_header_cell(cell@),
{
    let cs = chars_of(cell);
    count_words(cs.as_slice()) <= HEADER_MAX_WORDS || header_keyword_in(cs.as_slice())
}

/// Whether the texts of a row look like a header.
pub fn appears_to_be_header(row: &[String]) -> (r: bool)
    ensures
        r == looks_like_header(texts_model(row@)),
{
    let ghost texts = texts_model(row@);
    let n: usize = row.len();
    let mut total: u128 = 0;
    let mut i: usize = 0;
    while i < n
        invariant
            i <= n,
            n == row.len(),
            texts == texts_model(row@),
            total == total_len(texts.take(i as int)),
            total <= i * usize::MAX,
        decreases n - i,
    {
        proof {
            let now = texts.take(i + 1);
            assert(now.drop_last() == texts.take(i as int));
            assert(now.last() == row@[i as int]@);
            assert(i * usize::MAX + usize::MAX == (i + 1) * usize::MAX) by (nonlinear_arith);
            assert((i + 1) * usize::MAX <= usize::MAX * usize::MAX) by (nonlinear_arith)
                requires
                    i + 1 <= usize::MAX,
            ;
        }
        let len = byte_len(row[i].as_str());
        total = total + len as u128;
        i += 1;
    }
    assert(texts.take(n as int) == texts);
    let average: u128 = if n > 0 {
        total / (n as u128)
    } else {
        0
    };
    if average > HEADER_MAX_AVERAGE_LEN {
        return false;
    }
    let mut indicators: usize = 0;
    let mut k: usize = 0;
    while k < n
        invariant
            k <= n,
            n == row.len(),
            texts == texts_model(row@),
            indicators == header_cells_before(texts, k as int),
            indicators <= k,
        decreases n - k,
    {
        if header_cell(row[k].as_str()) {
            indicators += 1;
        }
        k += 1;
    }
    indicators > n / 2
}

// ---------------------------------------------------------------------------
// Column widths and alignments
// ---------------------------------------------------------------------------

/// The greater of two numbers.
pub open spec fn max_of(a: nat, b: nat) -> nat {
    if a >= b {
        a
    } else {
        b
    }
}

/// The width of a cell on screen: the number of grapheme clusters of its
/// text.
pub open spec fn cell_width(cell: CellModel) -> nat {
    grapheme_count(cell.content)
}

/// The width of the widest cell that the rows hold in column `col`, and 0
/// where no row reaches that column.
pub open spec fn rows_width(rows: Seq<Seq<CellModel>>, col: int) -> nat
    decreases rows.len(),
{
    if rows.len() == 0 {
        0
    } else {
        max_of(
            rows_width(rows.drop_last(), col),
            if 0 <= col < rows.last().len() {
                cell_width(rows.last()[col])
            } else {
                0
            },
        )
    }
}

/// The width of a column whose header cell is `header` wide and whose
/// widest other cell is `widest` wide: the greater of the two, and
/// `MIN_COLUMN_WIDTH` at least.
pub open spec fn width_of_column(header: nat, widest: nat) -> nat {
    max_of(MIN_COLUMN_WIDTH as nat, max_of(header, widest))
}

/// The width of column `col`: that of its widest cell, the header cell
/// among them, and `MIN_COLUMN_WIDTH` at least.
pub open spec fn column_width(headers: Seq<CellModel>, rows: Seq<Seq<CellModel>>, col: int) -> nat {
    width_of_column(cell_width(headers[col]), rows_width(rows, col))
}

/// The widths of the columns, one for each header cell.
pub open spec fn column_widths(headers: Seq<CellModel>, rows: Seq<Seq<CellModel>>) -> Seq<usize> {
    Seq::new(headers.len(), |col: int| column_width(headers, rows, col) as usize)
}

/// The number of rows that hold a cell in column `col`.
pub open spec fn cells_in_column(rows: Seq<Seq<CellModel>>, col: int) -> nat
    decreases rows.len(),
{
    if rows.len() == 0 {
        0
    } else {
        cells_in_column(rows.drop_last(), col) + if 0 <= col < rows.last().len() {
            1nat
        } else {
            0nat
        }
    }
}

/// The number of rows whose cell in column `col` is of the numeric family.
pub open spec fn numeric_in_column(rows: Seq<Seq<CellModel>>, col: int) -> nat
    decreases rows.len(),
{
    if rows.len() == 0 {
        0
    } else {
        numeric_in_column(rows.drop_last(), col) + if 0 <= col < rows.last().len()
            && is_numeric_type(rows.last()[col].data_type) {
            1nat
        } else {
            0nat
        }
    }
}

/// The alignment of column `col`: right where more than seven in ten of
/// its cells, the header cell not counted, are of the numeric family; else
/// left.
pub open spec fn column_alignment(rows: Seq<Seq<CellModel>>, col: int) -> TextAlignment {
    if cells_in_column(rows, col) > 0 && numeric_in_column(rows, col) * NUMERIC_SHARE_WHOLE
        > cells_in_column(rows, col) * NUMERIC_SHARE_PARTS {
        TextAlignment::Right
    } else {
        TextAlignment::Left
    }
}

/// The alignments of the columns, one for each header cell.
pub open spec fn column_alignments(headers: Seq<CellModel>, rows: Seq<Seq<CellModel>>) -> Seq<
    TextAlignment,
> {
    Seq::new(headers.len(), |col: int| column_alignment(rows, col))
}

/// The greater of two widths.
pub fn wider_of(a: usize, b: usize) -> (w: usize)
    ensures
        w == max_of(a as nat, b as nat),
{
    if a >= b {
        a
    } else {
        b
    }
}

/// The width of a column from the width of its header cell and that of
/// its widest other cell.
pub fn column_width_from(header_width: usize, widest_cell: usize) -> (w: usize)
    ensures
        w == width_of_column(header_width as nat, widest_cell as nat),
{
    wider_of(MIN_COLUMN_WIDTH, wider_of(header_width, widest_cell))
}

/// A column with cells all of which are of the numeric family is aligned
/// to the right.
pub proof fn lemma_numeric_column_is_right(rows: Seq<Seq<CellModel>>, col: int)
    requires
        cells_in_column(rows, col) > 0,
        numeric_in_column(rows, col) == cells_in_column(rows, col),
    ensures
        column_alignment(rows, col) == TextAlignment::Right,
{
}

/// A column without a cell of the numeric family is aligned to the left.
pub proof fn lemma_text_column_is_left(rows: Seq<Seq<CellModel>>, col: int)
    requires
        numeric_in_column(rows, col) == 0,
    ensures
        column_alignment(rows, col) == TextAlignment::Left,
{
}

fn width_in_rows(rows: &Vec<Vec<TableCell>>, col: usize) -> (w: usize)
    ensures
        w == rows_width(rows_model(rows@), col as int),
{
    let ghost model = rows_model(rows@);
    let mut w: usize = 0;
    let mut r: usize = 0;
    while r < rows.len()
        invariant
            r <= rows.len(),
            model == rows_model(rows@),
            w == rows_width(model.take(r as int), col as int),
        decreases rows.len() - r,
    {
        proof {
            let now = model.take(r + 1);
            assert(now.drop_last() == model.take(r as int));
            assert(now.last() == cells_model(rows@[r as int]@));
        }
        let row = &rows[r];
        if col < row.len() {
            w = wider_of(w, row[col].display_width());
        }
        r += 1;
    }
    assert(model.take(rows.len() as int) == model);
    w
}

/// The widths of the columns: for each header cell the width of the widest
/// cell of its column, and 3 at least.
pub fn calculate_column_widths(headers: &[TableCell], rows: &Vec<Vec<TableCell>>) -> (widths: Vec<
    usize,
>)
    ensures
        widths@ == column_widths(cells_model(headers@), rows_model(rows@)),
{
    let ghost hm = cells_model(headers@);
    let ghost rm = rows_model(rows@);
    let mut widths: Vec<usize> = Vec::new();
    let mut col: usize = 0;
    while col < headers.len()
        invariant
            col <= headers.len(),
            hm == cells_model(headers@),
            rm == rows_model(rows@),
            widths@.len() == col,
            forall|c: int| 0 <= c < col ==> widths@[c] == column_width(hm, rm, c) as usize,
        decreases headers.len() - col,
    {
        let w = column_width_from(headers[col].display_width(), width_in_rows(rows, col));
        assert(w == column_width(hm, rm, col as int));
        widths.push(w);
        col += 1;
    }
    assert(widths@ =~= column_widths(hm, rm));
    widths
}

fn alignment_of_column(rows: &Vec<Vec<TableCell>>, col: usize) -> (a: TextAlignment)
    ensures
        a == column_alignment(rows_model(rows@), col as int),
{
    let ghost model = rows_model(rows@);
    let mut total: usize = 0;
    let mut numeric: usize = 0;
    let mut r: usize = 0;
    while r < rows.len()
        invariant
            r <= rows.len(),
            model == rows_model(rows@),
            total == cells_in_column(model.take(r as int), col as int),
            numeric == numeric_in_column(model.take(r as int), col as int),
            numeric <= total <= r,
        decreases rows.len() - r,
    {
        proof {
            let now = model.take(r + 1);
            assert(now.drop_last() == model.take(r as int));
            assert(now.last() == cells_model(rows@[r as int]@));
        }
        let row = &rows[r];
        if col < row.len() {
            total += 1;
            match row[col].data_type {
                CellDataType::Number | CellDataType::Currency | CellDataType::Percentage => {
                    numeric += 1;
                },
                _ => {},
            }
        }
        r += 1;
    }
    assert(model.take(rows.len() as int) == model);
    if total > 0 && (numeric as u128) * NUMERIC_SHARE_WHOLE > (total as u128)
        * NUMERIC_SHARE_PARTS {
        TextAlignment::Right
    } else {
        TextAlignment::Left
    }
}

/// The alignments of the columns: right for a column whose cells are of
/// the numeric family for more than seven in ten, else left.
pub fn determine_column_alignments(headers: &[TableCell], rows: &Vec<Vec<TableCell>>) -> (out: Vec<
    TextAlignment,
>)
    ensures
        out@ == column_alignments(cells_model(headers@), rows_model(rows@)),
{
    let ghost rm = rows_model(rows@);
    let mut out: Vec<TextAlignment> = Vec::new();
    let mut col: usize = 0;
    while col < headers.len()
        invariant
            col <= headers.len(),
            rm == rows_model(rows@),
            out@.len() == col,
            forall|c: int| 0 <= c < col ==> out@[c] == column_alignment(rm, c),
        decreases headers.len() - col,
    {
        out.push(alignment_of_column(rows, col));
        col += 1;
    }
    assert(out@ =~= column_alignments(cells_model(headers@), rm));
    out
}

/// The table that headers and rows make, with what is inferred of it.
pub open spec fn table_of(headers: Seq<CellModel>, rows: Seq<Seq<CellModel>>) -> TableModel {
    TableModel {
        headers,
        rows,
        metadata: TableMetadataModel {
            column_count: headers.len() as usize,
            row_count: rows.len() as usize,
            has_headers: headers.len() > 0,
            column_widths: column_widths(headers, rows),
            column_alignments: column_alignments(headers, rows),
            title: None,
        },
    }
}

impl TableData {
    /// The table of the given headers and rows: one column for each header
    /// cell, with its width and its alignment.
    pub fn new(headers: Vec<TableCell>, rows: Vec<Vec<TableCell>>) -> (table: Self)
        ensures
            table@ == table_of(cells_model(headers@), rows_model(rows@)),
    {
        let column_count = headers.len();
        let row_count = rows.len();
        let has_headers = headers.len() > 0;
        let column_widths = calculate_column_widths(headers.as_slice(), &rows);
        let column_alignments = determine_column_alignments(headers.as_slice(), &rows);
        let metadata = TableMetadata {
            column_count,
            row_count,
            has_headers,
            column_widths,
            column_alignments,
            title: None,
        };
        TableData { headers, rows, metadata }
    }

    /// The width of a column, and 10 for a column that the table has not.
    pub fn _get_column_width(&self, column_index: usize) -> (w: usize)
        ensures
            w == if column_index < self.metadata.column_widths@.len() {
                self.metadata.column_widths@[column_index as int]
            } else {
                10usize
            },
    {
        if column_index < self.metadata.column_widths.len() {
            self.metadata.column_widths[column_index]
        } else {
            10
        }
    }

    /// The alignment of a column, and left for a column that the table has
    /// not.
    pub fn _get_column_alignment(&self, column_index: usize) -> (a: TextAlignment)
        ensures
            a == if column_index < self.metadata.column_alignments@.len() {
                self.metadata.column_alignments@[column_index as int]
            } else {
                TextAlignment::Left
            },
    {
        if column_index < self.metadata.column_alignments.len() {
            self.metadata.column_alignments[column_index]
        } else {
            TextAlignment::Left
        }
    }
}

// ---------------------------------------------------------------------------
// From a decoded table to a typed table
// ---------------------------------------------------------------------------

/// The text of a cell after one more run: the run's text is appended,
/// after a space where the text so far is not empty and does not end in
/// white space. A run without text changes nothing.
pub open spec fn cell_text_step(acc: Seq<char>, run: RunModel) -> Seq<char> {
    let t = run_text(run);
    if t.len() == 0 {
        acc
    } else if acc.len() > 0 && !is_white_space(acc.last()) {
        acc + seq![' '] + t
    } else {
        acc + t
    }
}

/// The text of a cell after the runs `rs`, starting from `acc`.
pub open spec fn cell_text_fold(acc: Seq<char>, rs: Seq<RunModel>) -> Seq<char>
    decreases rs.len(),
{
    if rs.len() == 0 {
        acc
    } else {
        cell_text_step(cell_text_fold(acc, rs.drop_last()), rs.last())
    }
}

/// The text of the paragraphs of a cell, untrimmed.
pub open spec fn cell_raw_text(ps: Seq<ParagraphModel>) -> Seq<char>
    decreases ps.len(),
{
    if ps.len() == 0 {
        Seq::empty()
    } else {
        cell_text_fold(cell_raw_text(ps.drop_last()), ps.last().runs)
    }
}

/// The formatting after the runs `rs`, starting from `f`: each run
/// replaces the formatting until one carries a bold or an italic flag.
pub open spec fn formatting_fold(f: FormattingModel, rs: Seq<RunModel>) -> FormattingModel
    decreases rs.len(),
{
    if rs.len() == 0 {
        f
    } else {
        let before = formatting_fold(f, rs.drop_last());
        if is_emphasized(before) {
            before
        } else {
            run_formatting(rs.last())
        }
    }
}

/// The single formatting of the paragraphs of a cell.
pub open spec fn cell_formatting(ps: Seq<ParagraphModel>) -> FormattingModel
    decreases ps.len(),
{
    if ps.len() == 0 {
        plain_formatting()
    } else {
        formatting_fold(cell_formatting(ps.drop_last()), ps.last().runs)
    }
}

/// The typed cell that a decoded cell gives: its text trimmed, typed and
/// aligned by the text, with the formatting of its runs.
pub open spec fn cell_of_raw(c: RawCellModel) -> CellModel {
    CellModel {
        formatting: cell_formatting(c.paragraphs),
        ..cell_of_text(trim(cell_raw_text(c.paragraphs)))
    }
}

/// The typed cells of a decoded row.
pub open spec fn row_cells(r: RawRowModel) -> Seq<CellModel> {
    r.cells.map_values(|c: RawCellModel| cell_of_raw(c))
}

/// The texts of a row of typed cells.
pub open spec fn cell_texts(row: Seq<CellModel>) -> Seq<Seq<char>> {
    row.map_values(|c: CellModel| c.content)
}

/// Where the reading of a table stands: the header row, the data rows, and
/// whether no row with cells has come yet.
pub struct TableState {
    pub headers: Seq<CellModel>,
    pub rows: Seq<Seq<CellModel>>,
    pub first: bool,
}

/// One step of the reading. A row without cells is passed over. The first
/// row with cells becomes the header where it looks like one; every other
/// row is a data row.
pub open spec fn table_step(st: TableState, row: Seq<CellModel>) -> TableState {
    if row.len() == 0 {
        st
    } else if st.first && looks_like_header(cell_texts(row)) {
        TableState { headers: row, rows: st.rows, first: false }
    } else {
        TableState { headers: st.headers, rows: st.rows.push(row), first: false }
    }
}

/// Where the reading stands after the rows `rows`.
pub open spec fn table_fold(rows: Seq<RawRowModel>) -> TableState
    decreases rows.len(),
{
    if rows.len() == 0 {
        TableState { headers: Seq::empty(), rows: Seq::empty(), first: true }
    } else {
        table_step(table_fold(rows.drop_last()), row_cells(rows.last()))
    }
}

/// The typed table that a decoded table gives. Where no header was found
/// and there are data rows, the first data row becomes the header. A table
/// with neither header nor data rows gives nothing.
pub open spec fn inferred_table(t: RawTableModel) -> Option<TableModel> {
    let st = table_fold(t.rows);
    let promoted = st.headers.len() == 0 && st.rows.len() > 0;
    let headers = if promoted {
        st.rows[0]
    } else {
        st.headers
    };
    let rows = if promoted {
        st.rows.subrange(1, st.rows.len() as int)
    } else {
        st.rows
    };
    if headers.len() == 0 && rows.len() == 0 {
        None
    } else {
        Some(table_of(headers, rows))
    }
}

/// The rows that hold cells, typed, in their order.
pub open spec fn filled_rows(rows: Seq<RawRowModel>) -> Seq<Seq<CellModel>>
    decreases rows.len(),
{
    if rows.len() == 0 {
        Seq::empty()
    } else if rows.last().cells.len() == 0 {
        filled_rows(rows.drop_last())
    } else {
        filled_rows(rows.drop_last()).push(row_cells(rows.last()))
    }
}

/// What the reading holds is the rows with cells: the header, where one
/// was found, is the first of them and the data rows are the others; where
/// none was found, the data rows are all of them.
#[verifier::spinoff_prover]
#[verifier::rlimit(40)]
pub proof fn lemma_table_fold_keeps_filled_rows(rows: Seq<RawRowModel>)
    ensures
        ({
            let st = table_fold(rows);
            let filled = filled_rows(rows);
            &&& st.first <==> filled.len() == 0
            &&& forall|k: int| 0 <= k < filled.len() ==> (#[trigger] filled[k]).len() > 0
            &&& st.headers.len() > 0 ==> filled.len() > 0 && st.headers == filled[0] && st.rows
                == filled.subrange(1, filled.len() as int)
            &&& st.headers.len() == 0 ==> st.rows == filled
        }),
    decreases rows.len(),
{
    if rows.len() > 0 {
        lemma_table_fold_keeps_filled_rows(rows.drop_last());
        let before = table_fold(rows.drop_last());
        let filled_before = filled_rows(rows.drop_last());
        let row = row_cells(rows.last());
        let st = table_fold(rows);
        let filled = filled_rows(rows);
        assert(row.len() == rows.last().cells.len());
        if row.len() > 0 {
            assert(filled == filled_before.push(row));
            if before.first && looks_like_header(cell_texts(row)) {
                assert(filled_before.len() == 0);
                assert(before.rows =~= Seq::empty());
                assert(st.rows =~= filled.subrange(1, filled.len() as int));
            } else if before.headers.len() > 0 {
                assert(st.rows =~= filled.subrange(1, filled.len() as int));
            } else {
                assert(st.rows =~= filled);
            }
        }
    } else {
        assert(table_fold(rows).rows =~= filled_rows(rows));
    }
}

/// The header of an inferred table is the first row with cells, whatever
/// the header test says of it, and its data rows are the other rows with
/// cells. A table is dropped exactly when none of its rows holds a cell.
pub proof fn lemma_inferred_table_is_filled_rows(t: RawTableModel)
    ensures
        ({
            let filled = filled_rows(t.rows);
            inferred_table(t) == if filled.len() == 0 {
                None
            } else {
                Some(table_of(filled[0], filled.subrange(1, filled.len() as int)))
            }
        }),
{
    lemma_table_fold_keeps_filled_rows(t.rows);
    let st = table_fold(t.rows);
    let filled = filled_rows(t.rows);
    if st.headers.len() == 0 && st.rows.len() > 0 {
        assert(filled[0].len() > 0);
    }
}

/// An inferred table has a header cell for every column, a width and an
/// alignment for each, and at least one header cell.
pub proof fn lemma_inferred_table_shape(t: RawTableModel)
    requires
        inferred_table(t) is Some,
    ensures
        ({
            let table = inferred_table(t)->0;
            &&& table.headers.len() > 0
            &&& table.metadata.has_headers
            &&& table.metadata.column_widths.len() == table.headers.len()
            &&& table.metadata.column_alignments.len() == table.headers.len()
            &&& forall|c: int|
                0 <= c < table.headers.len() ==> (#[trigger] table.metadata.column_widths[c])
                    == column_width(table.headers, table.rows, c) as usize
        }),
{
    lemma_inferred_table_is_filled_rows(t);
    lemma_table_fold_keeps_filled_rows(t.rows);
}

fn push_cell_run_text(acc: &mut Vec<char>, run: &Run)
    ensures
        final(acc)@ == cell_text_step(old(acc)@, run@),
{
    let t = extract_run_text(run);
    if t.len() > 0 {
        if acc.len() > 0 && !char_is_white_space(acc[acc.len() - 1]) {
            acc.push(' ');
        }
        append_chars(acc, t.as_slice());
        assert(acc@ =~= cell_text_step(old(acc)@, run@));
    }
}

/// The typed cell that the decoded cell `cell` gives.
#[verifier::spinoff_prover]
#[verifier::rlimit(40)]
pub fn extract_cell(cell: &RawCell) -> (out: TableCell)
    ensures
        out@ == cell_of_raw(cell@),
{
    let ghost ps = cell@.paragraphs;
    let mut text: Vec<char> = Vec::new();
    let mut formatting = TextFormatting::default();
    let mut p: usize = 0;
    while p < cell.paragraphs.len()
        invariant
            p <= cell.paragraphs.len(),
            ps == cell@.paragraphs,
            text@ == cell_raw_text(ps.take(p as int)),
            formatting@ == cell_formatting(ps.take(p as int)),
        decreases cell.paragraphs.len() - p,
    {
        let para = &cell.paragraphs[p];
        let ghost rs = para@.runs;
        let ghost text0 = text@;
        let ghost formatting0 = formatting@;
        let mut r: usize = 0;
        while r < para.runs.len()
            invariant
                r <= para.runs.len(),
                rs == para@.runs,
                text@ == cell_text_fold(text0, rs.take(r as int)),
                formatting@ == formatting_fold(formatting0, rs.take(r as int)),
            decreases para.runs.len() - r,
        {
            proof {
                let now = rs.take(r + 1);
                assert(now.drop_last() == rs.take(r as int));
                assert(now.last() == para.runs@[r as int]@);
            }
            let run = &para.runs[r];
            if !formatting.bold && !formatting.italic {
                formatting = extract_run_formatting(run);
            }
            push_cell_run_text(&mut text, run);
            r += 1;
        }
        proof {
            assert(rs.take(para.runs.len() as int) == rs);
            let now = ps.take(p + 1);
            assert(now.drop_last() == ps.take(p as int));
            assert(now.last() == cell.paragraphs@[p as int]@);
        }
        p += 1;
    }
    assert(ps.take(cell.paragraphs.len() as int) == ps);
    let content = trimmed(text.as_slice());
    TableCell::new(string_of(content.as_slice())).with_formatting(formatting)
}

/// The typed cells of the decoded row `row`.
pub fn extract_row(row: &RawRow) -> (out: Vec<TableCell>)
    ensures
        cells_model(out@) == row_cells(row@),
{
    let mut out: Vec<TableCell> = Vec::new();
    let mut i: usize = 0;
    while i < row.cells.len()
        invariant
            i <= row.cells.len(),
            out@.len() == i,
            forall|k: int| 0 <= k < i ==> (#[trigger] out@[k])@ == cell_of_raw(row.cells@[k]@),
        decreases row.cells.len() - i,
    {
        let cell = extract_cell(&row.cells[i]);
        out.push(cell);
        i += 1;
    }
    assert(cells_model(out@) =~= row_cells(row@));
    out
}

fn texts_of_cells(cells: &Vec<TableCell>) -> (out: Vec<String>)
    ensures
        texts_model(out@) == cell_texts(cells_model(cells@)),
{
    let mut out: Vec<String> = Vec::new();
    let mut i: usize = 0;
    while i < cells.len()
        invariant
            i <= cells.len(),
            out@.len() == i,
            forall|k: int| 0 <= k < i ==> (#[trigger] out@[k])@ == cells@[k].content@,
        decreases cells.len() - i,
    {
        out.push(cells[i].content.clone());
        i += 1;
    }
    assert(texts_model(out@) =~= cell_texts(cells_model(cells@)));
    out
}

/// The table element that the decoded table `table` gives, and nothing
/// for a table none of whose rows holds a cell.
#[verifier::spinoff_prover]
#[verifier::rlimit(40)]
pub fn extract_table_data(table: &RawTable) -> (r: Option<DocumentElement>)
    ensures
        match r {
            Some(e) => inferred_table(table@) matches Some(t) && e@ == (ElementModel::Table {
                table: t,
            }),
            None => inferred_table(table@) is None,
        },
{
    let ghost raw = table@.rows;
    let mut header_cells: Vec<TableCell> = Vec::new();
    let mut data_rows: Vec<Vec<TableCell>> = Vec::new();
    let mut is_first_row: bool = true;
    proof {
        assert(cells_model(header_cells@) =~= Seq::empty());
        assert(rows_model(data_rows@) =~= Seq::empty());
    }
    let mut i: usize = 0;
    while i < table.rows.len()
        invariant
            i <= table.rows.len(),
            raw == table@.rows,
            table_fold(raw.take(i as int)) == (TableState {
                headers: cells_model(header_cells@),
                rows: rows_model(data_rows@),
                first: is_first_row,
            }),
        decreases table.rows.len() - i,
    {
        proof {
            let now = raw.take(i + 1);
            assert(now.drop_last() == raw.take(i as int));
            assert(now.last() == table.rows@[i as int]@);
        }
        let ghost st = table_fold(raw.take(i as int));
        let row_cells_now = extract_row(&table.rows[i]);
        let ghost target = table_step(st, cells_model(row_cells_now@));
        if row_cells_now.len() > 0 {
            let raw_text = texts_of_cells(&row_cells_now);
            if is_first_row && appears_to_be_header(raw_text.as_slice()) {
                header_cells = row_cells_now;
            } else {
                let ghost before = rows_model(data_rows@);
                data_rows.push(row_cells_now);
                assert(rows_model(data_rows@) =~= before.push(cells_model(row_cells_now@)));
            }
            is_first_row = false;
        }
        assert(cells_model(header_cells@) =~= target.headers);
        assert(rows_model(data_rows@) =~= target.rows);
        i += 1;
    }
    assert(raw.take(table.rows.len() as int) == raw);
    if header_cells.len() == 0 && data_rows.len() > 0 {
        let ghost before = rows_model(data_rows@);
        header_cells = data_rows.remove(0);
        assert(rows_model(data_rows@) =~= before.subrange(1, before.len() as int));
    }
    if header_cells.len() > 0 || data_rows.len() > 0 {
        let table_data = TableData::new(header_cells, data_rows);
        Some(DocumentElement::Table { table: table_data })
    } else {
        None
    }
}

} // verus!
