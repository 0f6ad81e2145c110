//! The texts that the exporters write: plain text, Markdown and CSV.
//!
//! Every function here builds a text and hands it back; writing it out is
//! the caller's part.

use vstd::prelude::*;
use crate::model::{
    cells_model, items_model, opt_text, rows_model, CellModel, Document, DocumentElement,
    DocumentModel, ElementModel, ListItem, ListItemModel, TableCell, TableData, TableModel,
    TextAlignment, TextFormatting,
};
use crate::scan::{
    byte_len, byte_len_of, contains_char, decimal, has_char, push_decimal, utf8_len,
};
use crate::text::{append_chars, chars_of, string_of, trim, trimmed};

pub use crate::citations::{extract_bibliography, extract_citations, Citation, CitationType};

verus! {

/// The output formats.
#[derive(Debug, Clone, Copy, PartialEq, Eq, Structural)]
pub enum ExportFormat {
    Markdown,
    Text,
    Csv,
    Json,
}

/// The width that is taken for a column without a recorded width.
pub const FALLBACK_COLUMN_WIDTH: usize = 10;

/// The length of the rules that part the sections of the plain export.
pub const RULE_LEN: usize = 50;

// ---------------------------------------------------------------------------
// Building blocks
// ---------------------------------------------------------------------------

/// The text `s`, `n` times over.
pub open spec fn repeated(s: Seq<char>, n: nat) -> Seq<char>
    decreases n,
{
    if n == 0 {
        Seq::empty()
    } else {
        repeated(s, (n - 1) as nat) + s
    }
}

/// `n` spaces.
pub open spec fn spaces(n: nat) -> Seq<char> {
    repeated(seq![' '], n)
}

/// The first `n` of the texts `parts`, with `sep` between them.
pub open spec fn joined_before(parts: Seq<Seq<char>>, sep: Seq<char>, n: int) -> Seq<char>
    decreases n,
{
    if n <= 0 {
        Seq::empty()
    } else if n == 1 {
        parts[0]
    } else {
        joined_before(parts, sep, n - 1) + sep + parts[n - 1]
    }
}

/// The texts `parts` with `sep` between them.
pub open spec fn joined(parts: Seq<Seq<char>>, sep: Seq<char>) -> Seq<char> {
    joined_before(parts, sep, parts.len() as int)
}

/// Repeating once more appends the text once more.
pub proof fn lemma_repeated_add(s: Seq<char>, a: nat, b: nat)
    ensures
        repeated(s, a + b) == repeated(s, a) + repeated(s, b),
    decreases b,
{
    if b == 0 {
        assert(repeated(s, a) + repeated(s, 0) =~= repeated(s, a));
    } else {
        lemma_repeated_add(s, a, (b - 1) as nat);
        assert(repeated(s, a + b) == repeated(s, (a + b - 1) as nat) + s);
        assert(repeated(s, a) + (repeated(s, (b - 1) as nat) + s) =~= (repeated(s, a) + repeated(
            s,
            (b - 1) as nat,
        )) + s);
    }
}

/// Appends the text `s` to `buf`.
pub fn push_text(buf: &mut Vec<char>, s: &str)
    ensures
        final(buf)@ == old(buf)@ + s@,
{
    let cs = chars_of(s);
    append_chars(buf, cs.as_slice());
}

/// Appends the text `s`, `n` times over, to `buf`.
pub fn push_repeated(buf: &mut Vec<char>, s: &[char], n: usize)
    ensures
        final(buf)@ == old(buf)@ + repeated(s@, n as nat),
{
    let mut i: usize = 0;
    assert(buf@ =~= old(buf)@ + repeated(s@, 0));
    while i < n
        invariant
            i <= n,
            buf@ == old(buf)@ + repeated(s@, i as nat),
        decreases n - i,
    {
        append_chars(buf, s);
        assert(buf@ =~= old(buf)@ + repeated(s@, (i + 1) as nat));
        i += 1;
    }
}

/// Appends `n` spaces to `buf`.
pub fn push_spaces(buf: &mut Vec<char>, n: usize)
    ensures
        final(buf)@ == old(buf)@ + spaces(n as nat),
{
    let mut one: Vec<char> = Vec::new();
    one.push(' ');
    assert(one@ =~= seq![' ']);
    push_repeated(buf, one.as_slice(), n);
}

// ---------------------------------------------------------------------------
// CSV
// ---------------------------------------------------------------------------

/// `s` with every `"` written twice.
pub open spec fn doubled_quotes(s: Seq<char>) -> Seq<char>
    decreases s.len(),
{
    if s.len() == 0 {
        Seq::empty()
    } else if s.last() == '"' {
        doubled_quotes(s.drop_last()) + seq!['"', '"']
    } else {
        doubled_quotes(s.drop_last()).push(s.last())
    }
}

/// Whether a field has to be quoted: it holds a comma, a `"` or a newline.
pub open spec fn needs_quotes(field: Seq<char>) -> bool {
    contains_char(field, ',') || contains_char(field, '"') || contains_char(field, '\n')
}

/// A field as CSV has it: as it is, or, where it needs quotes, between
/// `"` with every `"` inside written twice.
pub open spec fn csv_field(field: Seq<char>) -> Seq<char> {
    if needs_quotes(field) {
        seq!['"'] + doubled_quotes(field) + seq!['"']
    } else {
        field
    }
}

fn push_csv_field(buf: &mut Vec<char>, field: &[char])
    ensures
        final(buf)@ == old(buf)@ + csv_field(field@),
{
    if has_char(field, ',') || has_char(field, '"') || has_char(field, '\n') {
        buf.push('"');
        let ghost base = buf@;
        let mut i: usize = 0;
        assert(buf@ =~= base + doubled_quotes(field@.take(0)));
        while i < field.len()
            invariant
                i <= field.len(),
                buf@ == base + doubled_quotes(field@.take(i as int)),
            decreases field.len() - i,
        {
            proof {
                let now = field@.take(i + 1);
                assert(now.drop_last() == field@.take(i as int));
                assert(now.last() == field@[i as int]);
            }
            if field[i] == '"' {
                buf.push('"');
                buf.push('"');
            } else {
                buf.push(field[i]);
            }
            assert(buf@ =~= base + doubled_quotes(field@.take(i + 1)));
            i += 1;
        }
        assert(field@.take(field.len() as int) == field@);
        buf.push('"');
        assert(buf@ =~= old(buf)@ + csv_field(field@));
    } else {
        append_chars(buf, field);
    }
}

/// A field as CSV has it.
pub fn escape_csv_field(field: &str) -> (out: String)
    ensures
        out@ == csv_field(field@),
{
    let cs = chars_of(field);
    let mut buf: Vec<char> = Vec::new();
    push_csv_field(&mut buf, cs.as_slice());
    assert(buf@ =~= csv_field(field@));
    string_of(buf.as_slice())
}

/// The first `n` cells of a row as one line of CSV.
pub open spec fn csv_line_before(cells: Seq<CellModel>, n: int) -> Seq<char>
    decreases n,
{
    if n <= 0 {
        Seq::empty()
    } else if n == 1 {
        csv_field(cells[0].content)
    } else {
        csv_line_before(cells, n - 1) + seq![','] + csv_field(cells[n - 1].content)
    }
}

/// A row of cells as one line of CSV.
pub open spec fn csv_line(cells: Seq<CellModel>) -> Seq<char> {
    csv_line_before(cells, cells.len() as int)
}

/// The lines of CSV for the rows before index `n`.
pub open spec fn csv_rows_before(rows: Seq<Seq<CellModel>>, n: int) -> Seq<Seq<char>>
    decreases n,
{
    if n <= 0 {
        Seq::empty()
    } else {
        csv_rows_before(rows, n - 1).push(csv_line(rows[n - 1]))
    }
}

/// The comment that names a table.
pub open spec fn csv_comment(text: Seq<char>) -> Seq<char> {
    seq!['#', ' '] + text
}

/// The lines of CSV for the table at index `index` of the document: for
/// every table but one at index 0 an empty line and a comment with the
/// index plus one; a comment with the title where there is one; the
/// header; and the rows.
pub open spec fn csv_table_lines(index: int, table: TableModel) -> Seq<Seq<char>> {
    let lead = if index > 0 {
        seq![Seq::<char>::empty(), csv_comment("Table "@ + decimal((index + 1) as nat))]
    } else {
        Seq::empty()
    };
    let title = match table.metadata.title {
        Some(t) => seq![csv_comment(t)],
        None => Seq::empty(),
    };
    lead + title + seq![csv_line(table.headers)] + csv_rows_before(
        table.rows,
        table.rows.len() as int,
    )
}

/// The lines of CSV for the tables among the elements before index `n`.
pub open spec fn csv_lines_before(elements: Seq<ElementModel>, n: int) -> Seq<Seq<char>>
    decreases n,
{
    if n <= 0 {
        Seq::empty()
    } else {
        match elements[n - 1] {
            ElementModel::Table { table } => csv_lines_before(elements, n - 1) + csv_table_lines(
                n - 1,
                table,
            ),
            _ => csv_lines_before(elements, n - 1),
        }
    }
}

/// The views of a sequence of lines.
pub open spec fn lines_model(lines: Seq<String>) -> Seq<Seq<char>> {
    lines.map_values(|l: String| l@)
}

fn csv_line_of(cells: &Vec<TableCell>) -> (out: String)
    ensures
        out@ == csv_line(cells_model(cells@)),
{
    let ghost model = cells_model(cells@);
    let mut buf: Vec<char> = Vec::new();
    let mut i: usize = 0;
    assert(buf@ =~= csv_line_before(model, 0));
    while i < cells.len()
        invariant
            i <= cells.len(),
            model == cells_model(cells@),
            buf@ == csv_line_before(model, i as int),
        decreases cells.len() - i,
    {
        if i > 0 {
            buf.push(',');
        }
        let content = chars_of(cells[i].content.as_str());
        push_csv_field(&mut buf, content.as_slice());
        assert(model[i as int].content == cells@[i as int].content@);
        proof {
            if i == 0 {
                assert(buf@ =~= csv_field(model[0].content));
            } else {
                assert(buf@ =~= csv_line_before(model, i as int) + seq![','] + csv_field(
                    model[i as int].content,
                ));
            }
        }
        i += 1;
    }
    string_of(buf.as_slice())
}

/// The lines of CSV that the tables of the document make. A document
/// without tables gives no line.
#[verifier::spinoff_prover]
#[verifier::rlimit(40)]
pub fn csv_lines(document: &Document) -> (lines: Vec<String>)
    ensures
        lines_model(lines@) == csv_lines_before(
            document@.elements,
            document@.elements.len() as int,
        ),
{
    let ghost elements = document@.elements;
    let mut lines: Vec<String> = Vec::new();
    assert(lines_model(lines@) =~= csv_lines_before(elements, 0));
    let mut i: usize = 0;
    while i < document.elements.len()
        invariant
            i <= document.elements.len(),
            elements == document@.elements,
            lines_model(lines@) == csv_lines_before(elements, i as int),
        decreases document.elements.len() - i,
    {
        assert(elements[i as int] == document.elements@[i as int]@);
        if let DocumentElement::Table { table } = &document.elements[i] {
            let ghost model = table@;
            let ghost base = lines_model(lines@);
            if i > 0 {
                lines.push(String::new());
                let mut comment: Vec<char> = Vec::new();
                push_text(&mut comment, "# Table ");
                push_decimal(&mut comment, (i as u64) + 1);
                proof {
                    reveal_strlit("# Table ");
                    reveal_strlit("Table ");
                    assert(comment@ =~= csv_comment("Table "@ + decimal((i + 1) as nat)));
                }
                lines.push(string_of(comment.as_slice()));
            }
            if let Some(title) = &table.metadata.title {
                let mut comment: Vec<char> = Vec::new();
                comment.push('#');
                comment.push(' ');
                push_text(&mut comment, title.as_str());
                assert(comment@ =~= csv_comment(title@));
                lines.push(string_of(comment.as_slice()));
            }
            lines.push(csv_line_of(&table.headers));
            let ghost lead = lines_model(lines@);
            assert(lead =~= base + (if i > 0 {
                seq![Seq::<char>::empty(), csv_comment("Table "@ + decimal((i + 1) as nat))]
            } else {
                Seq::empty()
            }) + (match model.metadata.title {
                Some(t) => seq![csv_comment(t)],
                None => Seq::empty(),
            }) + seq![csv_line(model.headers)]);
            let mut r: usize = 0;
            assert(lines_model(lines@) =~= lead + csv_rows_before(model.rows, 0));
            while r < table.rows.len()
                invariant
                    r <= table.rows.len(),
                    model == table@,
                    lines_model(lines@) == lead + csv_rows_before(model.rows, r as int),
                decreases table.rows.len() - r,
            {
                assert(model.rows[r as int] == cells_model(table.rows@[r as int]@));
                let ghost before = lines_model(lines@);
                let line = csv_line_of(&table.rows[r]);
                lines.push(line);
                assert(lines_model(lines@) =~= before.push(line@));
                assert(lines_model(lines@) =~= lead + csv_rows_before(model.rows, r + 1));
                r += 1;
            }
            assert(lines_model(lines@) =~= base + csv_table_lines(i as int, model));
        }
        i += 1;
    }
    lines
}

// ---------------------------------------------------------------------------
// Tables drawn with lines
// ---------------------------------------------------------------------------

/// How much is missing from `have` to `width`.
pub open spec fn padding(width: nat, have: nat) -> nat {
    if width > have {
        (width - have) as nat
    } else {
        0
    }
}

/// The text of a cell, trimmed and padded with spaces to `width`
/// characters: on the right for left and justified cells, on the left for
/// right cells. A centred cell is padded on both sides, the smaller half
/// on the left, by what its length in bytes leaves of `width`.
pub open spec fn aligned_cell(content: Seq<char>, alignment: TextAlignment, width: nat) -> Seq<
    char,
> {
    let t = trim(content);
    match alignment {
        TextAlignment::Right => spaces(padding(width, t.len())) + t,
        TextAlignment::Center => {
            let pad = padding(width, utf8_len(t));
            spaces(pad / 2) + t + spaces((pad - pad / 2) as nat)
        },
        _ => t + spaces(padding(width, t.len())),
    }
}

/// The part of a border for the columns before index `n`: for each column
/// the fill, two more than the column is wide, and the middle piece after
/// every column but the last.
pub open spec fn border_before(widths: Seq<usize>, middle: Seq<char>, fill: Seq<char>, n: int) -> Seq<
    char,
>
    decreases n,
{
    if n <= 0 {
        Seq::empty()
    } else {
        border_before(widths, middle, fill, n - 1) + repeated(fill, (widths[n - 1] + 2) as nat)
            + if n < widths.len() {
            middle
        } else {
            Seq::empty()
        }
    }
}

/// A border of a table.
pub open spec fn table_border(
    widths: Seq<usize>,
    left: Seq<char>,
    middle: Seq<char>,
    right: Seq<char>,
    fill: Seq<char>,
) -> Seq<char> {
    left + border_before(widths, middle, fill, widths.len() as int) + right
}

/// The width of column `i`, and `FALLBACK_COLUMN_WIDTH` for a column
/// without a recorded width.
pub open spec fn width_at(widths: Seq<usize>, i: int) -> nat {
    if 0 <= i < widths.len() {
        widths[i] as nat
    } else {
        FALLBACK_COLUMN_WIDTH as nat
    }
}

/// The part of a row for the cells before index `n`.
pub open spec fn row_before(cells: Seq<CellModel>, widths: Seq<usize>, n: int) -> Seq<char>
    decreases n,
{
    if n <= 0 {
        seq!['│']
    } else {
        row_before(cells, widths, n - 1) + seq![' '] + aligned_cell(
            cells[n - 1].content,
            cells[n - 1].alignment,
            width_at(widths, n - 1),
        ) + seq![' ', '│']
    }
}

/// A row of a table: a bar, and for each cell a space, the cell aligned
/// to the width of its column, a space and a bar.
pub open spec fn table_row(cells: Seq<CellModel>, widths: Seq<usize>) -> Seq<char> {
    row_before(cells, widths, cells.len() as int)
}

pub(crate) fn push_aligned(buf: &mut Vec<char>, content: &[char], alignment: TextAlignment, width: usize)
    ensures
        final(buf)@ == old(buf)@ + aligned_cell(content@, alignment, width as nat),
{
    let t = trimmed(content);
    let t = t.as_slice();
    match alignment {
        TextAlignment::Right => {
            let pad: usize = if width > t.len() {
                width - t.len()
            } else {
                0
            };
            push_spaces(buf, pad);
            append_chars(buf, t);
            assert(buf@ =~= old(buf)@ + aligned_cell(content@, alignment, width as nat));
        },
        TextAlignment::Center => {
            let len = byte_len_of(t);
            let pad: usize = if (width as u128) > len {
                ((width as u128) - len) as usize
            } else {
                0
            };
            let left: usize = pad / 2;
            push_spaces(buf, left);
            append_chars(buf, t);
            push_spaces(buf, pad - left);
            assert(buf@ =~= old(buf)@ + aligned_cell(content@, alignment, width as nat));
        },
        _ => {
            let pad: usize = if width > t.len() {
                width - t.len()
            } else {
                0
            };
            append_chars(buf, t);
            push_spaces(buf, pad);
            assert(buf@ =~= old(buf)@ + aligned_cell(content@, alignment, width as nat));
        },
    }
}

/// The text of a cell, trimmed and padded to `width`.
pub fn align_text_cell_content(content: &str, alignment: TextAlignment, width: usize) -> (out:
    String)
    ensures
        out@ == aligned_cell(content@, alignment, width as nat),
{
    let cs = chars_of(content);
    let mut buf: Vec<char> = Vec::new();
    push_aligned(&mut buf, cs.as_slice(), alignment, width);
    assert(buf@ =~= aligned_cell(content@, alignment, width as nat));
    string_of(buf.as_slice())
}

pub(crate) fn push_border(
    buf: &mut Vec<char>,
    widths: &[usize],
    left: &[char],
    middle: &[char],
    right: &[char],
    fill: &[char],
)
    ensures
        final(buf)@ == old(buf)@ + table_border(widths@, left@, middle@, right@, fill@),
{
    append_chars(buf, left);
    let ghost base = buf@;
    let mut i: usize = 0;
    assert(buf@ =~= base + border_before(widths@, middle@, fill@, 0));
    while i < widths.len()
        invariant
            i <= widths.len(),
            buf@ == base + border_before(widths@, middle@, fill@, i as int),
        decreases widths.len() - i,
    {
        let ghost before = buf@;
        push_repeated(buf, fill, widths[i]);
        push_repeated(buf, fill, 2);
        proof {
            lemma_repeated_add(fill@, widths@[i as int] as nat, 2);
            assert(buf@ =~= before + repeated(fill@, (widths@[i as int] + 2) as nat));
        }
        if i + 1 < widths.len() {
            append_chars(buf, middle);
        }
        assert(buf@ =~= base + border_before(widths@, middle@, fill@, i + 1));
        i += 1;
    }
    append_chars(buf, right);
    assert(buf@ =~= old(buf)@ + table_border(widths@, left@, middle@, right@, fill@));
}

/// A border of a table: the left piece, the fill for each column with the
/// middle piece between the columns, and the right piece.
pub fn generate_text_table_border(
    column_widths: &[usize],
    left: &str,
    middle: &str,
    right: &str,
    fill: &str,
) -> (out: String)
    ensures
        out@ == table_border(column_widths@, left@, middle@, right@, fill@),
{
    let l = chars_of(left);
    let m = chars_of(middle);
    let r = chars_of(right);
    let f = chars_of(fill);
    let mut buf: Vec<char> = Vec::new();
    push_border(&mut buf, column_widths, l.as_slice(), m.as_slice(), r.as_slice(), f.as_slice());
    assert(buf@ =~= table_border(column_widths@, left@, middle@, right@, fill@));
    string_of(buf.as_slice())
}

pub(crate) fn push_row(buf: &mut Vec<char>, cells: &Vec<TableCell>, widths: &[usize])
    ensures
        final(buf)@ == old(buf)@ + table_row(cells_model(cells@), widths@),
{
    let ghost model = cells_model(cells@);
    buf.push('│');
    let mut i: usize = 0;
    assert(buf@ =~= old(buf)@ + row_before(model, widths@, 0));
    while i < cells.len()
        invariant
            i <= cells.len(),
            model == cells_model(cells@),
            buf@ == old(buf)@ + row_before(model, widths@, i as int),
        decreases cells.len() - i,
    {
        let width: usize = if i < widths.len() {
            widths[i]
        } else {
            FALLBACK_COLUMN_WIDTH
        };
        let ghost before = buf@;
        buf.push(' ');
        let content = chars_of(cells[i].content.as_str());
        push_aligned(buf, content.as_slice(), cells[i].alignment, width);
        buf.push(' ');
        buf.push('│');
        proof {
            assert(model[i as int] == cells@[i as int]@);
            assert(buf@ =~= before + seq![' '] + aligned_cell(
                model[i as int].content,
                model[i as int].alignment,
                width_at(widths@, i as int),
            ) + seq![' ', '│']);
        }
        i += 1;
    }
}

/// A row of a table.
pub fn render_text_table_row(cells: &Vec<TableCell>, column_widths: &[usize], _is_header: bool) -> (out:
    String)
    ensures
        out@ == table_row(cells_model(cells@), column_widths@),
{
    let mut buf: Vec<char> = Vec::new();
    push_row(&mut buf, cells, column_widths);
    assert(buf@ =~= table_row(cells_model(cells@), column_widths@));
    string_of(buf.as_slice())
}

// ---------------------------------------------------------------------------
// Plain text with drawn tables
// ---------------------------------------------------------------------------

/// A line with a rule below it as long as the line is in bytes, and an
/// empty line.
pub open spec fn underlined(text: Seq<char>, mark: char) -> Seq<char> {
    text + seq!['\n'] + repeated(seq![mark], utf8_len(text)) + seq!['\n', '\n']
}

/// The mark that underlines a heading: `=` for level 1, `-` for level 2,
/// `~` below.
pub open spec fn heading_mark(level: u8) -> char {
    if level == 1 {
        '='
    } else if level == 2 {
        '-'
    } else {
        '~'
    }
}

/// The lines of the items before index `n`: each indented by two spaces
/// for each level, with its number and `. ` in an ordered list and the
/// bullet in another.
pub open spec fn items_text_before(
    items: Seq<ListItemModel>,
    ordered: bool,
    bullet: Seq<char>,
    n: int,
) -> Seq<char>
    decreases n,
{
    if n <= 0 {
        Seq::empty()
    } else {
        items_text_before(items, ordered, bullet, n - 1) + spaces((2 * items[n - 1].level) as nat)
            + (if ordered {
            decimal(n as nat) + seq!['.', ' ']
        } else {
            bullet
        }) + items[n - 1].text + seq!['\n']
    }
}

/// The lines of the rows before index `n`, each ending in a newline.
pub open spec fn rows_text_before(rows: Seq<Seq<CellModel>>, widths: Seq<usize>, n: int) -> Seq<
    char,
>
    decreases n,
{
    if n <= 0 {
        Seq::empty()
    } else {
        rows_text_before(rows, widths, n - 1) + table_row(rows[n - 1], widths) + seq!['\n']
    }
}

/// A table drawn with lines: its title underlined, where it has one; the
/// top border; the header; the separator; the rows; the bottom border; and
/// an empty line.
pub open spec fn drawn_table(table: TableModel) -> Seq<char> {
    let widths = table.metadata.column_widths;
    let title = match table.metadata.title {
        Some(t) => underlined(t, '='),
        None => Seq::empty(),
    };
    title + table_border(widths, seq!['┌'], seq!['┬'], seq!['┐'], seq!['─']) + seq!['\n']
        + table_row(table.headers, widths) + seq!['\n'] + table_border(
        widths,
        seq!['├'],
        seq!['┼'],
        seq!['┤'],
        seq!['─'],
    ) + seq!['\n'] + rows_text_before(table.rows, widths, table.rows.len() as int) + table_border(
        widths,
        seq!['└'],
        seq!['┴'],
        seq!['┘'],
        seq!['─'],
    ) + seq!['\n', '\n']
}

/// The words that stand for an image.
pub open spec fn image_note(description: Seq<char>) -> Seq<char> {
    "[Image: "@ + description + seq![']', '\n', '\n']
}

/// One element as plain text.
pub open spec fn element_text(e: ElementModel) -> Seq<char> {
    match e {
        ElementModel::Heading { level, text, .. } => underlined(text, heading_mark(level)),
        ElementModel::Paragraph { text, .. } => text + seq!['\n', '\n'],
        ElementModel::List { items, ordered } => items_text_before(
            items,
            ordered,
            seq!['*', ' '],
            items.len() as int,
        ) + seq!['\n'],
        ElementModel::Table { table } => drawn_table(table),
        ElementModel::Image { description, .. } => image_note(description),
        ElementModel::PageBreak => seq!['-', '-', '-', '\n', '\n'],
    }
}

/// The elements before index `n` as plain text.
pub open spec fn elements_text_before(elements: Seq<ElementModel>, n: int) -> Seq<char>
    decreases n,
{
    if n <= 0 {
        Seq::empty()
    } else {
        elements_text_before(elements, n - 1) + element_text(elements[n - 1])
    }
}

/// The document as plain text: the title underlined, then the elements.
pub open spec fn document_text(doc: DocumentModel) -> Seq<char> {
    underlined(doc.title, '=') + elements_text_before(doc.elements, doc.elements.len() as int)
}

fn push_underlined(buf: &mut Vec<char>, text: &str, mark: char)
    ensures
        final(buf)@ == old(buf)@ + underlined(text@, mark),
{
    push_text(buf, text);
    buf.push('\n');
    let mut one: Vec<char> = Vec::new();
    one.push(mark);
    assert(one@ =~= seq![mark]);
    push_repeated(buf, one.as_slice(), byte_len(text));
    buf.push('\n');
    buf.push('\n');
    assert(buf@ =~= old(buf)@ + underlined(text@, mark));
}

pub(crate) fn push_items(buf: &mut Vec<char>, items: &Vec<ListItem>, ordered: bool, bullet: &[char])
    ensures
        final(buf)@ == old(buf)@ + items_text_before(
            items_model(items@),
            ordered,
            bullet@,
            items@.len() as int,
        ),
{
    let ghost model = items_model(items@);
    let mut i: usize = 0;
    assert(buf@ =~= old(buf)@ + items_text_before(model, ordered, bullet@, 0));
    while i < items.len()
        invariant
            i <= items.len(),
            model == items_model(items@),
            buf@ == old(buf)@ + items_text_before(model, ordered, bullet@, i as int),
        decreases items.len() - i,
    {
        let item = &items[i];
        assert(model[i as int] == item@);
        push_spaces(buf, 2 * (item.level as usize));
        let ghost indented = buf@;
        if ordered {
            push_decimal(buf, (i as u64) + 1);
            buf.push('.');
            buf.push(' ');
            assert(buf@ =~= indented + (decimal((i + 1) as nat) + seq!['.', ' ']));
        } else {
            append_chars(buf, bullet);
        }
        push_text(buf, item.text.as_str());
        buf.push('\n');
        assert(buf@ =~= old(buf)@ + items_text_before(model, ordered, bullet@, i + 1));
        i += 1;
    }
}

pub(crate) fn push_box_border(buf: &mut Vec<char>, widths: &[usize], left: char, middle: char, right: char)
    ensures
        final(buf)@ == old(buf)@ + table_border(
            widths@,
            seq![left],
            seq![middle],
            seq![right],
            seq!['─'],
        ),
{
    let mut l: Vec<char> = Vec::new();
    l.push(left);
    let mut m: Vec<char> = Vec::new();
    m.push(middle);
    let mut r: Vec<char> = Vec::new();
    r.push(right);
    let mut f: Vec<char> = Vec::new();
    f.push('─');
    assert(l@ =~= seq![left]);
    assert(m@ =~= seq![middle]);
    assert(r@ =~= seq![right]);
    assert(f@ =~= seq!['─']);
    push_border(buf, widths, l.as_slice(), m.as_slice(), r.as_slice(), f.as_slice());
}

#[verifier::spinoff_prover]

#[verifier::rlimit(40)]

fn push_drawn_table(buf: &mut Vec<char>, table: &TableData)
    ensures
        final(buf)@ == old(buf)@ + drawn_table(table@),
{
    let ghost model = table@;
    let widths = table.metadata.column_widths.as_slice();
    if let Some(title) = &table.metadata.title {
        push_underlined(buf, title.as_str(), '=');
    }
    let ghost titled = buf@;
    assert(titled =~= old(buf)@ + match model.metadata.title {
        Some(t) => underlined(t, '='),
        None => Seq::empty(),
    });
    push_box_border(buf, widths, '┌', '┬', '┐');
    buf.push('\n');
    push_row(buf, &table.headers, widths);
    buf.push('\n');
    push_box_border(buf, widths, '├', '┼', '┤');
    buf.push('\n');
    let ghost head = buf@;
    let mut r: usize = 0;
    assert(buf@ =~= head + rows_text_before(model.rows, widths@, 0));
    while r < table.rows.len()
        invariant
            r <= table.rows.len(),
            model == table@,
            widths@ == table.metadata.column_widths@,
            buf@ == head + rows_text_before(model.rows, widths@, r as int),
        decreases table.rows.len() - r,
    {
        assert(model.rows[r as int] == cells_model(table.rows@[r as int]@));
        push_row(buf, &table.rows[r], widths);
        buf.push('\n');
        assert(buf@ =~= head + rows_text_before(model.rows, widths@, r + 1));
        r += 1;
    }
    push_box_border(buf, widths, '└', '┴', '┘');
    buf.push('\n');
    buf.push('\n');
    assert(buf@ =~= old(buf)@ + drawn_table(model));
}

fn push_element_text(buf: &mut Vec<char>, element: &DocumentElement)
    ensures
        final(buf)@ == old(buf)@ + element_text(element@),
{
    match element {
        DocumentElement::Heading { level, text, .. } => {
            let mark = if *level == 1 {
                '='
            } else if *level == 2 {
                '-'
            } else {
                '~'
            };
            push_underlined(buf, text.as_str(), mark);
        },
        DocumentElement::Paragraph { text, .. } => {
            push_text(buf, text.as_str());
            buf.push('\n');
            buf.push('\n');
            assert(buf@ =~= old(buf)@ + (text@ + seq!['\n', '\n']));
        },
        DocumentElement::List { items, ordered } => {
            let mut bullet: Vec<char> = Vec::new();
            bullet.push('*');
            bullet.push(' ');
            assert(bullet@ =~= seq!['*', ' ']);
            push_items(buf, items, *ordered, bullet.as_slice());
            buf.push('\n');
            assert(buf@ =~= old(buf)@ + element_text(element@));
        },
        DocumentElement::Table { table } => {
            push_drawn_table(buf, table);
        },
        DocumentElement::Image { description, .. } => {
            push_text(buf, "[Image: ");
            push_text(buf, description.as_str());
            buf.push(']');
            buf.push('\n');
            buf.push('\n');
            assert(buf@ =~= old(buf)@ + image_note(description@));
        },
        DocumentElement::PageBreak => {
            buf.push('-');
            buf.push('-');
            buf.push('-');
            buf.push('\n');
            buf.push('\n');
            assert(buf@ =~= old(buf)@ + seq!['-', '-', '-', '\n', '\n']);
        },
    }
}

/// The document as plain text: the title and each heading underlined,
/// lists with their bullets and numbers, tables drawn with lines.
pub fn format_as_text(document: &Document) -> (out: String)
    ensures
        out@ == document_text(document@),
{
    let ghost elements = document@.elements;
    let mut buf: Vec<char> = Vec::new();
    push_underlined(&mut buf, document.title.as_str(), '=');
    let ghost head = buf@;
    assert(head =~= underlined(document.title@, '='));
    let mut i: usize = 0;
    assert(buf@ =~= head + elements_text_before(elements, 0));
    while i < document.elements.len()
        invariant
            i <= document.elements.len(),
            elements == document@.elements,
            buf@ == head + elements_text_before(elements, i as int),
        decreases document.elements.len() - i,
    {
        assert(elements[i as int] == document.elements@[i as int]@);
        push_element_text(&mut buf, &document.elements[i]);
        assert(buf@ =~= head + elements_text_before(elements, i + 1));
        i += 1;
    }
    string_of(buf.as_slice())
}

// ---------------------------------------------------------------------------
// Markdown
// ---------------------------------------------------------------------------

/// A heading as the exports show it: its number, a space and its text, or
/// its text alone where it has no number.
pub open spec fn numbered_heading(number: Option<Seq<char>>, text: Seq<char>) -> Seq<char> {
    match number {
        Some(n) => n + seq![' '] + text,
        None => text,
    }
}

/// `text` between `mark` on either side where `on` holds, else as it is.
pub open spec fn wrapped(text: Seq<char>, mark: Seq<char>, on: bool) -> Seq<char> {
    if on {
        mark + text + mark
    } else {
        text
    }
}

/// The texts of a row of cells.
pub open spec fn contents(cells: Seq<CellModel>) -> Seq<Seq<char>> {
    cells.map_values(|c: CellModel| c.content)
}

/// A row of a table in Markdown: the texts of the cells between bars.
pub open spec fn markdown_row(parts: Seq<Seq<char>>) -> Seq<char> {
    seq!['|', ' '] + joined(parts, seq![' ', '|', ' ']) + seq![' ', '|', '\n']
}

/// How Markdown marks the alignment of a column.
pub open spec fn alignment_mark(alignment: TextAlignment) -> Seq<char> {
    match alignment {
        TextAlignment::Right => seq!['-', '-', '-', ':'],
        TextAlignment::Center => seq![':', '-', '-', '-', ':'],
        _ => seq![':', '-', '-', '-'],
    }
}

/// The alignment marks of the columns.
pub open spec fn alignment_marks(alignments: Seq<TextAlignment>) -> Seq<Seq<char>> {
    alignments.map_values(|a: TextAlignment| alignment_mark(a))
}

/// The rows before index `n` in Markdown.
pub open spec fn markdown_rows_before(rows: Seq<Seq<CellModel>>, n: int) -> Seq<char>
    decreases n,
{
    if n <= 0 {
        Seq::empty()
    } else {
        markdown_rows_before(rows, n - 1) + markdown_row(contents(rows[n - 1]))
    }
}

/// A table in Markdown: its title as a heading where it has one, the
/// header, the alignment marks, the rows and an empty line.
pub open spec fn markdown_table(table: TableModel) -> Seq<char> {
    let title = match table.metadata.title {
        Some(t) => "### "@ + t + seq!['\n', '\n'],
        None => Seq::empty(),
    };
    title + markdown_row(contents(table.headers)) + markdown_row(
        alignment_marks(table.metadata.column_alignments),
    ) + markdown_rows_before(table.rows, table.rows.len() as int) + seq!['\n']
}

/// The size of an image as a comment, where both width and height are
/// known.
pub open spec fn size_note(width: Option<u32>, height: Option<u32>) -> Seq<char> {
    match (width, height) {
        (Some(w), Some(h)) => " <!-- "@ + decimal(w as nat) + seq!['x'] + decimal(h as nat)
            + " -->"@,
        _ => Seq::empty(),
    }
}

/// One element in Markdown. A heading is one level deeper than its own,
/// the title of the document being the first.
pub open spec fn element_markdown(e: ElementModel) -> Seq<char> {
    match e {
        ElementModel::Heading { level, text, number } => repeated(seq!['#'], (level + 1) as nat)
            + seq![' '] + numbered_heading(number, text) + seq!['\n', '\n'],
        ElementModel::Paragraph { text, formatting } => wrapped(
            wrapped(text, seq!['*', '*'], formatting.bold),
            seq!['*'],
            formatting.italic,
        ) + seq!['\n', '\n'],
        ElementModel::List { items, ordered } => items_text_before(
            items,
            ordered,
            seq!['-', ' '],
            items.len() as int,
        ) + seq!['\n'],
        ElementModel::Table { table } => markdown_table(table),
        ElementModel::Image { description, width, height } => seq!['!', '['] + description + seq![
            ']',
            '(',
        ] + description + seq![')'] + size_note(width, height) + seq!['\n', '\n'],
        ElementModel::PageBreak => seq!['\n', '-', '-', '-', '\n', '\n'],
    }
}

/// The elements before index `n` in Markdown.
pub open spec fn elements_markdown_before(elements: Seq<ElementModel>, n: int) -> Seq<char>
    decreases n,
{
    if n <= 0 {
        Seq::empty()
    } else {
        elements_markdown_before(elements, n - 1) + element_markdown(elements[n - 1])
    }
}

/// The head of the Markdown export: title, file, pages, words and, where
/// known, the author, and a rule.
pub open spec fn markdown_head(doc: DocumentModel) -> Seq<char> {
    "# "@ + doc.title + seq!['\n', '\n'] + "## Document Information\n\n"@ + "- **File**: "@
        + doc.metadata.file_path + seq!['\n'] + "- **Pages**: "@ + decimal(
        doc.metadata.page_count as nat,
    ) + seq!['\n'] + "- **Words**: "@ + decimal(doc.metadata.word_count as nat) + seq!['\n'] + (
    match doc.metadata.author {
        Some(a) => "- **Author**: "@ + a + seq!['\n'],
        None => Seq::empty(),
    }) + "\n---\n\n"@
}

/// The document in Markdown.
pub open spec fn document_markdown(doc: DocumentModel) -> Seq<char> {
    markdown_head(doc) + elements_markdown_before(doc.elements, doc.elements.len() as int)
}

pub(crate) fn push_numbered_heading(buf: &mut Vec<char>, number: &Option<String>, text: &String)
    ensures
        final(buf)@ == old(buf)@ + numbered_heading(opt_text(*number), text@),
{
    if let Some(n) = number {
        push_text(buf, n.as_str());
        buf.push(' ');
    }
    push_text(buf, text.as_str());
    assert(buf@ =~= old(buf)@ + numbered_heading(opt_text(*number), text@));
}

fn push_markdown_cells(buf: &mut Vec<char>, cells: &Vec<TableCell>)
    ensures
        final(buf)@ == old(buf)@ + markdown_row(contents(cells_model(cells@))),
{
    let ghost parts = contents(cells_model(cells@));
    let ghost sep = seq![' ', '|', ' '];
    buf.push('|');
    buf.push(' ');
    let ghost base = buf@;
    let mut i: usize = 0;
    assert(buf@ =~= base + joined_before(parts, sep, 0));
    while i < cells.len()
        invariant
            i <= cells.len(),
            parts == contents(cells_model(cells@)),
            sep == seq![' ', '|', ' '],
            buf@ == base + joined_before(parts, sep, i as int),
        decreases cells.len() - i,
    {
        if i > 0 {
            buf.push(' ');
            buf.push('|');
            buf.push(' ');
        }
        push_text(buf, cells[i].content.as_str());
        assert(parts[i as int] == cells@[i as int].content@);
        assert(buf@ =~= base + joined_before(parts, sep, i + 1));
        i += 1;
    }
    buf.push(' ');
    buf.push('|');
    buf.push('\n');
    assert(buf@ =~= old(buf)@ + markdown_row(parts));
}

fn push_alignment_marks(buf: &mut Vec<char>, alignments: &Vec<TextAlignment>)
    ensures
        final(buf)@ == old(buf)@ + markdown_row(alignment_marks(alignments@)),
{
    let ghost parts = alignment_marks(alignments@);
    let ghost sep = seq![' ', '|', ' '];
    buf.push('|');
    buf.push(' ');
    let ghost base = buf@;
    let mut i: usize = 0;
    assert(buf@ =~= base + joined_before(parts, sep, 0));
    while i < alignments.len()
        invariant
            i <= alignments.len(),
            parts == alignment_marks(alignments@),
            sep == seq![' ', '|', ' '],
            buf@ == base + joined_before(parts, sep, i as int),
        decreases alignments.len() - i,
    {
        if i > 0 {
            buf.push(' ');
            buf.push('|');
            buf.push(' ');
        }
        let ghost before = buf@;
        match alignments[i] {
            TextAlignment::Right => {
                buf.push('-');
                buf.push('-');
                buf.push('-');
                buf.push(':');
            },
            TextAlignment::Center => {
                buf.push(':');
                buf.push('-');
                buf.push('-');
                buf.push('-');
                buf.push(':');
            },
            _ => {
                buf.push(':');
                buf.push('-');
                buf.push('-');
                buf.push('-');
            },
        }
        assert(buf@ =~= before + alignment_mark(alignments@[i as int]));
        assert(buf@ =~= base + joined_before(parts, sep, i + 1));
        i += 1;
    }
    buf.push(' ');
    buf.push('|');
    buf.push('\n');
    assert(buf@ =~= old(buf)@ + markdown_row(parts));
}

fn push_markdown_rows(buf: &mut Vec<char>, rows: &Vec<Vec<TableCell>>)
    ensures
        final(buf)@ == old(buf)@ + markdown_rows_before(rows_model(rows@), rows@.len() as int),
{
    let ghost model = rows_model(rows@);
    let mut r: usize = 0;
    assert(buf@ =~= old(buf)@ + markdown_rows_before(model, 0));
    while r < rows.len()
        invariant
            r <= rows.len(),
            model == rows_model(rows@),
            buf@ == old(buf)@ + markdown_rows_before(model, r as int),
        decreases rows.len() - r,
    {
        assert(model[r as int] == cells_model(rows@[r as int]@));
        push_markdown_cells(buf, &rows[r]);
        assert(buf@ =~= old(buf)@ + markdown_rows_before(model, r + 1));
        r += 1;
    }
}

fn push_markdown_table(buf: &mut Vec<char>, table: &TableData)
    ensures
        final(buf)@ == old(buf)@ + markdown_table(table@),
{
    if let Some(title) = &table.metadata.title {
        push_text(buf, "### ");
        push_text(buf, title.as_str());
        buf.push('\n');
        buf.push('\n');
    }
    let ghost titled = buf@;
    assert(titled =~= old(buf)@ + match table@.metadata.title {
        Some(t) => "### "@ + t + seq!['\n', '\n'],
        None => Seq::empty(),
    });
    push_markdown_cells(buf, &table.headers);
    push_alignment_marks(buf, &table.metadata.column_alignments);
    push_markdown_rows(buf, &table.rows);
    buf.push('\n');
    assert(buf@ =~= old(buf)@ + markdown_table(table@));
}

fn push_wrapped_paragraph(
    buf: &mut Vec<char>,
    text: &String,
    formatting: &TextFormatting,
    with_underline: bool,
)
    ensures
        final(buf)@ == old(buf)@ + wrapped(
            wrapped(
                wrapped(text@, seq!['*', '*'], formatting.bold),
                seq!['*'],
                formatting.italic,
            ),
            seq!['_'],
            with_underline && formatting.underline,
        ),
{
    let underline = with_underline && formatting.underline;
    if underline {
        buf.push('_');
    }
    if formatting.italic {
        buf.push('*');
    }
    if formatting.bold {
        buf.push('*');
        buf.push('*');
    }
    push_text(buf, text.as_str());
    if formatting.bold {
        buf.push('*');
        buf.push('*');
    }
    if formatting.italic {
        buf.push('*');
    }
    if underline {
        buf.push('_');
    }
    assert(buf@ =~= old(buf)@ + wrapped(
        wrapped(wrapped(text@, seq!['*', '*'], formatting.bold), seq!['*'], formatting.italic),
        seq!['_'],
        underline,
    ));
}

#[verifier::spinoff_prover]

#[verifier::rlimit(40)]

fn push_element_markdown(buf: &mut Vec<char>, element: &DocumentElement)
    ensures
        final(buf)@ == old(buf)@ + element_markdown(element@),
{
    match element {
        DocumentElement::Heading { level, text, number } => {
            let mut hash: Vec<char> = Vec::new();
            hash.push('#');
            assert(hash@ =~= seq!['#']);
            push_repeated(buf, hash.as_slice(), (*level as usize) + 1);
            buf.push(' ');
            push_numbered_heading(buf, number, text);
            buf.push('\n');
            buf.push('\n');
            assert(buf@ =~= old(buf)@ + element_markdown(element@));
        },
        DocumentElement::Paragraph { text, formatting } => {
            push_wrapped_paragraph(buf, text, formatting, false);
            buf.push('\n');
            buf.push('\n');
            assert(buf@ =~= old(buf)@ + element_markdown(element@));
        },
        DocumentElement::List { items, ordered } => {
            let mut bullet: Vec<char> = Vec::new();
            bullet.push('-');
            bullet.push(' ');
            assert(bullet@ =~= seq!['-', ' ']);
            push_items(buf, items, *ordered, bullet.as_slice());
            buf.push('\n');
            assert(buf@ =~= old(buf)@ + element_markdown(element@));
        },
        DocumentElement::Table { table } => {
            push_markdown_table(buf, table);
        },
        DocumentElement::Image { description, width, height } => {
            buf.push('!');
            buf.push('[');
            push_text(buf, description.as_str());
            buf.push(']');
            buf.push('(');
            push_text(buf, description.as_str());
            buf.push(')');
            let ghost named = buf@;
            match (width, height) {
                (Some(w), Some(h)) => {
                    push_text(buf, " <!-- ");
                    push_decimal(buf, *w as u64);
                    buf.push('x');
                    push_decimal(buf, *h as u64);
                    push_text(buf, " -->");
                    assert(buf@ =~= named + size_note(*width, *height));
                },
                _ => {
                    assert(buf@ =~= named + size_note(*width, *height));
                },
            }
            buf.push('\n');
            buf.push('\n');
            assert(buf@ =~= old(buf)@ + element_markdown(element@));
        },
        DocumentElement::PageBreak => {
            buf.push('\n');
            buf.push('-');
            buf.push('-');
            buf.push('-');
            buf.push('\n');
            buf.push('\n');
            assert(buf@ =~= old(buf)@ + seq!['\n', '-', '-', '-', '\n', '\n']);
        },
    }
}

pub(crate) fn push_labelled_number(buf: &mut Vec<char>, label: &str, n: usize)
    ensures
        final(buf)@ == old(buf)@ + label@ + decimal(n as nat) + seq!['\n'],
{
    push_text(buf, label);
    push_decimal(buf, n as u64);
    buf.push('\n');
    assert(buf@ =~= old(buf)@ + label@ + decimal(n as nat) + seq!['\n']);
}

pub(crate) fn push_labelled_text(buf: &mut Vec<char>, label: &str, text: &str)
    ensures
        final(buf)@ == old(buf)@ + label@ + text@ + seq!['\n'],
{
    push_text(buf, label);
    push_text(buf, text);
    buf.push('\n');
    assert(buf@ =~= old(buf)@ + label@ + text@ + seq!['\n']);
}

/// The document in Markdown: a head with what is known of the document,
/// then the elements.
#[verifier::spinoff_prover]
#[verifier::rlimit(40)]
pub fn markdown_text(document: &Document) -> (out: String)
    ensures
        out@ == document_markdown(document@),
{
    let ghost doc = document@;
    let ghost elements = document@.elements;
    let mut buf: Vec<char> = Vec::new();
    push_text(&mut buf, "# ");
    push_text(&mut buf, document.title.as_str());
    buf.push('\n');
    buf.push('\n');
    push_text(&mut buf, "## Document Information\n\n");
    push_labelled_text(&mut buf, "- **File**: ", document.metadata.file_path.as_str());
    push_labelled_number(&mut buf, "- **Pages**: ", document.metadata.page_count);
    push_labelled_number(&mut buf, "- **Words**: ", document.metadata.word_count);
    if let Some(author) = &document.metadata.author {
        push_labelled_text(&mut buf, "- **Author**: ", author.as_str());
    }
    push_text(&mut buf, "\n---\n\n");
    let ghost head = buf@;
    assert(head =~= markdown_head(doc));
    let mut i: usize = 0;
    assert(buf@ =~= head + elements_markdown_before(elements, 0));
    while i < document.elements.len()
        invariant
            i <= document.elements.len(),
            elements == document@.elements,
            buf@ == head + elements_markdown_before(elements, i as int),
        decreases document.elements.len() - i,
    {
        assert(elements[i as int] == document.elements@[i as int]@);
        push_element_markdown(&mut buf, &document.elements[i]);
        assert(buf@ =~= head + elements_markdown_before(elements, i + 1));
        i += 1;
    }
    string_of(buf.as_slice())
}

// ---------------------------------------------------------------------------
// Plain text without drawn tables
// ---------------------------------------------------------------------------

/// The items before index `n`, each on a line of its own after `- `.
pub open spec fn dashed_items_before(items: Seq<ListItemModel>, n: int) -> Seq<char>
    decreases n,
{
    if n <= 0 {
        Seq::empty()
    } else {
        dashed_items_before(items, n - 1) + seq!['-', ' '] + items[n - 1].text + seq!['\n']
    }
}

/// The rows before index `n`, each between bars on a line of its own.
pub open spec fn barred_rows_before(rows: Seq<Seq<CellModel>>, n: int) -> Seq<char>
    decreases n,
{
    if n <= 0 {
        Seq::empty()
    } else {
        barred_rows_before(rows, n - 1) + markdown_row(contents(rows[n - 1]))
    }
}

/// One element in the plain export. A heading has as many `#` in front as
/// its level. Of a table only the rows are written, without its header.
pub open spec fn element_plain(e: ElementModel) -> Seq<char> {
    match e {
        ElementModel::Heading { level, text, number } => repeated(seq!['#'], level as nat) + seq![
            ' ',
        ] + numbered_heading(number, text) + seq!['\n', '\n'],
        ElementModel::Paragraph { text, formatting } => wrapped(
            wrapped(
                wrapped(text, seq!['*', '*'], formatting.bold),
                seq!['*'],
                formatting.italic,
            ),
            seq!['_'],
            formatting.underline,
        ) + seq!['\n', '\n'],
        ElementModel::List { items, .. } => dashed_items_before(items, items.len() as int) + seq![
            '\n',
        ],
        ElementModel::Table { table } => barred_rows_before(table.rows, table.rows.len() as int)
            + seq!['\n'],
        ElementModel::Image { description, .. } => image_note(description),
        ElementModel::PageBreak => repeated(seq!['-'], RULE_LEN as nat) + seq!['\n', '\n'],
    }
}

/// The elements before index `n` in the plain export.
pub open spec fn elements_plain_before(elements: Seq<ElementModel>, n: int) -> Seq<char>
    decreases n,
{
    if n <= 0 {
        Seq::empty()
    } else {
        elements_plain_before(elements, n - 1) + element_plain(elements[n - 1])
    }
}

/// The head of the plain export.
pub open spec fn plain_head(doc: DocumentModel) -> Seq<char> {
    doc.title + seq!['\n', '\n'] + "Document Information:\n"@ + "- File: "@
        + doc.metadata.file_path + seq!['\n'] + "- Pages: "@ + decimal(
        doc.metadata.page_count as nat,
    ) + seq!['\n'] + "- Words: "@ + decimal(doc.metadata.word_count as nat) + seq!['\n'] + (
    match doc.metadata.author {
        Some(a) => "- Author: "@ + a + seq!['\n'],
        None => Seq::empty(),
    }) + seq!['\n'] + repeated(seq!['='], RULE_LEN as nat) + seq!['\n', '\n']
}

/// The document in the plain export.
pub open spec fn document_plain(doc: DocumentModel) -> Seq<char> {
    plain_head(doc) + elements_plain_before(doc.elements, doc.elements.len() as int)
}

#[verifier::spinoff_prover]

#[verifier::rlimit(40)]

fn push_element_plain(buf: &mut Vec<char>, element: &DocumentElement)
    ensures
        final(buf)@ == old(buf)@ + element_plain(element@),
{
    match element {
        DocumentElement::Heading { level, text, number } => {
            let mut hash: Vec<char> = Vec::new();
            hash.push('#');
            assert(hash@ =~= seq!['#']);
            push_repeated(buf, hash.as_slice(), *level as usize);
            buf.push(' ');
            push_numbered_heading(buf, number, text);
            buf.push('\n');
            buf.push('\n');
            assert(buf@ =~= old(buf)@ + element_plain(element@));
        },
        DocumentElement::Paragraph { text, formatting } => {
            push_wrapped_paragraph(buf, text, formatting, true);
            buf.push('\n');
            buf.push('\n');
            assert(buf@ =~= old(buf)@ + element_plain(element@));
        },
        DocumentElement::List { items, .. } => {
            let ghost model = items_model(items@);
            let mut i: usize = 0;
            assert(buf@ =~= old(buf)@ + dashed_items_before(model, 0));
            while i < items.len()
                invariant
                    i <= items.len(),
                    model == items_model(items@),
                    buf@ == old(buf)@ + dashed_items_before(model, i as int),
                decreases items.len() - i,
            {
                assert(model[i as int] == items@[i as int]@);
                buf.push('-');
                buf.push(' ');
                push_text(buf, items[i].text.as_str());
                buf.push('\n');
                assert(buf@ =~= old(buf)@ + dashed_items_before(model, i + 1));
                i += 1;
            }
            buf.push('\n');
            assert(buf@ =~= old(buf)@ + element_plain(element@));
        },
        DocumentElement::Table { table } => {
            let ghost model = rows_model(table.rows@);
            let mut r: usize = 0;
            assert(buf@ =~= old(buf)@ + barred_rows_before(model, 0));
            while r < table.rows.len()
                invariant
                    r <= table.rows.len(),
                    model == rows_model(table.rows@),
                    buf@ == old(buf)@ + barred_rows_before(model, r as int),
                decreases table.rows.len() - r,
            {
                assert(model[r as int] == cells_model(table.rows@[r as int]@));
                push_markdown_cells(buf, &table.rows[r]);
                assert(buf@ =~= old(buf)@ + barred_rows_before(model, r + 1));
                r += 1;
            }
            buf.push('\n');
            assert(buf@ =~= old(buf)@ + element_plain(element@));
        },
        DocumentElement::Image { description, .. } => {
            push_text(buf, "[Image: ");
            push_text(buf, description.as_str());
            buf.push(']');
            buf.push('\n');
            buf.push('\n');
            assert(buf@ =~= old(buf)@ + image_note(description@));
        },
        DocumentElement::PageBreak => {
            let mut dash: Vec<char> = Vec::new();
            dash.push('-');
            assert(dash@ =~= seq!['-']);
            push_repeated(buf, dash.as_slice(), RULE_LEN);
            buf.push('\n');
            buf.push('\n');
            assert(buf@ =~= old(buf)@ + element_plain(element@));
        },
    }
}

/// The document in the plain export: a head with what is known of the
/// document, a rule, then the elements.
#[verifier::spinoff_prover]
#[verifier::rlimit(40)]
pub fn plain_text(document: &Document) -> (out: String)
    ensures
        out@ == document_plain(document@),
{
    let ghost doc = document@;
    let ghost elements = document@.elements;
    let mut buf: Vec<char> = Vec::new();
    push_text(&mut buf, document.title.as_str());
    buf.push('\n');
    buf.push('\n');
    push_text(&mut buf, "Document Information:\n");
    push_labelled_text(&mut buf, "- File: ", document.metadata.file_path.as_str());
    push_labelled_number(&mut buf, "- Pages: ", document.metadata.page_count);
    push_labelled_number(&mut buf, "- Words: ", document.metadata.word_count);
    if let Some(author) = &document.metadata.author {
        push_labelled_text(&mut buf, "- Author: ", author.as_str());
    }
    buf.push('\n');
    let mut rule: Vec<char> = Vec::new();
    rule.push('=');
    assert(rule@ =~= seq!['=']);
    push_repeated(&mut buf, rule.as_slice(), RULE_LEN);
    buf.push('\n');
    buf.push('\n');
    let ghost head = buf@;
    assert(head =~= plain_head(doc));
    let mut i: usize = 0;
    assert(buf@ =~= head + elements_plain_before(elements, 0));
    while i < document.elements.len()
        invariant
            i <= document.elements.len(),
            elements == document@.elements,
            buf@ == head + elements_plain_before(elements, i as int),
        decreases document.elements.len() - i,
    {
        assert(elements[i as int] == document.elements@[i as int]@);
        push_element_plain(&mut buf, &document.elements[i]);
        assert(buf@ =~= head + elements_plain_before(elements, i + 1));
        i += 1;
    }
    string_of(buf.as_slice())
}

} // verus!
