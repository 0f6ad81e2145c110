//! The data model: the decoded blocks that come in, the document tree that
//! goes out, and the mathematical view of each.
//!
//! The view of a type replaces every `String` by the sequence of its
//! characters and every `Vec` by the sequence of its elements' views.
//! Contracts throughout the library are stated over these views.

use vstd::prelude::*;

verus! {

// ---------------------------------------------------------------------------
// Formatting
// ---------------------------------------------------------------------------

/// The formatting of one paragraph or one table cell.
///
/// `font_size` is in half-points, the unit of the source format.
#[derive(Debug, Clone)]
pub struct TextFormatting {
    pub bold: bool,
    pub italic: bool,
    pub underline: bool,
    pub font_size: Option<u32>,
    pub color: Option<String>,
}

/// The view of a `TextFormatting`: every string as the sequence of its characters.
pub struct FormattingModel {
    pub bold: bool,
    pub italic: bool,
    pub underline: bool,
    pub font_size: Option<u32>,
    pub color: Option<Seq<char>>,
}

/// The view of an optional string.
pub open spec fn opt_text(s: Option<String>) -> Option<Seq<char>> {
    match s {
        Some(t) => Some(t@),
        None => None,
    }
}

impl View for TextFormatting {
    type V = FormattingModel;

    open spec fn view(&self) -> FormattingModel {
        FormattingModel {
            bold: self.bold,
            italic: self.italic,
            underline: self.underline,
            font_size: self.font_size,
            color: opt_text(self.color),
        }
    }
}

/// No emphasis, no size, no colour.
pub open spec fn plain_formatting() -> FormattingModel {
    FormattingModel { bold: false, italic: false, underline: false, font_size: None, color: None }
}

impl Default for TextFormatting {
    fn default() -> (r: Self)
        ensures
            r@ == plain_formatting(),
    {
        TextFormatting { bold: false, italic: false, underline: false, font_size: None, color: None }
    }
}

/// A copy of an optional string.
pub fn copy_opt_text(s: &Option<String>) -> (r: Option<String>)
    ensures
        opt_text(r) == opt_text(*s),
{
    match s {
        Some(t) => Some(t.clone()),
        None => None,
    }
}

impl TextFormatting {
    /// A copy of this formatting.
    pub fn duplicate(&self) -> (r: Self)
        ensures
            r@ == self@,
    {
        TextFormatting {
            bold: self.bold,
            italic: self.italic,
            underline: self.underline,
            font_size: self.font_size,
            color: copy_opt_text(&self.color),
        }
    }
}

// ---------------------------------------------------------------------------
// What comes in: decoded blocks
// ---------------------------------------------------------------------------

/// One piece of a run's content.
#[derive(Debug, Clone)]
pub enum RunPiece {
    /// Literal text.
    Text(String),
    /// A tab stop.
    Tab,
    /// A line break.
    Break,
    /// An embedded drawing.
    Drawing,
}

/// The view of a `RunPiece`: every string as the sequence of its characters.
pub enum RunPieceModel {
    Text(Seq<char>),
    Tab,
    Break,
    Drawing,
}

impl View for RunPiece {
    type V = RunPieceModel;

    open spec fn view(&self) -> RunPieceModel {
        match *self {
            RunPiece::Text(t) => RunPieceModel::Text(t@),
            RunPiece::Tab => RunPieceModel::Tab,
            RunPiece::Break => RunPieceModel::Break,
            RunPiece::Drawing => RunPieceModel::Drawing,
        }
    }
}

/// A span of content that shares one set of formatting flags.
#[derive(Debug, Clone)]
pub struct Run {
    pub pieces: Vec<RunPiece>,
    pub bold: bool,
    pub italic: bool,
    pub underline: bool,
    pub color: Option<String>,
}

/// The view of a `Run`: every string as the sequence of its characters.
pub struct RunModel {
    pub pieces: Seq<RunPieceModel>,
    pub bold: bool,
    pub italic: bool,
    pub underline: bool,
    pub color: Option<Seq<char>>,
}

impl View for Run {
    type V = RunModel;

    open spec fn view(&self) -> RunModel {
        RunModel {
            pieces: self.pieces@.map_values(|p: RunPiece| p@),
            bold: self.bold,
            italic: self.italic,
            underline: self.underline,
            color: opt_text(self.color),
        }
    }
}

/// The numbering metadata that the source format attaches to a paragraph.
#[derive(Debug, Clone, Copy)]
pub struct Numbering {
    pub id: Option<u64>,
    pub level: Option<u8>,
}

/// A decoded paragraph.
#[derive(Debug, Clone)]
pub struct RawParagraph {
    pub style: Option<String>,
    pub numbering: Option<Numbering>,
    pub runs: Vec<Run>,
}

/// The view of a `RawParagraph`: every string as the sequence of its characters.
pub struct ParagraphModel {
    pub style: Option<Seq<char>>,
    pub numbering: Option<Numbering>,
    pub runs: Seq<RunModel>,
}

impl View for RawParagraph {
    type V = ParagraphModel;

    open spec fn view(&self) -> ParagraphModel {
        ParagraphModel {
            style: opt_text(self.style),
            numbering: self.numbering,
            runs: self.runs@.map_values(|r: Run| r@),
        }
    }
}

/// A decoded table cell: the paragraphs it holds.
#[derive(Debug, Clone)]
pub struct RawCell {
    pub paragraphs: Vec<RawParagraph>,
}

/// The view of a `RawCell`: every string as the sequence of its characters.
pub struct RawCellModel {
    pub paragraphs: Seq<ParagraphModel>,
}

impl View for RawCell {
    type V = RawCellModel;

    open spec fn view(&self) -> RawCellModel {
        RawCellModel { paragraphs: self.paragraphs@.map_values(|p: RawParagraph| p@) }
    }
}

/// A decoded table row.
#[derive(Debug, Clone)]
pub struct RawRow {
    pub cells: Vec<RawCell>,
}

/// The view of a `RawRow`: every string as the sequence of its characters.
pub struct RawRowModel {
    pub cells: Seq<RawCellModel>,
}

impl View for RawRow {
    type V = RawRowModel;

    open spec fn view(&self) -> RawRowModel {
        RawRowModel { cells: self.cells@.map_values(|c: RawCell| c@) }
    }
}

/// A decoded table.
#[derive(Debug, Clone)]
pub struct RawTable {
    pub rows: Vec<RawRow>,
}

/// The view of a `RawTable`: every string as the sequence of its characters.
pub struct RawTableModel {
    pub rows: Seq<RawRowModel>,
}

impl View for RawTable {
    type V = RawTableModel;

    open spec fn view(&self) -> RawTableModel {
        RawTableModel { rows: self.rows@.map_values(|r: RawRow| r@) }
    }
}

/// A top-level unit of the source, in source order.
#[derive(Debug, Clone)]
pub enum Block {
    Paragraph(RawParagraph),
    Table(RawTable),
}

/// The view of a `Block`: every string as the sequence of its characters.
pub enum BlockModel {
    Paragraph(ParagraphModel),
    Table(RawTableModel),
}

impl View for Block {
    type V = BlockModel;

    open spec fn view(&self) -> BlockModel {
        match *self {
            Block::Paragraph(p) => BlockModel::Paragraph(p@),
            Block::Table(t) => BlockModel::Table(t@),
        }
    }
}

/// The views of a sequence of blocks.
pub open spec fn blocks_model(blocks: Seq<Block>) -> Seq<BlockModel> {
    blocks.map_values(|b: Block| b@)
}

// ---------------------------------------------------------------------------
// What goes out: the document tree
// ---------------------------------------------------------------------------

/// How a cell or a column is aligned.
#[derive(Debug, Clone, Copy, PartialEq, Eq, Structural)]
pub enum TextAlignment {
    Left,
    Center,
    Right,
    Justify,
}

impl Default for TextAlignment {
    fn default() -> (r: Self)
        ensures
            r == TextAlignment::Left,
    {
        TextAlignment::Left
    }
}

/// What kind of value a cell holds.
#[derive(Debug, Clone, Copy, PartialEq, Eq, Structural)]
pub enum CellDataType {
    Text,
    Number,
    Currency,
    Percentage,
    Date,
    Boolean,
    Empty,
}

impl Default for CellDataType {
    fn default() -> (r: Self)
        ensures
            r == CellDataType::Text,
    {
        CellDataType::Text
    }
}

/// One item of a list.
#[derive(Debug, Clone)]
pub struct ListItem {
    pub text: String,
    pub level: u8,
}

/// The view of a `ListItem`: every string as the sequence of its characters.
pub struct ListItemModel {
    pub text: Seq<char>,
    pub level: u8,
}

impl View for ListItem {
    type V = ListItemModel;

    open spec fn view(&self) -> ListItemModel {
        ListItemModel { text: self.text@, level: self.level }
    }
}

/// The views of a sequence of list items.
pub open spec fn items_model(items: Seq<ListItem>) -> Seq<ListItemModel> {
    items.map_values(|i: ListItem| i@)
}

/// One cell of a table.
#[derive(Debug, Clone)]
pub struct TableCell {
    pub content: String,
    pub alignment: TextAlignment,
    pub formatting: TextFormatting,
    pub data_type: CellDataType,
}

/// The view of a `TableCell`: every string as the sequence of its characters.
pub struct CellModel {
    pub content: Seq<char>,
    pub alignment: TextAlignment,
    pub formatting: FormattingModel,
    pub data_type: CellDataType,
}

impl View for TableCell {
    type V = CellModel;

    open spec fn view(&self) -> CellModel {
        CellModel {
            content: self.content@,
            alignment: self.alignment,
            formatting: self.formatting@,
            data_type: self.data_type,
        }
    }
}

/// The views of a row of cells.
pub open spec fn cells_model(cells: Seq<TableCell>) -> Seq<CellModel> {
    cells.map_values(|c: TableCell| c@)
}

/// The views of the rows of a table.
pub open spec fn rows_model(rows: Seq<Vec<TableCell>>) -> Seq<Seq<CellModel>> {
    rows.map_values(|r: Vec<TableCell>| cells_model(r@))
}

/// What was inferred about a table as a whole.
#[derive(Debug, Clone)]
pub struct TableMetadata {
    pub column_count: usize,
    pub row_count: usize,
    pub has_headers: bool,
    pub column_widths: Vec<usize>,
    pub column_alignments: Vec<TextAlignment>,
    pub title: Option<String>,
}

/// The view of a `TableMetadata`: every string as the sequence of its characters.
pub struct TableMetadataModel {
    pub column_count: usize,
    pub row_count: usize,
    pub has_headers: bool,
    pub column_widths: Seq<usize>,
    pub column_alignments: Seq<TextAlignment>,
    pub title: Option<Seq<char>>,
}

impl View for TableMetadata {
    type V = TableMetadataModel;

    open spec fn view(&self) -> TableMetadataModel {
        TableMetadataModel {
            column_count: self.column_count,
            row_count: self.row_count,
            has_headers: self.has_headers,
            column_widths: self.column_widths@,
            column_alignments: self.column_alignments@,
            title: opt_text(self.title),
        }
    }
}

/// A table with its inferred schema.
#[derive(Debug, Clone)]
pub struct TableData {
    pub headers: Vec<TableCell>,
    pub rows: Vec<Vec<TableCell>>,
    pub metadata: TableMetadata,
}

/// The view of a `TableData`: every string as the sequence of its characters.
pub struct TableModel {
    pub headers: Seq<CellModel>,
    pub rows: Seq<Seq<CellModel>>,
    pub metadata: TableMetadataModel,
}

impl View for TableData {
    type V = TableModel;

    open spec fn view(&self) -> TableModel {
        TableModel {
            headers: cells_model(self.headers@),
            rows: rows_model(self.rows@),
            metadata: self.metadata@,
        }
    }
}

/// One element of the document tree.
#[derive(Debug, Clone)]
pub enum DocumentElement {
    Heading { level: u8, text: String, number: Option<String> },
    Paragraph { text: String, formatting: TextFormatting },
    List { items: Vec<ListItem>, ordered: bool },
    Table { table: TableData },
    Image { description: String, width: Option<u32>, height: Option<u32> },
    PageBreak,
}

/// The view of a `DocumentElement`: every string as the sequence of its characters.
pub enum ElementModel {
    Heading { level: u8, text: Seq<char>, number: Option<Seq<char>> },
    Paragraph { text: Seq<char>, formatting: FormattingModel },
    List { items: Seq<ListItemModel>, ordered: bool },
    Table { table: TableModel },
    Image { description: Seq<char>, width: Option<u32>, height: Option<u32> },
    PageBreak,
}

impl View for DocumentElement {
    type V = ElementModel;

    open spec fn view(&self) -> ElementModel {
        match *self {
            DocumentElement::Heading { level, text, number } => ElementModel::Heading {
                level,
                text: text@,
                number: opt_text(number),
            },
            DocumentElement::Paragraph { text, formatting } => ElementModel::Paragraph {
                text: text@,
                formatting: formatting@,
            },
            DocumentElement::List { items, ordered } => ElementModel::List {
                items: items_model(items@),
                ordered,
            },
            DocumentElement::Table { table } => ElementModel::Table { table: table@ },
            DocumentElement::Image { description, width, height } => ElementModel::Image {
                description: description@,
                width,
                height,
            },
            DocumentElement::PageBreak => ElementModel::PageBreak,
        }
    }
}

/// The views of a sequence of elements.
pub open spec fn elements_model(elements: Seq<DocumentElement>) -> Seq<ElementModel> {
    elements.map_values(|e: DocumentElement| e@)
}

/// What is known about the document as a whole.
#[derive(Debug, Clone)]
pub struct DocumentMetadata {
    pub file_path: String,
    pub file_size: u64,
    pub word_count: usize,
    pub page_count: usize,
    pub created: Option<String>,
    pub modified: Option<String>,
    pub author: Option<String>,
}

/// The view of a `DocumentMetadata`: every string as the sequence of its characters.
pub struct DocumentMetadataModel {
    pub file_path: Seq<char>,
    pub file_size: u64,
    pub word_count: usize,
    pub page_count: usize,
    pub created: Option<Seq<char>>,
    pub modified: Option<Seq<char>>,
    pub author: Option<Seq<char>>,
}

impl View for DocumentMetadata {
    type V = DocumentMetadataModel;

    open spec fn view(&self) -> DocumentMetadataModel {
        DocumentMetadataModel {
            file_path: self.file_path@,
            file_size: self.file_size,
            word_count: self.word_count,
            page_count: self.page_count,
            created: opt_text(self.created),
            modified: opt_text(self.modified),
            author: opt_text(self.author),
        }
    }
}

/// A reconstructed document.
#[derive(Debug, Clone)]
pub struct Document {
    pub title: String,
    pub metadata: DocumentMetadata,
    pub elements: Vec<DocumentElement>,
}

/// The view of a `Document`: every string as the sequence of its characters.
pub struct DocumentModel {
    pub title: Seq<char>,
    pub metadata: DocumentMetadataModel,
    pub elements: Seq<ElementModel>,
}

impl View for Document {
    type V = DocumentModel;

    open spec fn view(&self) -> DocumentModel {
        DocumentModel {
            title: self.title@,
            metadata: self.metadata@,
            elements: elements_model(self.elements@),
        }
    }
}

} // verus!
