//! Reconstruction of a typed document tree from the decoded blocks of a
//! word-processing document.

pub mod text;
pub mod trusted;
pub mod scan;
pub mod model;
pub mod normalize;
pub mod heuristics;
pub mod heading;
pub mod numbering;
pub mod list;
pub mod cell;
pub mod table;
pub mod document;
pub mod search;
pub mod image_extractor;
pub mod terminal_image;
pub mod ui;
pub mod export;
pub mod citations;
pub mod viewer_text;
pub mod ai;
pub mod laws;

pub use export::ExportFormat;
pub use image_extractor::ImageExtractor;
pub use model::{Document, DocumentElement};
pub use terminal_image::{TerminalImageRenderer, TerminalImageSupport};
