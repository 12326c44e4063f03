//! The text-buffer core of a small terminal editor: rows of grapheme
//! clusters, a document made of rows, syntax highlighting and search.

pub mod chars;
pub mod clusters;
pub mod color;
pub mod document;
pub mod editor;
pub mod filetype;
pub mod highlighting;
pub mod lines;
pub mod render;
pub mod row;
pub mod scanner;
pub mod search;
pub mod segment;
pub mod status;

pub use document::Document;
pub use editor::{Editor, Position, SearchDirection};
pub use filetype::{FileType, HighlightingOptions};
pub use row::Row;
