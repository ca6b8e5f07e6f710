//! Text extraction from DOCX documents.
//!
//! A DOCX file is a ZIP archive; its body is `word/document.xml`.  The library opens the
//! archive, reads the body's paragraphs, runs and tables, the list paragraphs, the
//! headers, footers, footnotes and endnotes, and turns a document into plain text.
use vstd::prelude::*;

pub mod archive;
pub mod body;
pub mod error;
pub mod extractor;
pub mod laws;
pub mod machine;
pub mod parser;
pub mod parts;
pub mod step_laws;
pub mod types;
pub mod xml;

pub use error::DocxError;
pub use extractor::{extract_text_from_bytes, extract_text_from_reader, parse_document};
pub use parser::DocxParser;
pub use types::{
    Document, HeaderFooter, ListItem, ListType, Note, NoteType, Paragraph, Run, Table, TableCell,
    TableRow,
};

verus! {
}
