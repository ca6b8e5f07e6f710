//! The entry points: from the bytes of a DOCX file to a [`Document`] or to its text.
//!
//! Reading a file or another source into bytes is left to the caller.
use vstd::prelude::*;
use crate::error::{result_view, DocxError, DocxErrorView};
use crate::parser::{docx_spec, DocxParser};
use crate::types::{Document, DocumentView};

verus! {

/// What extracting the text of the bytes of a DOCX file gives.
pub open spec fn text_spec(bytes: Seq<u8>) -> Result<Seq<char>, DocxErrorView> {
    match docx_spec(bytes) {
        Ok(d) => Ok(d.text()),
        Err(e) => Err(e),
    }
}

pub open spec fn text_result_view(r: Result<String, DocxError>) -> Result<Seq<char>, DocxErrorView> {
    match r {
        Ok(s) => Ok(s@),
        Err(e) => Err(e@),
    }
}

/// Parses the bytes of a DOCX file into the structured document.
pub fn parse_document(bytes: &[u8]) -> (r: Result<Document, DocxError>)
    ensures
        result_view(r) == docx_spec(bytes@),
{
    let parser = match DocxParser::new(bytes) {
        Ok(p) => p,
        Err(e) => {
            return Err(e);
        },
    };
    parser.parse()
}

/// Extracts the text of a DOCX file held by a reader, given as the bytes it yields.
pub fn extract_text_from_reader(bytes: Vec<u8>) -> (r: Result<String, DocxError>)
    ensures
        text_result_view(r) == text_spec(bytes@),
{
    let document = match parse_document(bytes.as_slice()) {
        Ok(d) => d,
        Err(e) => {
            return Err(e);
        },
    };
    Ok(document.extract_text())
}

/// Extracts the text of a DOCX file from its bytes.
pub fn extract_text_from_bytes(bytes: &[u8]) -> (r: Result<String, DocxError>)
    ensures
        text_result_view(r) == text_spec(bytes@),
{
    let document = match parse_document(bytes) {
        Ok(d) => d,
        Err(e) => {
            return Err(e);
        },
    };
    Ok(document.extract_text())
}

} // verus!
