//! The errors of the library.
use vstd::prelude::*;

verus! {

/// Why a document could not be read.  Each variant carries the message of its cause.
#[derive(Debug, Clone)]
pub enum DocxError {
    /// Reading an entry of the archive failed.
    Io(String),
    /// The bytes are not a ZIP archive that can be opened.
    Zip(String),
    /// The XML of the main document is malformed, or a text holds a bad escape.
    Xml(String),
    /// Text that is not valid UTF-8.
    Utf8(String),
    /// The document's structure is not as expected.
    Structure(String),
    /// A required entry is missing from the archive (carries the entry's path).
    FileNotFound(String),
    /// The format is not supported.
    UnsupportedFormat(String),
}

pub enum DocxErrorView {
    Io(Seq<char>),
    Zip(Seq<char>),
    Xml(Seq<char>),
    Utf8(Seq<char>),
    Structure(Seq<char>),
    FileNotFound(Seq<char>),
    UnsupportedFormat(Seq<char>),
}

impl View for DocxError {
    type V = DocxErrorView;

    open spec fn view(&self) -> DocxErrorView {
        match self {
            DocxError::Io(m) => DocxErrorView::Io(m@),
            DocxError::Zip(m) => DocxErrorView::Zip(m@),
            DocxError::Xml(m) => DocxErrorView::Xml(m@),
            DocxError::Utf8(m) => DocxErrorView::Utf8(m@),
            DocxError::Structure(m) => DocxErrorView::Structure(m@),
            DocxError::FileNotFound(m) => DocxErrorView::FileNotFound(m@),
            DocxError::UnsupportedFormat(m) => DocxErrorView::UnsupportedFormat(m@),
        }
    }
}

/// The view of a result whose error is a [`DocxError`].
pub open spec fn result_view<T: View>(r: Result<T, DocxError>) -> Result<T::V, DocxErrorView> {
    match r {
        Ok(t) => Ok(t@),
        Err(e) => Err(e@),
    }
}

} // verus!
