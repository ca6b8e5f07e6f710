# docx-lite

Text extraction from DOCX documents, written in Verus.

A DOCX file is a ZIP archive whose body is `word/document.xml`.  The library opens the
archive with the `zip` crate, tokenizes each XML part with `quick-xml`, and reads the
events with verified state machines:

- `src/body.rs` — paragraphs, runs (bold, italic, underline) and tables of the body;
- `src/parts.rs` — numbering definitions, headers and footers, footnotes and endnotes;
- `src/machine.rs` — the drivers that feed a machine from a reader or from a list of events;
- `src/parser.rs` — `DocxParser`, which reads all parts of an archive into a `Document`,
  with `document_spec` stating what an archive reads as;
- `src/types.rs` — the document model and `Document::extract_text`;
- `src/extractor.rs` — `parse_document`, `extract_text_from_bytes`, `extract_text_from_reader`;
- `src/xml.rs`, `src/archive.rs` — the trusted boundary to `quick-xml` and `zip`;
- `src/laws.rs` — properties of the library as a whole.

`app/lib.rs` adds the entry points that read files and readers, and the error type with
its messages.
