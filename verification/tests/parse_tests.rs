use std::io::Write;

use docx_lite::types::{ListType, NoteType};
use docx_lite::{extract_text_from_bytes, extract_text_from_reader, parse_document, DocxError, DocxParser};

const W: &str = "xmlns:w=\"http://schemas.openxmlformats.org/wordprocessingml/2006/main\"";

fn docx(parts: &[(&str, &str)]) -> Vec<u8> {
    let mut w = zip::ZipWriter::new(std::io::Cursor::new(Vec::new()));
    for (name, content) in parts {
        w.start_file(*name, zip::write::SimpleFileOptions::default()).unwrap();
        w.write_all(content.as_bytes()).unwrap();
    }
    w.finish().unwrap().into_inner()
}

fn body(inner: &str) -> String {
    format!(
        "<?xml version=\"1.0\" encoding=\"UTF-8\" standalone=\"yes\"?>\n<w:document {}><w:body>{}</w:body></w:document>",
        W, inner
    )
}

fn p(text: &str) -> String {
    format!("<w:p><w:r><w:t>{}</w:t></w:r></w:p>", text)
}

#[test]
fn paragraphs_and_runs_are_read() {
    let xml = body(
        "\n<w:p><w:r><w:rPr><w:b></w:b><w:i></w:i></w:rPr><w:t>Hello</w:t></w:r><w:r><w:rPr><w:u w:val=\"single\"></w:u></w:rPr><w:t xml:space=\"preserve\"> world</w:t></w:r></w:p>\n<w:p></w:p>\n<w:p><w:r><w:t>Second</w:t></w:r></w:p>\n",
    );
    let bytes = docx(&[("word/document.xml", &xml)]);
    let d = parse_document(&bytes).unwrap();
    assert_eq!(d.paragraphs.len(), 3);
    let first = &d.paragraphs[0];
    assert_eq!(first.runs.len(), 2);
    assert_eq!(first.runs[0].text, "Hello");
    assert!(first.runs[0].bold && first.runs[0].italic && !first.runs[0].underline);
    assert_eq!(first.runs[1].text, " world");
    assert!(!first.runs[1].bold && first.runs[1].underline);
    assert!(d.paragraphs[1].runs.is_empty());
    assert_eq!(d.paragraphs[2].to_text(), "Second");
    assert!(d.tables.is_empty() && d.lists.is_empty() && d.headers.is_empty());
    assert_eq!(d.extract_text(), "Hello world\nSecond\n");
    assert_eq!(extract_text_from_bytes(&bytes).unwrap(), "Hello world\nSecond\n");
    assert_eq!(extract_text_from_reader(bytes.clone()).unwrap(), "Hello world\nSecond\n");
}

#[test]
fn self_closing_formatting_tags_set_the_flags() {
    let xml = body("<w:p><w:r><w:rPr><w:b/><w:i/><w:u w:val=\"single\"/></w:rPr><w:t>B</w:t></w:r><w:r><w:t>plain</w:t></w:r></w:p>");
    let d = parse_document(&docx(&[("word/document.xml", &xml)])).unwrap();
    let r = &d.paragraphs[0].runs[0];
    assert_eq!(r.text, "B");
    assert!(r.bold && r.italic && r.underline);
    let q = &d.paragraphs[0].runs[1];
    assert!(!q.bold && !q.italic && !q.underline);
}

#[test]
fn self_closing_structure_adds_nothing() {
    let xml = body(&format!("{}<w:p/><w:tbl/>{}<w:p><w:r/></w:p>", p("a"), p("b")));
    let d = parse_document(&docx(&[("word/document.xml", &xml)])).unwrap();
    assert_eq!(d.paragraphs.len(), 3);
    assert_eq!(d.paragraphs[0].to_text(), "a");
    assert_eq!(d.paragraphs[1].to_text(), "b");
    assert!(d.paragraphs[2].runs.is_empty());
    assert!(d.tables.is_empty());
    assert_eq!(d.extract_text(), "a\nb\n");
}

#[test]
fn text_outside_w_t_is_ignored() {
    let xml = body("<w:p><w:r>loose<w:t>kept</w:t>after</w:r></w:p>");
    let d = parse_document(&docx(&[("word/document.xml", &xml)])).unwrap();
    assert_eq!(d.extract_text(), "kept\n");
}

#[test]
fn escapes_are_resolved() {
    let xml = body(&p("a &amp; b &lt;c&gt; &#65;&#x42;"));
    let text = extract_text_from_bytes(&docx(&[("word/document.xml", &xml)])).unwrap();
    assert_eq!(text, "a & b <c> AB\n");
}

#[test]
fn bad_escape_in_body_text_is_an_xml_error() {
    let xml = body(&p("a &bogus; b"));
    match parse_document(&docx(&[("word/document.xml", &xml)])) {
        Err(DocxError::Xml(_)) => {}
        other => panic!("unexpected {:?}", other),
    }
}

#[test]
fn bad_escape_outside_text_is_ignored() {
    let xml = body("<w:p>&bogus;<w:r><w:t>ok</w:t></w:r></w:p>");
    assert_eq!(extract_text_from_bytes(&docx(&[("word/document.xml", &xml)])).unwrap(), "ok\n");
}

#[test]
fn malformed_body_is_an_xml_error() {
    let xml = format!("<w:document {}><w:body>{}</w:document>", W, p("x"));
    match parse_document(&docx(&[("word/document.xml", &xml)])) {
        Err(DocxError::Xml(_)) => {}
        other => panic!("unexpected {:?}", other),
    }
}

#[test]
fn cell_runs_join_one_paragraph() {
    let xml = body(&format!(
        "{}<w:tbl><w:tr><w:tc>{}{}</w:tc><w:tc>{}</w:tc></w:tr><w:tr><w:tc></w:tc></w:tr></w:tbl>",
        p("Intro"),
        p("A"),
        p("B"),
        p("C")
    ));
    let d = parse_document(&docx(&[("word/document.xml", &xml)])).unwrap();
    assert_eq!(d.paragraphs.len(), 1);
    assert_eq!(d.tables.len(), 1);
    let t = &d.tables[0];
    assert_eq!(t.rows.len(), 2);
    assert_eq!(t.rows[0].cells.len(), 2);
    assert_eq!(t.rows[0].cells[0].paragraphs.len(), 1);
    assert_eq!(t.rows[0].cells[0].paragraphs[0].to_text(), "AB");
    assert_eq!(t.rows[0].cells[1].paragraphs[0].to_text(), "C");
    assert_eq!(t.rows[1].cells.len(), 1);
    assert!(t.rows[1].cells[0].paragraphs.is_empty());
    assert_eq!(d.extract_text(), "Intro\nAB\tC\t\n\n\n");
}

#[test]
fn empty_cell_paragraph_is_kept() {
    let xml = body("<w:tbl><w:tr><w:tc><w:p></w:p></w:tc><w:tc><w:p/></w:tc></w:tr></w:tbl>");
    let d = parse_document(&docx(&[("word/document.xml", &xml)])).unwrap();
    let row = &d.tables[0].rows[0];
    assert_eq!(row.cells.len(), 2);
    assert_eq!(row.cells[0].paragraphs.len(), 1);
    assert_eq!(row.cells[0].paragraphs[0].to_text(), "");
    assert!(row.cells[1].paragraphs.is_empty());
    assert_eq!(d.extract_text(), "\n\n");
}

#[test]
fn self_closing_notes_and_header_paragraphs_add_nothing() {
    let xml = body(&p("Body"));
    let h = format!("<w:hdr {}><w:p/>{}</w:hdr>", W, p("h"));
    let notes = format!(
        "<w:footnotes {}><w:footnote w:id=\"5\"/><w:footnote w:id=\"6\">{}</w:footnote></w:footnotes>",
        W,
        p("six")
    );
    let d = parse_document(&docx(&[("word/document.xml", &xml), ("word/header1.xml", &h), ("word/footnotes.xml", &notes)]))
        .unwrap();
    assert_eq!(d.headers[0].paragraphs.len(), 1);
    assert_eq!(d.footnotes.len(), 1);
    assert_eq!(d.footnotes[0].id, "6");
}

#[test]
fn lists_need_the_numbering_part() {
    let xml = body(
        "<w:p><w:pPr><w:numPr><w:ilvl w:val=\"2\"/><w:numId w:val=\"3\"/></w:numPr></w:pPr><w:r><w:t>Item</w:t></w:r></w:p><w:p><w:r><w:t>Plain</w:t></w:r></w:p>",
    );
    let without = parse_document(&docx(&[("word/document.xml", &xml)])).unwrap();
    assert_eq!(without.paragraphs[0].numbering_id, Some(3));
    assert_eq!(without.paragraphs[0].numbering_level, Some(2));
    assert_eq!(without.paragraphs[1].numbering_id, None);
    assert!(without.lists.is_empty());

    let numbering = format!(
        "<w:numbering {}><w:num w:numId=\"3\"><w:abstractNumId w:val=\"0\"/></w:num><w:num w:numId=\"x\"></w:num></w:numbering>",
        W
    );
    let with = parse_document(&docx(&[("word/document.xml", &xml), ("word/numbering.xml", &numbering)])).unwrap();
    assert_eq!(with.lists.len(), 1);
    assert_eq!(with.lists[0].level, 2);
    assert_eq!(with.lists[0].list_type, ListType::Bullet);
    assert_eq!(with.lists[0].number, None);
    assert_eq!(with.lists[0].text, "Item");
    assert_eq!(with.extract_text(), "Item\nPlain\n");
}

#[test]
fn headers_and_footers_are_read() {
    let xml = body(&p("Body"));
    let h1 = format!("<w:hdr {}>{}</w:hdr>", W, p("Head one"));
    let f2 = format!("<w:ftr {}>{}{}</w:ftr>", W, p("Foot"), p("two"));
    let d = parse_document(&docx(&[("word/document.xml", &xml), ("word/header1.xml", &h1), ("word/footer2.xml", &f2)])).unwrap();
    assert_eq!(d.headers.len(), 1);
    assert_eq!(d.headers[0].paragraphs.len(), 1);
    assert_eq!(d.headers[0].paragraphs[0].to_text(), "Head one");
    assert_eq!(d.footers.len(), 1);
    assert_eq!(d.footers[0].paragraphs.len(), 2);
    assert_eq!(d.footers[0].paragraphs[1].to_text(), "two");
    assert_eq!(d.extract_text(), "Body\n");
}

#[test]
fn every_numbered_header_and_footer_is_read() {
    let xml = body(&p("Body"));
    let h = format!("<w:hdr {}>{}</w:hdr>", W, p("h"));
    let f = format!("<w:ftr {}>{}</w:ftr>", W, p("f"));
    let d = parse_document(&docx(&[
        ("word/document.xml", &xml),
        ("word/header1.xml", &h),
        ("word/header2.xml", &h),
        ("word/header3.xml", &h),
        ("word/header4.xml", &h),
        ("word/footer3.xml", &f),
        ("word/footer4.xml", &f),
    ]))
    .unwrap();
    assert_eq!(d.headers.len(), 4);
    assert_eq!(d.footers.len(), 2);
}

#[test]
fn headers_come_in_increasing_number() {
    let xml = body(&p("Body"));
    let h = |t: &str| format!("<w:hdr {}>{}</w:hdr>", W, p(t));
    let f = format!("<w:ftr {}>{}</w:ftr>", W, p("foot"));
    let d = parse_document(&docx(&[
        ("word/document.xml", &xml),
        ("word/header10.xml", &h("ten")),
        ("word/footer7.xml", &f),
        ("word/header5.xml", &h("five")),
        ("word/header007.xml", &h("padded")),
        ("word/header2.xml", &h("two")),
        ("word/headerx.xml", &h("letters")),
    ]))
    .unwrap();
    let texts: Vec<String> = d.headers.iter().map(|x| x.paragraphs[0].to_text()).collect();
    assert_eq!(texts, vec!["two".to_string(), "five".to_string(), "ten".to_string()]);
    assert_eq!(d.footers.len(), 1);
    assert_eq!(d.footers[0].paragraphs[0].to_text(), "foot");
}

#[test]
fn list_type_follows_the_level_format() {
    let xml = body(
        "<w:p><w:pPr><w:numPr><w:ilvl w:val=\"1\"/><w:numId w:val=\"2\"/></w:numPr></w:pPr><w:r><w:t>Step</w:t></w:r></w:p>\
         <w:p><w:pPr><w:numPr><w:ilvl w:val=\"0\"/><w:numId w:val=\"2\"/></w:numPr></w:pPr><w:r><w:t>Dot</w:t></w:r></w:p>\
         <w:p><w:pPr><w:numPr><w:ilvl w:val=\"0\"/><w:numId w:val=\"9\"/></w:numPr></w:pPr><w:r><w:t>Unknown</w:t></w:r></w:p>",
    );
    let numbering = format!(
        "<w:numbering {}><w:abstractNum w:abstractNumId=\"4\"><w:lvl w:ilvl=\"0\"><w:numFmt w:val=\"bullet\"/></w:lvl><w:lvl w:ilvl=\"1\"><w:numFmt w:val=\"decimal\"/></w:lvl></w:abstractNum><w:num w:numId=\"2\"><w:abstractNumId w:val=\"4\"/></w:num></w:numbering>",
        W
    );
    let d = parse_document(&docx(&[("word/document.xml", &xml), ("word/numbering.xml", &numbering)])).unwrap();
    assert_eq!(d.lists.len(), 3);
    assert_eq!(d.lists[0].level, 1);
    assert_eq!(d.lists[0].list_type, ListType::Numbered);
    assert_eq!(d.lists[1].list_type, ListType::Bullet);
    assert_eq!(d.lists[2].list_type, ListType::Bullet);
    assert_eq!(d.lists[2].text, "Unknown");
}

#[test]
fn malformed_header_is_passed_over() {
    let xml = body(&p("Body"));
    let h = format!("<w:hdr {}><w:p><w:r><w:t>h</w:t></w:r></w:x></w:hdr>", W);
    let d = parse_document(&docx(&[("word/document.xml", &xml), ("word/header1.xml", &h)])).unwrap();
    assert_eq!(d.headers.len(), 1);
    assert_eq!(d.headers[0].paragraphs.len(), 0);
}

#[test]
fn bad_escape_in_header_text_is_an_error() {
    let xml = body(&p("Body"));
    let h = format!("<w:hdr {}>{}</w:hdr>", W, p("&nope;"));
    match parse_document(&docx(&[("word/document.xml", &xml), ("word/header2.xml", &h)])) {
        Err(DocxError::Xml(_)) => {}
        other => panic!("unexpected {:?}", other),
    }
}

#[test]
fn footnotes_skip_separators() {
    let xml = body(&p("Body"));
    let notes = format!(
        "<w:footnotes {}><w:footnote w:type=\"separator\" w:id=\"-1\"><w:p><w:r><w:separator/></w:r></w:p></w:footnote><w:footnote w:type=\"continuationSeparator\" w:id=\"0\">{}</w:footnote><w:footnote w:id=\"1\">{}{}</w:footnote><w:footnote>{}</w:footnote></w:footnotes>",
        W,
        p("cont"),
        p("Note"),
        p("one"),
        p("anonymous")
    );
    let end = format!("<w:endnotes {}><w:endnote w:id=\"2\">{}</w:endnote></w:endnotes>", W, p("End"));
    let d = parse_document(&docx(&[
        ("word/document.xml", &xml),
        ("word/footnotes.xml", &notes),
        ("word/endnotes.xml", &end),
    ]))
    .unwrap();
    assert_eq!(d.footnotes.len(), 2);
    assert_eq!(d.footnotes[0].id, "1");
    assert_eq!(d.footnotes[0].note_type, NoteType::Footnote);
    assert_eq!(d.footnotes[0].paragraphs.len(), 2);
    assert_eq!(d.footnotes[0].paragraphs[0].to_text(), "Note");
    assert_eq!(d.footnotes[1].id, "");
    assert_eq!(d.endnotes.len(), 1);
    assert_eq!(d.endnotes[0].id, "2");
    assert_eq!(d.endnotes[0].note_type, NoteType::Endnote);
    assert_eq!(d.endnotes[0].paragraphs[0].to_text(), "End");
    assert_eq!(d.extract_text(), "Body\n");
}

#[test]
fn missing_document_part_is_file_not_found() {
    let bytes = docx(&[("word/other.xml", "<a/>")]);
    match parse_document(&bytes) {
        Err(DocxError::FileNotFound(path)) => assert_eq!(path, "word/document.xml"),
        other => panic!("unexpected {:?}", other),
    }
    match extract_text_from_bytes(&bytes) {
        Err(DocxError::FileNotFound(path)) => assert_eq!(path, "word/document.xml"),
        other => panic!("unexpected {:?}", other),
    }
}

#[test]
fn document_part_that_is_not_utf8_is_an_io_error() {
    let mut w = zip::ZipWriter::new(std::io::Cursor::new(Vec::new()));
    w.start_file("word/document.xml", zip::write::SimpleFileOptions::default()).unwrap();
    w.write_all(&[0x3c, 0xff, 0xfe, 0x3e]).unwrap();
    let bytes = w.finish().unwrap().into_inner();
    match parse_document(&bytes) {
        Err(DocxError::Io(_)) => {}
        other => panic!("unexpected {:?}", other),
    }
}

#[test]
fn bytes_that_are_not_a_zip_archive_are_a_zip_error() {
    match parse_document(b"this is not a zip archive") {
        Err(DocxError::Zip(_)) => {}
        other => panic!("unexpected {:?}", other),
    }
    match DocxParser::new(&[]) {
        Err(DocxError::Zip(_)) => {}
        Err(e) => panic!("unexpected {:?}", e),
        Ok(_) => panic!("an empty input opened"),
    }
}

#[test]
fn parser_opens_and_parses() {
    let bytes = docx(&[("word/document.xml", &body(&p("x")))]);
    let parser = DocxParser::new(&bytes).unwrap();
    let d = parser.parse().unwrap();
    assert_eq!(d.extract_text(), "x\n");
}

#[test]
fn header_and_footer_of_a_number_come_before_the_next_number() {
    let xml = body(&p("Body"));
    let f1 = format!("<w:ftr {}>{}</w:ftr>", W, p("&footone;"));
    let h2 = format!("<w:hdr {}>{}</w:hdr>", W, p("&headtwo;"));
    match parse_document(&docx(&[("word/document.xml", &xml), ("word/header2.xml", &h2), ("word/footer1.xml", &f1)])) {
        Err(DocxError::Xml(m)) => {
            assert!(m.contains("footone"), "{}", m);
        }
        other => panic!("unexpected {:?}", other),
    }
}

#[test]
fn formatting_does_not_change_the_text() {
    let plain = body(&format!("{}<w:tbl><w:tr><w:tc>{}</w:tc></w:tr></w:tbl>", p("Hi"), p("cell")));
    let styled = body(
        "<w:p><w:pPr><w:pStyle w:val=\"Title\"/></w:pPr><w:r><w:rPr><w:b/><w:i/></w:rPr><w:t>Hi</w:t></w:r></w:p>\
         <w:tbl><w:tr><w:tc><w:p><w:r><w:rPr><w:u w:val=\"single\"/></w:rPr><w:t>cell</w:t></w:r></w:p></w:tc></w:tr></w:tbl>",
    );
    let a = extract_text_from_bytes(&docx(&[("word/document.xml", &plain)])).unwrap();
    let b = extract_text_from_bytes(&docx(&[("word/document.xml", &styled)])).unwrap();
    assert_eq!(a, "Hi\ncell\t\n\n");
    assert_eq!(a, b);
}
