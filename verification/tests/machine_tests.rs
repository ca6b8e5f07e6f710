use docx_lite::body::BodyParser;
use docx_lite::machine::run_on_events;
use docx_lite::parts::{HeaderFooterParser, NotesParser, NumberingParser};
use docx_lite::types::{ListType, NoteType};
use docx_lite::xml::{StartTag, XmlEvent};

fn start(name: &str) -> XmlEvent {
    XmlEvent::Start(StartTag { name: name.to_string(), content: name.to_string(), name_len: name.len() })
}

fn start_with(name: &str, attrs: &str) -> XmlEvent {
    XmlEvent::Start(StartTag { name: name.to_string(), content: format!("{} {}", name, attrs), name_len: name.len() })
}

fn empty_with(name: &str, attrs: &str) -> XmlEvent {
    XmlEvent::Empty(StartTag { name: name.to_string(), content: format!("{} {}", name, attrs), name_len: name.len() })
}

fn end(name: &str) -> XmlEvent {
    XmlEvent::End(name.to_string())
}

fn text(t: &str) -> XmlEvent {
    XmlEvent::Text(t.to_string())
}

fn run(t: &str) -> Vec<XmlEvent> {
    vec![start("w:r"), start("w:t"), text(t), end("w:t"), end("w:r")]
}

fn paragraph(t: &str) -> Vec<XmlEvent> {
    let mut v = vec![start("w:p")];
    v.extend(run(t));
    v.push(end("w:p"));
    v
}

#[test]
fn body_machine_builds_paragraphs() {
    let mut events = paragraph("one");
    events.extend(paragraph("two"));
    events.push(XmlEvent::Eof);
    events.extend(paragraph("after end"));
    let mut b = BodyParser::new();
    assert!(run_on_events(&mut b, &events).is_ok());
    assert_eq!(b.paragraphs.len(), 2);
    assert_eq!(b.paragraphs[0].to_text(), "one");
    assert_eq!(b.paragraphs[1].to_text(), "two");
}

#[test]
fn body_machine_stops_on_tokenizer_error() {
    let mut events = paragraph("one");
    events.push(XmlEvent::Failed("broken".to_string()));
    events.extend(paragraph("two"));
    let mut b = BodyParser::new();
    assert_eq!(run_on_events(&mut b, &events), Err("broken".to_string()));
}

#[test]
fn body_machine_without_eof_keeps_what_it_read() {
    let events = paragraph("only");
    let mut b = BodyParser::new();
    assert!(run_on_events(&mut b, &events).is_ok());
    assert_eq!(b.paragraphs.len(), 1);
}

#[test]
fn body_machine_ignores_runs_without_paragraph() {
    let mut events = run("stray");
    events.push(XmlEvent::Other);
    events.push(XmlEvent::Eof);
    let mut b = BodyParser::new();
    assert!(run_on_events(&mut b, &events).is_ok());
    assert!(b.paragraphs.is_empty());
    assert!(b.run.is_none());
}

#[test]
fn body_machine_sets_numbering_on_num_pr() {
    let events = vec![start("w:p"), start("w:pPr"), start("w:numPr"), end("w:numPr"), end("w:pPr"), end("w:p"), XmlEvent::Eof];
    let mut b = BodyParser::new();
    assert!(run_on_events(&mut b, &events).is_ok());
    assert_eq!(b.paragraphs[0].numbering_id, None);
    assert_eq!(b.paragraphs[0].numbering_level, Some(0));
}

#[test]
fn body_machine_reads_num_id_and_level() {
    let events = vec![
        start("w:p"),
        start("w:pPr"),
        start("w:numPr"),
        start_with("w:ilvl", "w:val=\"3\""),
        end("w:ilvl"),
        start_with("w:numId", "w:val=\"12\""),
        end("w:numId"),
        end("w:numPr"),
        end("w:pPr"),
        end("w:p"),
        XmlEvent::Eof,
    ];
    let mut b = BodyParser::new();
    assert!(run_on_events(&mut b, &events).is_ok());
    assert_eq!(b.paragraphs[0].numbering_id, Some(12));
    assert_eq!(b.paragraphs[0].numbering_level, Some(3));
}

#[test]
fn body_machine_reads_a_table() {
    let mut events = vec![start("w:tbl"), start("w:tr"), start("w:tc")];
    events.extend(paragraph("x"));
    events.extend(paragraph("y"));
    events.extend(vec![end("w:tc"), end("w:tr"), end("w:tbl"), XmlEvent::Eof]);
    let mut b = BodyParser::new();
    assert!(run_on_events(&mut b, &events).is_ok());
    assert!(b.paragraphs.is_empty());
    assert_eq!(b.tables.len(), 1);
    assert_eq!(b.tables[0].rows[0].cells[0].paragraphs.len(), 1);
    assert_eq!(b.tables[0].rows[0].cells[0].paragraphs[0].to_text(), "xy");
    assert!(!b.in_table);
}

#[test]
fn numbering_machine_links_numbers_to_formats() {
    let events = vec![
        start_with("w:abstractNum", "w:abstractNumId=\"1\""),
        start_with("w:lvl", "w:ilvl=\"0\""),
        start_with("w:numFmt", "w:val=\"upperRoman\""),
        end("w:numFmt"),
        end("w:lvl"),
        start_with("w:lvl", "w:ilvl=\"1\""),
        empty_with("w:numFmt", "w:val=\"none\""),
        end("w:lvl"),
        end("w:abstractNum"),
        start_with("w:num", "w:numId=\"4\""),
        XmlEvent::Failed("ignored".to_string()),
        start_with("w:abstractNumId", "w:val=\"1\""),
        end("w:abstractNumId"),
        end("w:num"),
        start_with("w:num", "w:numId=\"nope\""),
        start_with("w:abstractNumId", "w:val=\"1\""),
        end("w:abstractNumId"),
        end("w:num"),
        XmlEvent::Eof,
    ];
    let mut n = NumberingParser::new();
    assert!(run_on_events(&mut n, &events).is_ok());
    assert_eq!(n.nums.len(), 1);
    assert_eq!(n.nums.get(&4), Some(&1));
    assert_eq!(n.formats.len(), 2);
    assert_eq!(n.list_type(4, 0), ListType::Numbered);
    assert_eq!(n.list_type(4, 1), ListType::Bullet);
    assert_eq!(n.list_type(4, 2), ListType::Bullet);
    assert_eq!(n.list_type(5, 0), ListType::Bullet);
    assert_eq!(n.current_num, None);
    assert_eq!(n.current_abstract, None);
}

#[test]
fn header_footer_machine_passes_over_errors() {
    let mut events = paragraph("a");
    events.push(XmlEvent::Failed("ignored".to_string()));
    events.extend(paragraph("b"));
    events.push(XmlEvent::Eof);
    let mut h = HeaderFooterParser::new();
    assert!(run_on_events(&mut h, &events).is_ok());
    assert_eq!(h.paragraphs.len(), 2);
    assert_eq!(h.paragraphs[1].to_text(), "b");
}

#[test]
fn header_footer_machine_fails_on_bad_escape() {
    let mut events = paragraph("&undefined;");
    events.push(XmlEvent::Eof);
    let mut h = HeaderFooterParser::new();
    assert!(run_on_events(&mut h, &events).is_err());
}

#[test]
fn notes_machine_keeps_real_notes() {
    let mut events = vec![start_with("w:endnote", "w:id=\"0\"")];
    events.extend(paragraph("sep"));
    events.push(end("w:endnote"));
    events.push(start_with("w:endnote", "w:id=\"7\" w:id=\"8\""));
    events.extend(paragraph("note"));
    events.push(end("w:endnote"));
    events.push(start_with("w:endnote", "broken w:id=\"9\""));
    events.push(end("w:endnote"));
    events.push(XmlEvent::Eof);
    let mut n = NotesParser::new(NoteType::Endnote);
    assert!(run_on_events(&mut n, &events).is_ok());
    assert_eq!(n.notes.len(), 2);
    assert_eq!(n.notes[0].id, "7");
    assert_eq!(n.notes[0].note_type, NoteType::Endnote);
    assert_eq!(n.notes[0].paragraphs[0].to_text(), "note");
    assert_eq!(n.notes[1].id, "9");
}

#[test]
fn notes_machine_keeps_earlier_notes_on_bad_escape() {
    let mut events = vec![start_with("w:footnote", "w:id=\"1\"")];
    events.extend(paragraph("first"));
    events.push(end("w:footnote"));
    events.push(start_with("w:footnote", "w:id=\"2\""));
    events.extend(paragraph("&bogus;"));
    events.push(end("w:footnote"));
    events.push(XmlEvent::Eof);
    let mut n = NotesParser::new(NoteType::Footnote);
    assert!(run_on_events(&mut n, &events).is_err());
    assert_eq!(n.notes.len(), 1);
    assert_eq!(n.notes[0].id, "1");
    assert_eq!(n.notes[0].paragraphs[0].to_text(), "first");
}

#[test]
fn header_footer_machine_keeps_earlier_paragraphs_on_bad_escape() {
    let mut events = paragraph("kept");
    events.extend(paragraph("&bogus;"));
    events.push(XmlEvent::Eof);
    let mut h = HeaderFooterParser::new();
    assert!(run_on_events(&mut h, &events).is_err());
    assert_eq!(h.paragraphs.len(), 1);
    assert_eq!(h.paragraphs[0].to_text(), "kept");
}

#[test]
fn body_machine_reads_self_closing_values() {
    let events = vec![
        start("w:p"),
        start("w:pPr"),
        start("w:numPr"),
        empty_with("w:ilvl", "w:val=\"1\""),
        empty_with("w:numId", "w:val=\"8\""),
        end("w:numPr"),
        end("w:pPr"),
        start("w:r"),
        empty_with("w:b", ""),
        empty_with("w:u", "w:val=\"single\""),
        empty_with("w:r", ""),
        start("w:t"),
        text("x"),
        end("w:t"),
        end("w:r"),
        empty_with("w:p", ""),
        end("w:p"),
        XmlEvent::Eof,
    ];
    let mut b = BodyParser::new();
    assert!(run_on_events(&mut b, &events).is_ok());
    assert_eq!(b.paragraphs.len(), 1);
    assert_eq!(b.paragraphs[0].numbering_id, Some(8));
    assert_eq!(b.paragraphs[0].numbering_level, Some(1));
    let r = &b.paragraphs[0].runs[0];
    assert_eq!(r.text, "x");
    assert!(r.bold && !r.italic && r.underline);
}

#[test]
fn notes_machine_passes_over_self_closing_notes() {
    let mut events = vec![empty_with("w:endnote", "w:id=\"3\""), start_with("w:endnote", "w:id=\"4\"")];
    events.extend(paragraph("four"));
    events.push(end("w:endnote"));
    events.push(XmlEvent::Eof);
    let mut n = NotesParser::new(NoteType::Endnote);
    assert!(run_on_events(&mut n, &events).is_ok());
    assert_eq!(n.notes.len(), 1);
    assert_eq!(n.notes[0].id, "4");
}
