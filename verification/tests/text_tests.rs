use docx_lite::types::{HeaderFooter, ListType};
use docx_lite::xml::{parse_i64, str_eq};
use docx_lite::{Document, Paragraph, Run, Table, TableCell, TableRow};

fn para(texts: &[&str]) -> Paragraph {
    let mut p = Paragraph::new();
    for t in texts {
        p.add_run(Run::new(t.to_string()));
    }
    p
}

fn cell(paragraphs: Vec<Paragraph>) -> TableCell {
    TableCell { paragraphs }
}

#[test]
fn run_new_has_no_formatting() {
    let r = Run::new("abc".to_string());
    assert_eq!(r.text, "abc");
    assert!(!r.bold);
    assert!(!r.italic);
    assert!(!r.underline);
}

#[test]
fn run_default_is_empty() {
    let r = Run::default();
    assert_eq!(r.text, "");
    assert!(!r.bold && !r.italic && !r.underline);
}

#[test]
fn paragraph_new_is_empty() {
    let p = Paragraph::new();
    assert!(p.runs.is_empty());
    assert!(p.style.is_none());
    assert!(p.numbering_id.is_none());
    assert!(p.numbering_level.is_none());
    assert_eq!(p.to_text(), "");
}

#[test]
fn paragraph_to_text_joins_runs() {
    let p = para(&["Hello", ", ", "world"]);
    assert_eq!(p.to_text(), "Hello, world");
}

#[test]
fn add_run_appends_its_text() {
    let mut p = para(&["one"]);
    let before = p.to_text();
    p.add_run(Run::new(" two".to_string()));
    assert_eq!(p.runs.len(), 2);
    assert_eq!(p.to_text(), format!("{} two", before));
}

#[test]
fn empty_document_has_no_text() {
    let d = Document::new();
    assert!(d.paragraphs.is_empty());
    assert!(d.tables.is_empty());
    assert!(d.lists.is_empty());
    assert!(d.headers.is_empty());
    assert!(d.footers.is_empty());
    assert!(d.footnotes.is_empty());
    assert!(d.endnotes.is_empty());
    assert_eq!(d.extract_text(), "");
    assert_eq!(Document::default().extract_text(), "");
}

#[test]
fn paragraphs_end_with_newline_and_empty_ones_are_skipped() {
    let mut d = Document::new();
    d.paragraphs.push(para(&["First"]));
    d.paragraphs.push(para(&[]));
    d.paragraphs.push(para(&["", ""]));
    d.paragraphs.push(para(&["Sec", "ond"]));
    assert_eq!(d.extract_text(), "First\nSecond\n");
}

#[test]
fn table_cells_are_tab_separated() {
    let mut d = Document::new();
    d.paragraphs.push(para(&["Intro"]));
    let row1 = TableRow { cells: vec![cell(vec![para(&["A"])]), cell(vec![para(&["B"]), para(&["C"])])] };
    let row2 = TableRow { cells: vec![cell(vec![para(&[])]), cell(vec![para(&["D"])])] };
    d.tables.push(Table { rows: vec![row1, row2] });
    assert_eq!(d.extract_text(), "Intro\nA\tB\tC\t\nD\t\n\n");
}

#[test]
fn empty_table_adds_one_newline() {
    let mut d = Document::new();
    d.tables.push(Table::new());
    d.tables.push(Table::default());
    assert_eq!(d.extract_text(), "\n\n");
}

#[test]
fn empty_row_adds_one_newline() {
    let mut d = Document::new();
    d.tables.push(Table { rows: vec![TableRow::default()] });
    assert_eq!(d.extract_text(), "\n\n");
}

#[test]
fn lists_and_notes_do_not_enter_the_text() {
    let mut d = Document::new();
    d.paragraphs.push(para(&["Body"]));
    d.headers.push(HeaderFooter { paragraphs: vec![para(&["Head"])] });
    d.lists.push(docx_lite::ListItem { level: 0, list_type: ListType::Bullet, number: None, text: "Body".to_string() });
    assert_eq!(d.extract_text(), "Body\n");
}

#[test]
fn str_eq_compares_characters() {
    assert!(str_eq("w:p", "w:p"));
    assert!(!str_eq("w:p", "w:pPr"));
    assert!(!str_eq("w:r", "w:p"));
    assert!(str_eq("", ""));
    assert!(str_eq("é", "é"));
}

#[test]
fn parse_i64_accepts_signed_decimals() {
    assert_eq!(parse_i64("42"), Some(42));
    assert_eq!(parse_i64("-7"), Some(-7));
    assert_eq!(parse_i64("+5"), Some(5));
    assert_eq!(parse_i64("0007"), Some(7));
    assert_eq!(parse_i64("9223372036854775807"), Some(i64::MAX));
    assert_eq!(parse_i64("-9223372036854775808"), Some(i64::MIN));
}

#[test]
fn parse_i64_rejects_what_str_parse_rejects() {
    for s in ["", "-", "+", "12a", " 1", "1 ", "--1", "9223372036854775808", "-9223372036854775809", "99999999999999999999999", "١"] {
        assert_eq!(parse_i64(s), None, "{:?}", s);
        assert_eq!(s.parse::<i64>().ok(), None, "{:?}", s);
    }
    for s in ["0", "-0", "+0", "123", "-123"] {
        assert_eq!(parse_i64(s), s.parse::<i64>().ok());
    }
}
