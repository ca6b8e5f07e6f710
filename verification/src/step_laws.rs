//! What each event does to the readers of the body, of headers and footers and of
//! notes, and how the text and the list items of a document are put together.
use vstd::prelude::*;
use crate::body::{body_start, body_step, BodyState};
use crate::machine::{machine_run, EventMachine, RunResult, Step};
use crate::archive::{entry_of, EntryRead};
use crate::error::DocxErrorView;
use crate::parser::{
    add_parts, document_spec, header_footer_spec, list_items, numbering_spec, part_key, part_number,
};
use crate::parts::{
    numbering_step, format_of, header_footer_step, list_type_spec, notes_step, numbering_end, numbering_start, numeric_attr,
    HeaderFooterState, LevelFormat, NotesState, NumberingState,
};
use crate::types::{
    cell_text, cells_text, rows_text, runs_text, DocumentView, HeaderFooterView, ListItemView, ListType,
    ParagraphView, RunView, TableCellView, TableRowView, TableView,
};
use crate::xml::{all_ascii_digits, attr_value, last_attr, parse_i64_spec, xml_unescaped, AttrItem, XmlItem};

verus! {

broadcast use vstd::string::group_string_axioms;

/// The lengths of the tag names the readers tell apart, and a character of each that
/// tells it from the names of the same length.
pub proof fn lemma_tag_names()
    ensures
        "w:b"@.len() == 3 && "w:b"@[2] == 'b',
        "w:i"@.len() == 3 && "w:i"@[2] == 'i',
        "w:u"@.len() == 3 && "w:u"@[2] == 'u',
        "w:p"@.len() == 3 && "w:p"@[2] == 'p',
        "w:r"@.len() == 3 && "w:r"@[2] == 'r',
        "w:t"@.len() == 3 && "w:t"@[2] == 't',
        "w:tr"@.len() == 4 && "w:tr"@[3] == 'r',
        "w:tc"@.len() == 4 && "w:tc"@[3] == 'c',
        "w:tbl"@.len() == 5,
        "w:ilvl"@.len() == 6,
        "w:numPr"@.len() == 7 && "w:numPr"@[5] == 'P',
        "w:numId"@.len() == 7 && "w:numId"@[5] == 'I',
        "w:endnote"@.len() == 9,
        "w:footnote"@.len() == 10,
        "w:lvl"@.len() == 5 && "w:lvl"@[2] == 'l',
        "w:num"@.len() == 5 && "w:num"@[2] == 'n',
        "w:numFmt"@.len() == 8,
        "w:abstractNum"@.len() == 13,
        "w:abstractNumId"@.len() == 15,
{
    reveal_strlit("w:b");
    reveal_strlit("w:i");
    reveal_strlit("w:u");
    reveal_strlit("w:p");
    reveal_strlit("w:r");
    reveal_strlit("w:t");
    reveal_strlit("w:tr");
    reveal_strlit("w:tc");
    reveal_strlit("w:tbl");
    reveal_strlit("w:ilvl");
    reveal_strlit("w:numPr");
    reveal_strlit("w:numId");
    reveal_strlit("w:endnote");
    reveal_strlit("w:footnote");
    reveal_strlit("w:lvl");
    reveal_strlit("w:num");
    reveal_strlit("w:numFmt");
    reveal_strlit("w:abstractNum");
    reveal_strlit("w:abstractNumId");
}

// ---------------------------------------------------------------------------------
// The body
// ---------------------------------------------------------------------------------

/// Character data inside `w:t` is appended to the open run: the run's text becomes its
/// earlier text followed by the unescaped data, and nothing else changes; a bad escape
/// stops the reading with the state as it was; data outside a run's `w:t` is passed over.
pub proof fn law_body_text_is_appended(s: BodyState, raw: Seq<char>)
    ensures
        s.in_text && s.run is Some ==> match xml_unescaped(raw) {
            Ok(t) => body_step(s, XmlItem::Text { raw }) == Step::Next(
                BodyState { run: Some(RunView { text: s.run->0.text + t, ..s.run->0 }), ..s },
            ),
            Err(m) => body_step(s, XmlItem::Text { raw }) == Step::Fail(s, m),
        },
        !(s.in_text && s.run is Some) ==> body_step(s, XmlItem::Text { raw }) == Step::Next(s),
{
}

/// Opening an element: `w:r` opens an empty, unformatted run, `w:t` starts the text of
/// the run, `w:p` (outside a table) opens an empty paragraph, and `w:tbl`, `w:tr`, `w:tc`
/// open an empty table, row and cell.  Closing `w:t` ends the text.
pub proof fn law_body_elements_open(s: BodyState, content: Seq<char>, n: nat)
    ensures
        body_start(s, "w:r"@, content, n) == (BodyState {
            run: Some(RunView { text: Seq::empty(), bold: false, italic: false, underline: false }),
            ..s
        }),
        body_start(s, "w:t"@, content, n) == (BodyState { in_text: true, ..s }),
        !s.in_table ==> body_start(s, "w:p"@, content, n) == (BodyState {
            paragraph: Some(
                ParagraphView { runs: Seq::empty(), style: None, numbering_id: None, numbering_level: None },
            ),
            ..s
        }),
        body_start(s, "w:tbl"@, content, n) == (BodyState {
            in_table: true,
            table: Some(TableView { rows: Seq::empty() }),
            ..s
        }),
        body_start(s, "w:tr"@, content, n) == (BodyState { row: Some(TableRowView { cells: Seq::empty() }), ..s }),
        body_start(s, "w:tc"@, content, n) == (BodyState {
            cell: Some(TableCellView { paragraphs: Seq::empty() }),
            ..s
        }),
        body_step(s, XmlItem::End { name: "w:t"@ }) == Step::Next(BodyState { in_text: false, ..s }),
{
    lemma_tag_names();
}

/// Closing a run adds it at the end of the open paragraph (outside a table), or at the
/// end of the open cell's paragraph, which it creates when the cell has none.
pub proof fn law_body_run_joins_paragraph(s: BodyState)
    requires
        s.run is Some,
    ensures
        !s.in_table && s.paragraph is Some ==> body_step(s, XmlItem::End { name: "w:r"@ }) == Step::Next(
            BodyState {
                run: None,
                paragraph: Some(ParagraphView { runs: s.paragraph->0.runs.push(s.run->0), ..s.paragraph->0 }),
                ..s
            },
        ),
        s.in_table && s.cell is Some && s.cell->0.paragraphs.len() == 1 ==> body_step(
            s,
            XmlItem::End { name: "w:r"@ },
        ) == Step::Next(
            BodyState {
                run: None,
                cell: Some(
                    TableCellView {
                        paragraphs: seq![
                            ParagraphView {
                                runs: s.cell->0.paragraphs[0].runs.push(s.run->0),
                                ..s.cell->0.paragraphs[0]
                            },
                        ],
                    },
                ),
                ..s
            },
        ),
        s.in_table && s.cell is Some && s.cell->0.paragraphs.len() == 0 ==> body_step(
            s,
            XmlItem::End { name: "w:r"@ },
        ) == Step::Next(
            BodyState {
                run: None,
                cell: Some(
                    TableCellView {
                        paragraphs: seq![
                            ParagraphView {
                                runs: seq![s.run->0],
                                style: None,
                                numbering_id: None,
                                numbering_level: None,
                            },
                        ],
                    },
                ),
                ..s
            },
        ),
{
    lemma_tag_names();
    if let Some(c) = s.cell {
        if c.paragraphs.len() == 1 {
            let p = c.paragraphs[0];
            assert(c.paragraphs.drop_last().push(p.with_run(s.run->0)) =~= seq![
                ParagraphView { runs: p.runs.push(s.run->0), ..p },
            ]);
        }
        if c.paragraphs.len() == 0 {
            assert(Seq::<RunView>::empty().push(s.run->0) =~= seq![s.run->0]);
        }
    }
}

/// Closing a paragraph outside a table adds it at the end of the body's paragraphs;
/// inside a table the paragraph stays in its cell.
pub proof fn law_body_paragraph_closes(s: BodyState)
    ensures
        !s.in_table && s.paragraph is Some ==> body_step(s, XmlItem::End { name: "w:p"@ }) == Step::Next(
            BodyState { paragraph: None, paragraphs: s.paragraphs.push(s.paragraph->0), ..s },
        ),
        s.in_table ==> body_step(s, XmlItem::End { name: "w:p"@ }) == Step::Next(s),
{
    lemma_tag_names();
}

/// Closing a cell adds it at the end of the open row, closing a row adds it at the end
/// of the open table, and closing a table adds it at the end of the body's tables.
pub proof fn law_body_table_closes(s: BodyState)
    ensures
        s.cell is Some && s.row is Some ==> body_step(s, XmlItem::End { name: "w:tc"@ }) == Step::Next(
            BodyState { cell: None, row: Some(TableRowView { cells: s.row->0.cells.push(s.cell->0) }), ..s },
        ),
        s.row is Some && s.table is Some ==> body_step(s, XmlItem::End { name: "w:tr"@ }) == Step::Next(
            BodyState { row: None, table: Some(TableView { rows: s.table->0.rows.push(s.row->0) }), ..s },
        ),
        s.table is Some ==> body_step(s, XmlItem::End { name: "w:tbl"@ }) == Step::Next(
            BodyState { in_table: false, table: None, tables: s.tables.push(s.table->0), ..s },
        ),
{
    lemma_tag_names();
}

// ---------------------------------------------------------------------------------
// Headers and footers
// ---------------------------------------------------------------------------------

/// In a header or footer, character data inside `w:t` is appended to the open run; a
/// bad escape stops the reading with the state as it was; other data is passed over.
pub proof fn law_header_text_is_appended(s: HeaderFooterState, raw: Seq<char>)
    ensures
        s.in_text && s.run is Some ==> match xml_unescaped(raw) {
            Ok(t) => header_footer_step(s, XmlItem::Text { raw }) == Step::Next(
                HeaderFooterState { run: Some(RunView { text: s.run->0.text + t, ..s.run->0 }), ..s },
            ),
            Err(m) => header_footer_step(s, XmlItem::Text { raw }) == Step::Fail(s, m),
        },
        !(s.in_text && s.run is Some) ==> header_footer_step(s, XmlItem::Text { raw }) == Step::Next(s),
{
}

/// In a header or footer, `w:p` opens an empty paragraph, `w:r` an empty run and `w:t`
/// the text of the run; closing a run adds it at the end of the open paragraph, closing
/// a paragraph adds it at the end of the part's paragraphs, closing `w:t` ends the text.
pub proof fn law_header_elements(s: HeaderFooterState, content: Seq<char>, n: nat)
    ensures
        header_footer_step(s, XmlItem::Start { name: "w:p"@, content, name_len: n }) == Step::Next(
            HeaderFooterState {
                paragraph: Some(
                    ParagraphView { runs: Seq::empty(), style: None, numbering_id: None, numbering_level: None },
                ),
                ..s
            },
        ),
        header_footer_step(s, XmlItem::Start { name: "w:r"@, content, name_len: n }) == Step::Next(
            HeaderFooterState {
                run: Some(RunView { text: Seq::empty(), bold: false, italic: false, underline: false }),
                ..s
            },
        ),
        header_footer_step(s, XmlItem::Start { name: "w:t"@, content, name_len: n }) == Step::Next(
            HeaderFooterState { in_text: true, ..s },
        ),
        header_footer_step(s, XmlItem::End { name: "w:t"@ }) == Step::Next(HeaderFooterState { in_text: false, ..s }),
        s.paragraph is Some && s.run is Some ==> header_footer_step(s, XmlItem::End { name: "w:r"@ })
            == Step::Next(
            HeaderFooterState {
                run: None,
                paragraph: Some(ParagraphView { runs: s.paragraph->0.runs.push(s.run->0), ..s.paragraph->0 }),
                ..s
            },
        ),
        s.paragraph is Some ==> header_footer_step(s, XmlItem::End { name: "w:p"@ }) == Step::Next(
            HeaderFooterState { paragraph: None, paragraphs: s.paragraphs.push(s.paragraph->0), ..s },
        ),
{
    lemma_tag_names();
}

// ---------------------------------------------------------------------------------
// Footnotes and endnotes
// ---------------------------------------------------------------------------------

/// In a notes part, character data inside `w:t` is appended to the open run; a bad
/// escape stops the reading with the state as it was; other data is passed over.
pub proof fn law_note_text_is_appended(s: NotesState, raw: Seq<char>)
    ensures
        s.in_text && s.run is Some ==> match xml_unescaped(raw) {
            Ok(t) => notes_step(s, XmlItem::Text { raw }) == Step::Next(
                NotesState { run: Some(RunView { text: s.run->0.text + t, ..s.run->0 }), ..s },
            ),
            Err(m) => notes_step(s, XmlItem::Text { raw }) == Step::Fail(s, m),
        },
        !(s.in_text && s.run is Some) ==> notes_step(s, XmlItem::Text { raw }) == Step::Next(s),
{
}

/// Opening a note starts an empty note of the part's type whose id is the tag's `w:id`
/// (empty when there is none).  In a note, closing a run adds it at the end of the open
/// paragraph, and closing a paragraph adds it at the end of the open note's paragraphs.
pub proof fn law_note_elements(s: NotesState, name: Seq<char>, content: Seq<char>, n: nat)
    requires
        name == "w:footnote"@ || name == "w:endnote"@,
    ensures
        notes_step(s, XmlItem::Start { name, content, name_len: n }) == Step::Next(
            NotesState {
                note: Some(
                    crate::types::NoteView {
                        id: match attr_value(content, n, "w:id"@) {
                            Some(v) => v,
                            None => Seq::empty(),
                        },
                        note_type: s.note_type,
                        paragraphs: Seq::empty(),
                    },
                ),
                ..s
            },
        ),
        s.paragraph is Some && s.run is Some ==> notes_step(s, XmlItem::End { name: "w:r"@ }) == Step::Next(
            NotesState {
                run: None,
                paragraph: Some(ParagraphView { runs: s.paragraph->0.runs.push(s.run->0), ..s.paragraph->0 }),
                ..s
            },
        ),
        s.paragraph is Some && s.note is Some ==> notes_step(s, XmlItem::End { name: "w:p"@ }) == Step::Next(
            NotesState {
                paragraph: None,
                note: Some(
                    crate::types::NoteView {
                        paragraphs: s.note->0.paragraphs.push(s.paragraph->0),
                        ..s.note->0
                    },
                ),
                ..s
            },
        ),
{
    lemma_tag_names();
}

/// Closing a note keeps it, at the end of the notes read so far, unless its id is `-1`
/// or `0` (separator and continuation notes), which are dropped.
pub proof fn law_note_closes(s: NotesState, name: Seq<char>)
    requires
        name == "w:footnote"@ || name == "w:endnote"@,
        s.note is Some,
    ensures
        s.note->0.id != "-1"@ && s.note->0.id != "0"@ ==> notes_step(s, XmlItem::End { name }) == Step::Next(
            NotesState { note: None, notes: s.notes.push(s.note->0), ..s },
        ),
        s.note->0.id == "-1"@ || s.note->0.id == "0"@ ==> notes_step(s, XmlItem::End { name }) == Step::Next(
            NotesState { note: None, ..s },
        ),
{
    lemma_tag_names();
}

// ---------------------------------------------------------------------------------
// Text of a document
// ---------------------------------------------------------------------------------

/// The text of a paragraph's runs is the text of its earlier runs followed by the text
/// of its last one.
pub proof fn law_runs_in_order(rs: Seq<RunView>, r: RunView)
    ensures
        runs_text(rs.push(r)) == runs_text(rs) + r.text,
{
    assert(rs.push(r).drop_last() =~= rs);
}

/// Each paragraph of a cell adds its text and a tab, when it has text.
pub proof fn law_cell_pieces_in_order(ps: Seq<ParagraphView>, p: ParagraphView)
    ensures
        cell_text(ps.push(p)) == cell_text(ps) + (if runs_text(p.runs).len() > 0 {
            runs_text(p.runs) + seq!['\t']
        } else {
            Seq::empty()
        }),
{
    assert(ps.push(p).drop_last() =~= ps);
    if runs_text(p.runs).len() == 0 {
        assert(cell_text(ps) + Seq::<char>::empty() =~= cell_text(ps));
    }
}

/// The cells of a row come in order, each with the text of its paragraphs.
pub proof fn law_cells_in_order(cs: Seq<TableCellView>, c: TableCellView)
    ensures
        cells_text(cs.push(c)) == cells_text(cs) + cell_text(c.paragraphs),
{
    assert(cs.push(c).drop_last() =~= cs);
}

/// The rows of a table come in order, each ending with a newline.
pub proof fn law_rows_in_order(rs: Seq<TableRowView>, r: TableRowView)
    ensures
        rows_text(rs.push(r)) == rows_text(rs) + cells_text(r.cells) + seq!['\n'],
{
    assert(rs.push(r).drop_last() =~= rs);
    assert(rows_text(rs) + (cells_text(r.cells) + seq!['\n']) =~= rows_text(rs) + cells_text(r.cells) + seq!['\n']);
}

/// The tables of a document come in order after its paragraphs: one more table adds
/// its rows and then a newline at the end of the text.
pub proof fn law_tables_in_order(d: DocumentView, t: TableView)
    ensures
        (DocumentView { tables: d.tables.push(t), ..d }).text() == d.text() + rows_text(t.rows) + seq!['\n'],
{
    assert(d.tables.push(t).drop_last() =~= d.tables);
    let before = crate::types::paragraphs_text(d.paragraphs);
    let ts = crate::types::tables_text(d.tables);
    assert(before + (ts + (rows_text(t.rows) + seq!['\n'])) =~= before + ts + rows_text(t.rows) + seq!['\n']);
}

// ---------------------------------------------------------------------------------
// List items
// ---------------------------------------------------------------------------------

/// One more body paragraph adds a list item exactly when it has a numbering id and a
/// level; the item has that level, the type of that level of that numbering, no number,
/// and the whole text of the paragraph (all its runs).
pub proof fn law_list_item_per_paragraph(ps: Seq<ParagraphView>, p: ParagraphView, defs: NumberingState)
    ensures
        (p.numbering_id matches Some(id) && p.numbering_level matches Some(l)) ==> list_items(ps.push(p), defs)
            == list_items(ps, defs).push(
            ListItemView {
                level: p.numbering_level->0,
                list_type: list_type_spec(defs, p.numbering_id->0, p.numbering_level->0),
                number: None,
                text: runs_text(p.runs),
            },
        ),
        (p.numbering_id is None || p.numbering_level is None) ==> list_items(ps.push(p), defs) == list_items(
            ps,
            defs,
        ),
{
    assert(ps.push(p).drop_last() =~= ps);
}

// ---------------------------------------------------------------------------------
// Numbering definitions
// ---------------------------------------------------------------------------------

/// In a numbering part, `w:abstractNum` starts the abstract numbering that its
/// `w:abstractNumId` names, `w:lvl` the level that its `w:ilvl` names, and `w:num` the
/// numbering that its `w:numId` names; inside a numbering, `w:abstractNumId` links it to
/// the abstract numbering that its `w:val` names.  Closing each ends what it started.
pub proof fn law_numbering_elements(s: NumberingState, content: Seq<char>, n: nat)
    ensures
        numbering_start(s, "w:abstractNum"@, content, n) == (NumberingState {
            current_abstract: numeric_attr(content, n, "w:abstractNumId"@),
            ..s
        }),
        numbering_start(s, "w:lvl"@, content, n) == (NumberingState {
            current_level: match attr_value(content, n, "w:ilvl"@) {
                Some(v) => crate::xml::level_spec(v),
                None => None,
            },
            ..s
        }),
        attr_value(content, n, "w:numId"@) matches Some(v) ==> numbering_start(s, "w:num"@, content, n)
            == (NumberingState { current_num: parse_i64_spec(v), ..s }),
        s.current_num is Some && numeric_attr(content, n, "w:val"@) is Some ==> numbering_start(
            s,
            "w:abstractNumId"@,
            content,
            n,
        ) == (NumberingState {
            nums: s.nums.insert(s.current_num->0, numeric_attr(content, n, "w:val"@)->0),
            ..s
        }),
        numbering_end(s, "w:num"@) == (NumberingState { current_num: None, ..s }),
        numbering_end(s, "w:lvl"@) == (NumberingState { current_level: None, ..s }),
        numbering_end(s, "w:abstractNum"@) == (NumberingState { current_abstract: None, current_level: None, ..s }),
{
    lemma_tag_names();
}

/// The format of a level is the last one given for it: one more format for level `l`
/// of abstract numbering `a` decides it, and one for another level changes nothing.
pub proof fn law_last_format_wins(fs: Seq<LevelFormat>, f: LevelFormat, a: i64, l: u32)
    ensures
        f.abstract_id == a && f.level == l ==> format_of(fs.push(f), a, l) == Some(f.list_type),
        !(f.abstract_id == a && f.level == l) ==> format_of(fs.push(f), a, l) == format_of(fs, a, l),
{
    assert(fs.push(f).drop_last() =~= fs);
}

/// The list type of a numbering is the format of its level in the abstract numbering it
/// is linked to, and a bullet list when there is no such format.
pub proof fn law_list_type_from_link(defs: NumberingState, id: i64, l: u32, a: i64, t: ListType)
    requires
        defs.nums.contains_key(id),
        defs.nums[id] == a,
        format_of(defs.formats, a, l) == Some(t),
    ensures
        list_type_spec(defs, id, l) == t,
{
}

// ---------------------------------------------------------------------------------
// Attributes
// ---------------------------------------------------------------------------------

proof fn lemma_last_attr_push(items: Seq<AttrItem>, x: AttrItem, key: Seq<char>, acc: Option<Seq<char>>)
    ensures
        last_attr(items.push(x), key, acc) == match x {
            AttrItem::Pair { key: k, value } => if k == key {
                Some(value)
            } else {
                last_attr(items, key, acc)
            },
            AttrItem::Malformed => last_attr(items, key, acc),
        },
    decreases items.len(),
{
    if items.len() > 0 {
        let next = match items[0] {
            AttrItem::Pair { key: k, value } => if k == key {
                Some(value)
            } else {
                acc
            },
            AttrItem::Malformed => acc,
        };
        assert(items.push(x).drop_first() =~= items.drop_first().push(x));
        assert(items.push(x)[0] == items[0]);
        lemma_last_attr_push(items.drop_first(), x, key, next);
    } else {
        let next = match x {
            AttrItem::Pair { key: k, value } => if k == key {
                Some(value)
            } else {
                acc
            },
            AttrItem::Malformed => acc,
        };
        assert(items.push(x).drop_first() =~= Seq::<AttrItem>::empty());
        assert(items.push(x)[0] == x);
        assert(last_attr(Seq::<AttrItem>::empty(), key, next) == next);
        assert(last_attr(items, key, acc) == acc);
    }
}

/// When an attribute is repeated, its last well-formed occurrence gives its value: one
/// more occurrence of `key` decides the value, and another attribute or a malformed one
/// changes nothing.
pub proof fn law_last_attribute_wins(items: Seq<AttrItem>, key: Seq<char>, other: Seq<char>, v: Seq<char>)
    requires
        other != key,
    ensures
        last_attr(items.push(AttrItem::Pair { key, value: v }), key, None) == Some(v),
        last_attr(items.push(AttrItem::Pair { key: other, value: v }), key, None) == last_attr(items, key, None),
        last_attr(items.push(AttrItem::Malformed), key, None) == last_attr(items, key, None),
{
    lemma_last_attr_push(items, AttrItem::Pair { key, value: v }, key, None);
    lemma_last_attr_push(items, AttrItem::Pair { key: other, value: v }, key, None);
    lemma_last_attr_push(items, AttrItem::Malformed, key, None);
}

// ---------------------------------------------------------------------------------
// Headers and footers of a document
// ---------------------------------------------------------------------------------

/// Header N is read right before footer N, and footer N before the parts numbered
/// above N: a header comes before a footer exactly when its number is not above the
/// footer's; headers (and footers) among themselves come in order of number.
pub proof fn law_header_before_footer(h: Seq<char>, f: Seq<char>, h2: Seq<char>, n: i64, m: i64, n2: i64)
    requires
        part_number(h, "word/header"@) == Some(n),
        part_number(f, "word/footer"@) == Some(m),
        part_number(h2, "word/header"@) == Some(n2),
    ensures
        part_key(h) is Some && part_key(f) is Some && part_key(h2) is Some,
        (part_key(h)->0 < part_key(f)->0) == (n <= m),
        (part_key(h)->0 < part_key(h2)->0) == (n < n2),
{
    reveal_strlit("word/header");
    reveal_strlit("word/footer");
    assert("word/header"@[5] == 'h' && "word/footer"@[5] == 'f');
    assert(f.subrange(0, 11) == "word/footer"@);
    assert(f.subrange(0, 11)[5] == f[5]);
    assert(part_number(f, "word/header"@) is None);
}

/// Reading a header or footer part: a header part that reads without error is added at
/// the end of the headers, a footer part at the end of the footers; a bad escape in it
/// is the error; a part that cannot be read is passed over.
pub proof fn law_part_goes_to_its_list(
    entries: Map<Seq<char>, EntryRead>,
    path: Seq<char>,
    rest: Seq<Seq<char>>,
    d: DocumentView,
)
    ensures
        entry_of(entries, path) matches EntryRead::Text(x) ==> match header_footer_spec(x).failure {
            None => add_parts(entries, seq![path] + rest, d) == add_parts(
                entries,
                rest,
                if part_number(path, "word/header"@) is Some {
                    DocumentView {
                        headers: d.headers.push(HeaderFooterView { paragraphs: header_footer_spec(x).state.paragraphs }),
                        ..d
                    }
                } else {
                    DocumentView {
                        footers: d.footers.push(HeaderFooterView { paragraphs: header_footer_spec(x).state.paragraphs }),
                        ..d
                    }
                },
            ),
            Some(m) => add_parts(entries, seq![path] + rest, d) == Err::<DocumentView, DocxErrorView>(
                DocxErrorView::Xml(m),
            ),
        },
        !(entry_of(entries, path) is Text) ==> add_parts(entries, seq![path] + rest, d) == add_parts(
            entries,
            rest,
            d,
        ),
{
    let ps = seq![path] + rest;
    assert(ps[0] == path);
    assert(ps.drop_first() =~= rest);
    assert((DocumentView { headers: d.headers, ..d }) == d);
    assert((DocumentView { footers: d.footers, ..d }) == d);
}

/// The list items of a document come from its numbering part: with one, each body
/// paragraph with a numbering id and level gives an item, in order; without one the
/// document has no list items.
pub proof fn law_lists_come_from_numbering(entries: Map<Seq<char>, EntryRead>, names: Seq<Seq<char>>)
    ensures
        document_spec(entries, names) matches Ok(d) ==> d.lists == match entry_of(entries, "word/numbering.xml"@) {
            EntryRead::Text(x) => list_items(d.paragraphs, numbering_spec(x)),
            _ => Seq::empty(),
        },
{
    if let Ok(x) = crate::parser::read_spec(entries, "word/document.xml"@) {
        if crate::parser::body_spec(x).failure is None {
            let b = crate::parser::body_spec(x).state;
            let d0 = DocumentView { paragraphs: b.paragraphs, tables: b.tables, ..DocumentView::empty() };
            let d = crate::parser::with_lists(entries, d0);
            crate::laws::lemma_add_parts_keeps_the_rest(entries, crate::parser::ordered_parts(names, 0), d);
            if let EntryRead::Text(nx) = entry_of(entries, "word/numbering.xml"@) {
                assert(Seq::<ListItemView>::empty() + list_items(d0.paragraphs, numbering_spec(nx))
                    =~= list_items(d0.paragraphs, numbering_spec(nx)));
            }
        }
    }
}

// ---------------------------------------------------------------------------------
// Errors, and elements without content
// ---------------------------------------------------------------------------------

/// A tokenizer error stops the body reader with that error; the readers of headers,
/// footers, notes and numbering definitions pass over it and go on.
pub proof fn law_tokenizer_errors(
    b: BodyState,
    h: HeaderFooterState,
    n: NotesState,
    d: NumberingState,
    msg: Seq<char>,
)
    ensures
        body_step(b, XmlItem::Failed { msg }) == Step::Fail(b, msg),
        header_footer_step(h, XmlItem::Failed { msg }) == Step::Next(h),
        notes_step(n, XmlItem::Failed { msg }) == Step::Next(n),
        numbering_step(d, XmlItem::Failed { msg }) == Step::Next(d),
{
}

/// Headers, footers and notes pass over every element written without content (a
/// self-closing note or paragraph adds nothing); a numbering part reads a self-closing
/// `w:numFmt` or `w:abstractNumId` as it reads the opening tag, and passes over the rest.
pub proof fn law_elements_without_content(
    h: HeaderFooterState,
    n: NotesState,
    d: NumberingState,
    name: Seq<char>,
    content: Seq<char>,
    k: nat,
)
    ensures
        header_footer_step(h, XmlItem::Empty { name, content, name_len: k }) == Step::Next(h),
        notes_step(n, XmlItem::Empty { name, content, name_len: k }) == Step::Next(n),
        name == "w:numFmt"@ || name == "w:abstractNumId"@ ==> numbering_step(
            d,
            XmlItem::Empty { name, content, name_len: k },
        ) == Step::Next(numbering_start(d, name, content, k)),
        !(name == "w:numFmt"@ || name == "w:abstractNumId"@) ==> numbering_step(
            d,
            XmlItem::Empty { name, content, name_len: k },
        ) == Step::Next(d),
{
}

/// A bad escape in a header or footer part read after the body is the document's error,
/// and so is one in the footnotes part once the headers and footers were read.
pub proof fn law_errors_of_later_parts(entries: Map<Seq<char>, EntryRead>, names: Seq<Seq<char>>, x: Seq<char>)
    requires
        crate::parser::read_spec(entries, "word/document.xml"@) == Ok::<Seq<char>, DocxErrorView>(x),
        crate::parser::body_spec(x).failure is None,
    ensures
        ({
            let b = crate::parser::body_spec(x).state;
            let d = crate::parser::with_lists(
                entries,
                DocumentView { paragraphs: b.paragraphs, tables: b.tables, ..DocumentView::empty() },
            );
            &&& crate::parser::headers_footers_spec(entries, names, d) matches Err(e) ==> document_spec(entries, names)
                == Err::<DocumentView, DocxErrorView>(e)
            &&& crate::parser::headers_footers_spec(entries, names, d) is Ok ==> (entry_of(
                entries,
                "word/footnotes.xml"@,
            ) matches EntryRead::Text(f) ==> (crate::parser::notes_spec(
                f,
                crate::types::NoteType::Footnote,
            ).failure matches Some(m) ==> document_spec(entries, names) == Err::<DocumentView, DocxErrorView>(
                DocxErrorView::Xml(m),
            )))
        }),
{
}

// ---------------------------------------------------------------------------------
// Numbers
// ---------------------------------------------------------------------------------

/// A leading `-` negates a number and a leading `+` keeps it.
pub proof fn law_number_sign(d: Seq<char>, v: i64)
    requires
        d.len() > 0,
        all_ascii_digits(d),
        parse_i64_spec(d) == Some(v),
    ensures
        parse_i64_spec(seq!['-'] + d) == Some((-v) as i64),
        parse_i64_spec(seq!['+'] + d) == Some(v),
{
    crate::xml::lemma_digits_value_grows(d, 0);
    assert((seq!['-'] + d).drop_first() =~= d);
    assert((seq!['+'] + d).drop_first() =~= d);
    assert((seq!['-'] + d)[0] == '-');
    assert((seq!['+'] + d)[0] == '+');
    assert(d[0] != '-' && d[0] != '+') by {
        assert(crate::xml::is_ascii_digit(d[0]));
    }
}

// ---------------------------------------------------------------------------------
// Running a reader
// ---------------------------------------------------------------------------------

/// A reader takes the events one at a time: after an event that lets it go on it reads
/// the rest from the new state; an event that stops it ends the reading there, without
/// failure; one that fails ends it with that failure; no events leave it as it was.
pub proof fn law_reader_takes_events_in_order<M: EventMachine>(s: M::V, e: XmlItem, rest: Seq<XmlItem>)
    ensures
        machine_run::<M>(s, Seq::empty()) == (RunResult { state: s, failure: None }),
        match M::step_spec(s, e) {
            Step::Next(s2) => machine_run::<M>(s, seq![e] + rest) == machine_run::<M>(s2, rest),
            Step::Stop(s2) => machine_run::<M>(s, seq![e] + rest) == (RunResult { state: s2, failure: None }),
            Step::Fail(s2, m) => machine_run::<M>(s, seq![e] + rest) == (RunResult {
                state: s2,
                failure: Some(m),
            }),
        },
{
    let es = seq![e] + rest;
    assert(es[0] == e);
    assert(es.drop_first() =~= rest);
}

// ---------------------------------------------------------------------------------
// A header or footer part on its own
// ---------------------------------------------------------------------------------

/// Part numbers start at 1.
proof fn lemma_part_number_positive(name: Seq<char>, prefix: Seq<char>)
    ensures
        part_number(name, prefix) matches Some(k) ==> k >= 1,
{
    if let Some(k) = part_number(name, prefix) {
        let d = name.subrange(prefix.len() as int, name.len() - 4);
        assert('1' <= d[0] <= '9');
        assert(crate::xml::all_ascii_digits(d));
        crate::xml::lemma_digits_value_grows(d, 1);
        assert(d.take(1).len() == 1);
        assert(d.take(1).drop_last() =~= Seq::<char>::empty());
        assert(crate::xml::digits_value(Seq::<char>::empty()) == 0);
        assert(d.take(1).last() == d[0]);
        assert(crate::xml::digits_value(d.take(1)) == d[0] as int - '0' as int);
    }
}

/// An archive whose only header or footer part is header (or footer) number `n`, for any
/// `n`, has that part read: a header part that reads without error becomes the last
/// header, a footer part the last footer.
pub proof fn law_single_part_is_read(
    entries: Map<Seq<char>, EntryRead>,
    path: Seq<char>,
    x: Seq<char>,
    d: DocumentView,
)
    requires
        part_key(path) is Some,
        entry_of(entries, path) == EntryRead::Text(x),
        header_footer_spec(x).failure is None,
    ensures
        crate::parser::headers_footers_spec(entries, seq![path], d) == Ok::<DocumentView, DocxErrorView>(
            if part_number(path, "word/header"@) is Some {
                DocumentView {
                    headers: d.headers.push(HeaderFooterView { paragraphs: header_footer_spec(x).state.paragraphs }),
                    ..d
                }
            } else {
                DocumentView {
                    footers: d.footers.push(HeaderFooterView { paragraphs: header_footer_spec(x).state.paragraphs }),
                    ..d
                }
            },
        ),
{
    let names = seq![path];
    let k = part_key(path)->0;
    crate::laws::law_ordered_parts(names, 0);
    crate::laws::law_ordered_parts(names, k);
    let ps = crate::parser::ordered_parts(names, 0);
    assert(crate::parser::part_above(names, 0, 0)) by {
        lemma_part_number_positive(path, "word/header"@);
        lemma_part_number_positive(path, "word/footer"@);
    }
    assert(ps.len() >= 1);
    assert(names.contains(ps[0]));
    assert(ps[0] == path);
    if ps.len() > 1 {
        assert(names.contains(ps[1]));
        assert(ps[1] == path);
        assert(part_key(ps[0])->0 < part_key(ps[1])->0);
    }
    assert(ps =~= seq![path]);
    law_part_goes_to_its_list(entries, path, Seq::empty(), d);
    assert(seq![path] + Seq::<Seq<char>>::empty() =~= seq![path]);
}

// ---------------------------------------------------------------------------------
// List levels
// ---------------------------------------------------------------------------------

/// A list level is a number that fits in a `u32`: any other value gives no level.
pub proof fn law_list_level(v: Seq<char>)
    ensures
        crate::xml::level_spec(v) matches Some(l) ==> parse_i64_spec(v) == Some(l as i64),
        parse_i64_spec(v) matches Some(k) ==> (0 <= k <= u32::MAX ==> crate::xml::level_spec(v) == Some(
            k as u32,
        )),
        parse_i64_spec(v) matches Some(k) ==> (k < 0 ==> crate::xml::level_spec(v) is None),
        parse_i64_spec(v) is None ==> crate::xml::level_spec(v) is None,
{
}

} // verus!
