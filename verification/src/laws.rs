//! Properties of the library as a whole.
use vstd::prelude::*;
use crate::archive::{entry_of, EntryRead};
use crate::body::{body_empty, body_start, body_step, is_value_tag, BodyState};
use crate::error::DocxErrorView;
use crate::machine::{machine_run, Step};
use crate::parser::{
    add_header_footer, add_notes, add_parts, body_spec, count_above, document_spec, headers_footers_spec,
    lemma_best_part, lemma_count_above, list_items, notes_spec, ordered_parts, part_above, part_key,
    part_number, read_spec, best_part,
};
use crate::parts::{
    format_of, is_note_tag, is_separator_id, list_type_spec, notes_step, numbering_start,
    LevelFormat, NotesParser, NotesState, NumberingState,
};
use crate::types::{
    paragraph_line, paragraphs_text, tables_text, DocumentView, ListType, NoteType,
    ParagraphView, RunView, TableCellView, TableRowView, TableView, cell_text, cells_text, rows_text,
    runs_text,
};
use crate::xml::{attr_value, level_spec, parse_i64_spec, xml_events, XmlItem};

verus! {

// ---------------------------------------------------------------------------------
// Text
// ---------------------------------------------------------------------------------

/// Adding a run to a paragraph appends the run's text to the paragraph's text.
pub proof fn law_add_run_appends_text(p: ParagraphView, r: RunView)
    ensures
        p.with_run(r).text() == p.text() + r.text,
{
    assert(p.runs.push(r).drop_last() =~= p.runs);
}

/// A body paragraph without text adds nothing to the document's text; one with text
/// adds its text and a newline after the text of the paragraphs before it.
pub proof fn law_paragraph_line(d: DocumentView, p: ParagraphView)
    ensures
        (DocumentView { paragraphs: d.paragraphs.push(p), ..d }).text() == (if p.text().len() == 0 {
            d.text()
        } else {
            paragraphs_text(d.paragraphs) + p.text() + seq!['\n'] + tables_text(d.tables)
        }),
{
    assert(d.paragraphs.push(p).drop_last() =~= d.paragraphs);
    if p.text().len() == 0 {
        assert(paragraph_line(p) =~= Seq::<char>::empty());
        assert(paragraphs_text(d.paragraphs) + Seq::<char>::empty() =~= paragraphs_text(d.paragraphs));
    } else {
        assert(paragraphs_text(d.paragraphs.push(p)) =~= paragraphs_text(d.paragraphs) + (p.text()
            + seq!['\n']));
    }
}

/// The text of a document comes from its body paragraphs and its tables alone: lists,
/// headers, footers and notes do not enter it.
pub proof fn law_text_is_body_and_tables(d1: DocumentView, d2: DocumentView)
    requires
        d1.paragraphs == d2.paragraphs,
        d1.tables == d2.tables,
    ensures
        d1.text() == d2.text(),
{
}

// ---------------------------------------------------------------------------------
// Footnotes and endnotes
// ---------------------------------------------------------------------------------

pub open spec fn notes_kept(notes: Seq<crate::types::NoteView>, t: NoteType) -> bool {
    forall|i: int| 0 <= i < notes.len() ==> !is_separator_id((#[trigger] notes[i]).id) && notes[i].note_type == t
}

pub open spec fn notes_state_ok(s: NotesState, t: NoteType) -> bool {
    &&& s.note_type == t
    &&& notes_kept(s.notes, t)
    &&& s.note matches Some(n) ==> n.note_type == t
}

proof fn lemma_notes_step_ok(s: NotesState, ev: XmlItem, t: NoteType)
    requires
        notes_state_ok(s, t),
    ensures
        match notes_step(s, ev) {
            Step::Next(s2) => notes_state_ok(s2, t),
            Step::Stop(s2) => notes_state_ok(s2, t),
            Step::Fail(s2, _) => notes_state_ok(s2, t),
        },
{
    match ev {
        XmlItem::End { name } => {
            if !(name == "w:t"@) && !(name == "w:r"@) && !(name == "w:p"@) && is_note_tag(name) {
                if let Some(n) = s.note {
                    if !is_separator_id(n.id) {
                        assert forall|i: int| 0 <= i < s.notes.push(n).len() implies !is_separator_id(
                            (#[trigger] s.notes.push(n)[i]).id,
                        ) && s.notes.push(n)[i].note_type == t by {
                            if i < s.notes.len() {
                                assert(s.notes.push(n)[i] == s.notes[i]);
                            } else {
                                assert(s.notes.push(n)[i] == n);
                            }
                        }
                    }
                }
            }
        },
        _ => {},
    }
}

proof fn lemma_notes_run_ok(s: NotesState, events: Seq<XmlItem>, t: NoteType)
    requires
        notes_state_ok(s, t),
    ensures
        notes_state_ok(machine_run::<NotesParser>(s, events).state, t),
    decreases events.len(),
{
    if events.len() > 0 {
        lemma_notes_step_ok(s, events[0], t);
        match notes_step(s, events[0]) {
            Step::Next(s2) => lemma_notes_run_ok(s2, events.drop_first(), t),
            _ => {},
        }
    }
}

/// The separator and continuation notes (ids `-1` and `0`) are never kept, and every
/// note read from a part has the type of that part (also when a bad escape stops the
/// reading).
pub proof fn law_notes_skip_separators(xml: Seq<char>, t: NoteType)
    ensures
        notes_kept(notes_spec(xml, t).state.notes, t),
{
    let s0 = NotesState {
        notes: Seq::empty(),
        note: None,
        paragraph: None,
        run: None,
        in_text: false,
        note_type: t,
    };
    lemma_notes_run_ok(s0, xml_events(xml), t);
}

// ---------------------------------------------------------------------------------
// Tables
// ---------------------------------------------------------------------------------

/// Inside a table, a paragraph gives the open cell (opened if need be) its paragraph
/// when the cell has none yet, and leaves a cell that has one as it is.
pub proof fn law_paragraph_in_cell(s: BodyState, content: Seq<char>, name_len: nat)
    requires
        s.in_table,
    ensures
        body_start(s, "w:p"@, content, name_len).cell matches Some(c) && c.paragraphs.len() >= 1,
        (s.cell matches Some(c0) && c0.paragraphs.len() > 0) ==> body_start(s, "w:p"@, content, name_len).cell
            == s.cell,
        (s.cell is None || s.cell->0.paragraphs.len() == 0) ==> body_start(s, "w:p"@, content, name_len).cell
            == Some(TableCellView { paragraphs: seq![ParagraphView::empty()] }),
{
    lemma_tag_names_distinct();
}

/// An open cell never holds more than one paragraph: every run of a cell joins the same
/// paragraph, whatever the events.
pub proof fn law_cell_has_one_paragraph(s: BodyState, ev: XmlItem)
    requires
        s.cell matches Some(c) ==> c.paragraphs.len() <= 1,
    ensures
        match body_step(s, ev) {
            Step::Next(t) => t.cell matches Some(c) ==> c.paragraphs.len() <= 1,
            Step::Stop(t) => t.cell matches Some(c) ==> c.paragraphs.len() <= 1,
            Step::Fail(t, _) => t.cell matches Some(c) ==> c.paragraphs.len() <= 1,
        },
{
}

/// The tag names that the body reader tells apart first are distinct (names of different
/// lengths differ).
proof fn lemma_tag_names_distinct()
    ensures
        "w:i"@ != "w:b"@,
        "w:u"@ != "w:b"@,
        "w:u"@ != "w:i"@,
        "w:p"@ != "w:b"@,
        "w:p"@ != "w:i"@,
        "w:p"@ != "w:u"@,
        "w:numId"@ != "w:numPr"@,
        "w:numId"@ != "w:ilvl"@,
        "w:ilvl"@ != "w:numPr"@,
        "w:b"@.len() == 3 && "w:i"@.len() == 3 && "w:u"@.len() == 3 && "w:p"@.len() == 3,
        "w:numPr"@.len() == 7 && "w:ilvl"@.len() == 6 && "w:numId"@.len() == 7,
{
    reveal_strlit("w:b");
    reveal_strlit("w:i");
    reveal_strlit("w:u");
    reveal_strlit("w:p");
    reveal_strlit("w:numPr");
    reveal_strlit("w:numId");
    reveal_strlit("w:ilvl");
    assert("w:b"@[2] == 'b' && "w:i"@[2] == 'i' && "w:u"@[2] == 'u' && "w:p"@[2] == 'p');
    assert("w:numPr"@[5] == 'P' && "w:numId"@[5] == 'I');
}

/// Inside a run, `w:b`, `w:i` and `w:u` (written `<w:b/>` or as a pair of tags) make the
/// run bold, italic and underlined, and change nothing else of it.
pub proof fn law_run_formatting(s: BodyState, content: Seq<char>, name_len: nat)
    requires
        s.run is Some,
    ensures
        body_empty(s, "w:b"@, content, name_len).run == Some(RunView { bold: true, ..s.run->0 }),
        body_empty(s, "w:i"@, content, name_len).run == Some(RunView { italic: true, ..s.run->0 }),
        body_empty(s, "w:u"@, content, name_len).run == Some(RunView { underline: true, ..s.run->0 }),
        body_start(s, "w:b"@, content, name_len).run == Some(RunView { bold: true, ..s.run->0 }),
        body_start(s, "w:i"@, content, name_len).run == Some(RunView { italic: true, ..s.run->0 }),
        body_start(s, "w:u"@, content, name_len).run == Some(RunView { underline: true, ..s.run->0 }),
{
    lemma_tag_names_distinct();
}

/// In a body paragraph, `w:numId` sets the numbering id to the number its `w:val`
/// holds, and `w:ilvl` the level (none when the value is not a number that fits);
/// both are written self-closing, and act the same either way.
pub proof fn law_numbering_from_values(s: BodyState, content: Seq<char>, name_len: nat, v: Seq<char>)
    requires
        s.paragraph is Some,
        attr_value(content, name_len, "w:val"@) == Some(v),
    ensures
        body_empty(s, "w:numId"@, content, name_len).paragraph->0.numbering_id == parse_i64_spec(v),
        body_empty(s, "w:ilvl"@, content, name_len).paragraph->0.numbering_level == level_spec(v),
        body_start(s, "w:numId"@, content, name_len).paragraph->0.numbering_id == parse_i64_spec(v),
        body_start(s, "w:ilvl"@, content, name_len).paragraph->0.numbering_level == level_spec(v),
        body_start(s, "w:numPr"@, content, name_len).paragraph->0.numbering_level == Some(0u32),
{
    lemma_tag_names_distinct();
    assert(is_value_tag("w:numId"@) && is_value_tag("w:ilvl"@));
}

/// A paragraph, run, table, row or cell written self-closing adds nothing.
pub proof fn law_empty_structure_adds_nothing(s: BodyState, name: Seq<char>, content: Seq<char>, name_len: nat)
    requires
        name == "w:p"@ || name == "w:r"@ || name == "w:tbl"@ || name == "w:tr"@ || name == "w:tc"@,
    ensures
        body_empty(s, name, content, name_len) == s,
{
    reveal_strlit("w:b");
    reveal_strlit("w:i");
    reveal_strlit("w:u");
    reveal_strlit("w:p");
    reveal_strlit("w:r");
    reveal_strlit("w:tbl");
    reveal_strlit("w:tr");
    reveal_strlit("w:tc");
    reveal_strlit("w:ilvl");
    reveal_strlit("w:numId");
    assert(name.len() == 3 ==> name[2] == 'p' || name[2] == 'r' || name[2] == 'c');
    assert("w:b"@[2] == 'b' && "w:i"@[2] == 'i' && "w:u"@[2] == 'u');
}

// ---------------------------------------------------------------------------------
// Lists
// ---------------------------------------------------------------------------------

/// A `w:numFmt` read inside level `l` of abstract numbering `a` decides the list type of
/// that level for every numbering that refers to `a`: `bullet` (or `none`) gives a
/// bullet list, any other format a numbered list.
pub proof fn law_num_fmt_decides_list_type(
    s: NumberingState,
    content: Seq<char>,
    name_len: nat,
    id: i64,
    v: Seq<char>,
)
    requires
        s.current_abstract is Some,
        s.current_level is Some,
        attr_value(content, name_len, "w:val"@) == Some(v),
        s.nums.contains_key(id),
        s.nums[id] == s.current_abstract->0,
    ensures
        list_type_spec(numbering_start(s, "w:numFmt"@, content, name_len), id, s.current_level->0) == (if v
            == "bullet"@ || v == "none"@ {
            ListType::Bullet
        } else {
            ListType::Numbered
        }),
{
    reveal_strlit("w:numFmt");
    reveal_strlit("w:abstractNum");
    reveal_strlit("w:lvl");
    assert("w:numFmt"@.len() != "w:abstractNum"@.len());
    assert("w:numFmt"@.len() != "w:lvl"@.len());
    let s2 = numbering_start(s, "w:numFmt"@, content, name_len);
    assert(s2.formats.drop_last() =~= s.formats);
}

/// A numbering that refers to no abstract numbering, or to a level without a format,
/// is a bullet list.
pub proof fn law_default_list_type(defs: NumberingState, id: i64, l: u32)
    requires
        !defs.nums.contains_key(id) || format_of(defs.formats, defs.nums[id], l) is None,
    ensures
        list_type_spec(defs, id, l) == ListType::Bullet,
{
}

pub open spec fn numbered_count(ps: Seq<ParagraphView>) -> nat
    decreases ps.len(),
{
    if ps.len() == 0 {
        0
    } else {
        numbered_count(ps.drop_last()) + if ps.last().numbering_id is Some
            && ps.last().numbering_level is Some {
            1nat
        } else {
            0nat
        }
    }
}

/// There is one list item per body paragraph that has a numbering id and a level, at
/// that level and with the paragraph's text.
pub proof fn law_list_items(ps: Seq<ParagraphView>, defs: NumberingState)
    ensures
        list_items(ps, defs).len() == numbered_count(ps),
    decreases ps.len(),
{
    if ps.len() > 0 {
        law_list_items(ps.drop_last(), defs);
    }
}

// ---------------------------------------------------------------------------------
// Headers and footers
// ---------------------------------------------------------------------------------

/// The header and footer parts are read in increasing order of their place (header N
/// right before footer N, both after the parts numbered below N), each placed after
/// `after`; each is a name of the archive; and every header or footer part of the
/// archive placed after `after` is read.
pub proof fn law_ordered_parts(names: Seq<Seq<char>>, after: int)
    ensures
        ({
            let ps = ordered_parts(names, after);
            &&& forall|i: int| 0 <= i < ps.len() ==> (#[trigger] part_key(ps[i]) matches Some(m) && m > after)
            &&& forall|i: int, k: int| 0 <= i < k < ps.len() ==> part_key(#[trigger] ps[i])->0 < part_key(#[trigger] ps[k])->0
            &&& forall|i: int| 0 <= i < ps.len() ==> names.contains(#[trigger] ps[i])
            &&& forall|k: int| 0 <= k < names.len() && #[trigger] part_above(names, after, k) ==> exists|i: int|
                0 <= i < ps.len() && part_key(#[trigger] ps[i]) == part_key(names[k])
        }),
    decreases count_above(names, after, names.len() as int),
{
    let n = names.len() as int;
    lemma_best_part(names, after, n);
    match best_part(names, after, n) {
        None => {
        },
        Some(j) => {
            let m = part_key(names[j])->0;
            lemma_count_above(names, after, m, j, n);
            law_ordered_parts(names, m);
            let rest = ordered_parts(names, m);
            let ps = ordered_parts(names, after);
            assert(ps =~= seq![names[j]] + rest);
            assert forall|i: int| 0 <= i < ps.len() implies (#[trigger] part_key(ps[i]) matches Some(x) && x > after) by {
                if i > 0 {
                    assert(ps[i] == rest[i - 1]);
                }
            }
            assert forall|i: int, k: int| 0 <= i < k < ps.len() implies part_key(#[trigger] ps[i])->0 < part_key(#[trigger] ps[k])->0 by {
                assert(ps[k] == rest[k - 1]);
                assert(part_key(rest[k - 1]) matches Some(x) && x > m);
                if i > 0 {
                    assert(ps[i] == rest[i - 1]);
                }
            }
            assert forall|i: int| 0 <= i < ps.len() implies names.contains(#[trigger] ps[i]) by {
                if i > 0 {
                    assert(ps[i] == rest[i - 1]);
                } else {
                    assert(names[j] == ps[0]);
                }
            }
            assert forall|k: int| 0 <= k < names.len() && #[trigger] part_above(names, after, k) implies exists|i: int|
                0 <= i < ps.len() && part_key(#[trigger] ps[i]) == part_key(names[k]) by {
                if part_key(names[k])->0 == m {
                    assert(part_key(ps[0]) == part_key(names[k]));
                } else {
                    assert(part_above(names, m, k));
                    let i2 = choose|i: int| 0 <= i < rest.len() && part_key(#[trigger] rest[i]) == part_key(names[k]);
                    assert(ps[i2 + 1] == rest[i2]);
                }
            }
        },
    }
}

pub open spec fn optional_part_absent(entries: Map<Seq<char>, EntryRead>, path: Seq<char>) -> bool {
    !(entry_of(entries, path) is Text)
}

proof fn lemma_add_parts_absent(entries: Map<Seq<char>, EntryRead>, paths: Seq<Seq<char>>, d: DocumentView)
    requires
        forall|i: int| 0 <= i < paths.len() ==> optional_part_absent(entries, #[trigger] paths[i]),
    ensures
        add_parts(entries, paths, d) == Ok::<DocumentView, DocxErrorView>(d),
    decreases paths.len(),
{
    if paths.len() > 0 {
        assert(optional_part_absent(entries, paths[0]));
        assert forall|i: int| 0 <= i < paths.drop_first().len() implies optional_part_absent(entries, #[trigger] paths.drop_first()[i]) by {
            assert(paths.drop_first()[i] == paths[i + 1]);
        }
        lemma_add_parts_absent(entries, paths.drop_first(), d);
        assert((DocumentView { headers: d.headers, ..d }) == d);
        assert((DocumentView { footers: d.footers, ..d }) == d);
    }
}

/// The main document part is required: without it the result is `FileNotFound` with its
/// path, and when it cannot be read the result is the I/O error.
pub proof fn law_document_part_required(entries: Map<Seq<char>, EntryRead>, names: Seq<Seq<char>>)
    ensures
        entry_of(entries, "word/document.xml"@) is Unavailable ==> document_spec(entries, names) == Err::<
            DocumentView,
            DocxErrorView,
        >(DocxErrorView::FileNotFound("word/document.xml"@)),
        entry_of(entries, "word/document.xml"@) matches EntryRead::Failed(m) ==> document_spec(entries, names)
            == Err::<DocumentView, DocxErrorView>(DocxErrorView::Io(m)),
{
}

/// When the archive has none of the optional parts (numbering, headers, footers,
/// footnotes, endnotes) the document is its body alone: missing optional parts are no
/// error.
pub proof fn law_optional_parts_may_be_missing(entries: Map<Seq<char>, EntryRead>, names: Seq<Seq<char>>)
    requires
        optional_part_absent(entries, "word/numbering.xml"@),
        forall|k: int| 0 <= k < names.len() && #[trigger] part_key(names[k]) is Some
            ==> optional_part_absent(entries, names[k]),
        optional_part_absent(entries, "word/footnotes.xml"@),
        optional_part_absent(entries, "word/endnotes.xml"@),
    ensures
        match crate::parser::read_spec(entries, "word/document.xml"@) {
            Err(e) => document_spec(entries, names) == Err::<DocumentView, DocxErrorView>(e),
            Ok(xml) => match body_spec(xml).failure {
                Some(m) => document_spec(entries, names) == Err::<DocumentView, DocxErrorView>(
                    DocxErrorView::Xml(m),
                ),
                None => document_spec(entries, names) == Ok::<DocumentView, DocxErrorView>(
                    DocumentView {
                        paragraphs: body_spec(xml).state.paragraphs,
                        tables: body_spec(xml).state.tables,
                        ..DocumentView::empty()
                    },
                ),
            },
        },
{
    law_ordered_parts(names, 0);
    let ps = ordered_parts(names, 0);
    assert forall|i: int| 0 <= i < ps.len() implies optional_part_absent(entries, #[trigger] ps[i]) by {
        assert(part_key(ps[i]) is Some);
        let k = choose|k: int| 0 <= k < names.len() && names[k] == ps[i];
        assert(part_key(names[k]) is Some);
    }
    if let Ok(xml) = crate::parser::read_spec(entries, "word/document.xml"@) {
        if body_spec(xml).failure is None {
            let b = body_spec(xml).state;
            let d0 = DocumentView { paragraphs: b.paragraphs, tables: b.tables, ..DocumentView::empty() };
            lemma_add_parts_absent(entries, ps, d0);
            assert(headers_footers_spec(entries, names, d0) == Ok::<DocumentView, DocxErrorView>(d0));
            assert(add_notes(entries, "word/footnotes.xml"@, NoteType::Footnote, d0.footnotes)
                == Ok::<Seq<crate::types::NoteView>, DocxErrorView>(d0.footnotes));
        }
    }
}

// ---------------------------------------------------------------------------------
// The parts of a document
// ---------------------------------------------------------------------------------

/// Reading header and footer parts changes nothing but the headers and footers.
pub(crate) proof fn lemma_add_parts_keeps_the_rest(entries: Map<Seq<char>, EntryRead>, paths: Seq<Seq<char>>, d: DocumentView)
    ensures
        add_parts(entries, paths, d) matches Ok(d2) ==> {
            &&& d2.paragraphs == d.paragraphs
            &&& d2.tables == d.tables
            &&& d2.lists == d.lists
            &&& d2.footnotes == d.footnotes
            &&& d2.endnotes == d.endnotes
        },
    decreases paths.len(),
{
    if paths.len() > 0 {
        if part_number(paths[0], "word/header"@) is Some {
            if let Ok(hs) = add_header_footer(entries, paths[0], d.headers) {
                lemma_add_parts_keeps_the_rest(entries, paths.drop_first(), DocumentView { headers: hs, ..d });
            }
        } else {
            if let Ok(fs) = add_header_footer(entries, paths[0], d.footers) {
                lemma_add_parts_keeps_the_rest(entries, paths.drop_first(), DocumentView { footers: fs, ..d });
            }
        }
    }
}

/// The paragraphs and tables of a document are what the body reader makes of
/// `word/document.xml`, and a failure of the body reader is the document's error.
pub proof fn law_body_comes_from_the_document_part(
    entries: Map<Seq<char>, EntryRead>,
    names: Seq<Seq<char>>,
    x: Seq<char>,
)
    requires
        read_spec(entries, "word/document.xml"@) == Ok::<Seq<char>, DocxErrorView>(x),
    ensures
        document_spec(entries, names) matches Ok(d) ==> {
            &&& body_spec(x).failure is None
            &&& d.paragraphs == body_spec(x).state.paragraphs
            &&& d.tables == body_spec(x).state.tables
        },
        body_spec(x).failure matches Some(m) ==> document_spec(entries, names) == Err::<DocumentView, DocxErrorView>(
            DocxErrorView::Xml(m),
        ),
{
    if body_spec(x).failure is None {
        let b = body_spec(x).state;
        let d = crate::parser::with_lists(
            entries,
            DocumentView { paragraphs: b.paragraphs, tables: b.tables, ..DocumentView::empty() },
        );
        lemma_add_parts_keeps_the_rest(entries, ordered_parts(names, 0), d);
    }
}

/// When the archive has footnotes and endnotes parts, the notes of a document are what
/// the notes reader makes of them: every footnote is a footnote, every endnote an
/// endnote, and the separator notes are left out.
pub proof fn law_notes_come_from_the_note_parts(
    entries: Map<Seq<char>, EntryRead>,
    names: Seq<Seq<char>>,
    f: Seq<char>,
    e: Seq<char>,
)
    requires
        entry_of(entries, "word/footnotes.xml"@) == EntryRead::Text(f),
        entry_of(entries, "word/endnotes.xml"@) == EntryRead::Text(e),
    ensures
        document_spec(entries, names) matches Ok(d) ==> {
            &&& notes_spec(f, NoteType::Footnote).failure is None
            &&& notes_spec(e, NoteType::Endnote).failure is None
            &&& d.footnotes == notes_spec(f, NoteType::Footnote).state.notes
            &&& d.endnotes == notes_spec(e, NoteType::Endnote).state.notes
        },
{
    if let Ok(x) = read_spec(entries, "word/document.xml"@) {
        if body_spec(x).failure is None {
            let b = body_spec(x).state;
            let d = crate::parser::with_lists(
                entries,
                DocumentView { paragraphs: b.paragraphs, tables: b.tables, ..DocumentView::empty() },
            );
            lemma_add_parts_keeps_the_rest(entries, ordered_parts(names, 0), d);
            if let Ok(d2) = headers_footers_spec(entries, names, d) {
                assert(d2.footnotes + notes_spec(f, NoteType::Footnote).state.notes
                    =~= notes_spec(f, NoteType::Footnote).state.notes);
                assert(d2.endnotes + notes_spec(e, NoteType::Endnote).state.notes
                    =~= notes_spec(e, NoteType::Endnote).state.notes);
            }
        }
    }
}

// ---------------------------------------------------------------------------------
// Formatting and text
// ---------------------------------------------------------------------------------

/// Paragraphs whose runs have the same texts, one for one.
pub open spec fn same_run_texts(a: ParagraphView, b: ParagraphView) -> bool {
    &&& a.runs.len() == b.runs.len()
    &&& forall|i: int| 0 <= i < a.runs.len() ==> #[trigger] a.runs[i].text == b.runs[i].text
}

pub open spec fn same_paragraph_texts(a: Seq<ParagraphView>, b: Seq<ParagraphView>) -> bool {
    &&& a.len() == b.len()
    &&& forall|i: int| 0 <= i < a.len() ==> same_run_texts(#[trigger] a[i], b[i])
}

pub open spec fn same_cell_texts(a: Seq<TableCellView>, b: Seq<TableCellView>) -> bool {
    &&& a.len() == b.len()
    &&& forall|i: int| 0 <= i < a.len() ==> same_paragraph_texts(#[trigger] a[i].paragraphs, b[i].paragraphs)
}

pub open spec fn same_row_texts(a: Seq<TableRowView>, b: Seq<TableRowView>) -> bool {
    &&& a.len() == b.len()
    &&& forall|i: int| 0 <= i < a.len() ==> same_cell_texts(#[trigger] a[i].cells, b[i].cells)
}

pub open spec fn same_table_texts(a: Seq<TableView>, b: Seq<TableView>) -> bool {
    &&& a.len() == b.len()
    &&& forall|i: int| 0 <= i < a.len() ==> same_row_texts(#[trigger] a[i].rows, b[i].rows)
}

proof fn lemma_runs_text_same(a: Seq<RunView>, b: Seq<RunView>)
    requires
        a.len() == b.len(),
        forall|i: int| 0 <= i < a.len() ==> #[trigger] a[i].text == b[i].text,
    ensures
        runs_text(a) == runs_text(b),
    decreases a.len(),
{
    if a.len() > 0 {
        assert(a.last().text == b.last().text);
        lemma_runs_text_same(a.drop_last(), b.drop_last());
    }
}

proof fn lemma_paragraphs_text_same(a: Seq<ParagraphView>, b: Seq<ParagraphView>)
    requires
        same_paragraph_texts(a, b),
    ensures
        paragraphs_text(a) == paragraphs_text(b),
        cell_text(a) == cell_text(b),
    decreases a.len(),
{
    if a.len() > 0 {
        assert(same_run_texts(a[a.len() - 1], b[b.len() - 1]));
        lemma_runs_text_same(a.last().runs, b.last().runs);
        assert(same_paragraph_texts(a.drop_last(), b.drop_last())) by {
            assert forall|i: int| 0 <= i < a.drop_last().len() implies same_run_texts(#[trigger] a.drop_last()[i], b.drop_last()[i]) by {
                assert(same_run_texts(a[i], b[i]));
            }
        }
        lemma_paragraphs_text_same(a.drop_last(), b.drop_last());
    }
}

proof fn lemma_cells_text_same(a: Seq<TableCellView>, b: Seq<TableCellView>)
    requires
        same_cell_texts(a, b),
    ensures
        cells_text(a) == cells_text(b),
    decreases a.len(),
{
    if a.len() > 0 {
        assert(same_paragraph_texts(a[a.len() - 1].paragraphs, b[b.len() - 1].paragraphs));
        lemma_paragraphs_text_same(a.last().paragraphs, b.last().paragraphs);
        assert(same_cell_texts(a.drop_last(), b.drop_last())) by {
            assert forall|i: int| 0 <= i < a.drop_last().len() implies same_paragraph_texts(#[trigger] a.drop_last()[i].paragraphs, b.drop_last()[i].paragraphs) by {
                assert(same_paragraph_texts(a[i].paragraphs, b[i].paragraphs));
            }
        }
        lemma_cells_text_same(a.drop_last(), b.drop_last());
    }
}

proof fn lemma_rows_text_same(a: Seq<TableRowView>, b: Seq<TableRowView>)
    requires
        same_row_texts(a, b),
    ensures
        rows_text(a) == rows_text(b),
    decreases a.len(),
{
    if a.len() > 0 {
        assert(same_cell_texts(a[a.len() - 1].cells, b[b.len() - 1].cells));
        lemma_cells_text_same(a.last().cells, b.last().cells);
        assert(same_row_texts(a.drop_last(), b.drop_last())) by {
            assert forall|i: int| 0 <= i < a.drop_last().len() implies same_cell_texts(#[trigger] a.drop_last()[i].cells, b.drop_last()[i].cells) by {
                assert(same_cell_texts(a[i].cells, b[i].cells));
            }
        }
        lemma_rows_text_same(a.drop_last(), b.drop_last());
    }
}

proof fn lemma_tables_text_same(a: Seq<TableView>, b: Seq<TableView>)
    requires
        same_table_texts(a, b),
    ensures
        tables_text(a) == tables_text(b),
    decreases a.len(),
{
    if a.len() > 0 {
        assert(same_row_texts(a[a.len() - 1].rows, b[b.len() - 1].rows));
        lemma_rows_text_same(a.last().rows, b.last().rows);
        assert(same_table_texts(a.drop_last(), b.drop_last())) by {
            assert forall|i: int| 0 <= i < a.drop_last().len() implies same_row_texts(#[trigger] a.drop_last()[i].rows, b.drop_last()[i].rows) by {
                assert(same_row_texts(a[i].rows, b[i].rows));
            }
        }
        lemma_tables_text_same(a.drop_last(), b.drop_last());
    }
}

/// Formatting and style never change the text: two documents whose paragraphs, tables,
/// rows, cells and runs match one for one with the same run texts (whatever the bold,
/// italic and underline flags, styles, numbering, lists, headers, footers and notes)
/// have the same text.
pub proof fn law_text_ignores_formatting(d1: DocumentView, d2: DocumentView)
    requires
        same_paragraph_texts(d1.paragraphs, d2.paragraphs),
        same_table_texts(d1.tables, d2.tables),
    ensures
        d1.text() == d2.text(),
{
    lemma_paragraphs_text_same(d1.paragraphs, d2.paragraphs);
    lemma_tables_text_same(d1.tables, d2.tables);
}

} // verus!
