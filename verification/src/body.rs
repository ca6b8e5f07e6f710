//! Reading the body of a document (`word/document.xml`): paragraphs, runs and tables.
use vstd::prelude::*;
use crate::machine::{EventMachine, Flow, Step};
use crate::types::{
    opt_view, paragraphs_view, Paragraph, ParagraphView, Run, RunView, Table, TableCell,
    TableCellView, TableRow, TableRowView, TableView,
};
use crate::xml::{
    attr_value, level_spec, tag_fits, parse_i64, parse_i64_spec, parse_level, str_eq, tag_attr, xml_unescape,
    xml_unescaped, StartTag, XmlEvent, XmlItem,
};

verus! {

broadcast use vstd::string::group_string_axioms;

/// The state of the body reader (mathematical view).
pub struct BodyState {
    pub paragraphs: Seq<ParagraphView>,
    pub tables: Seq<TableView>,
    pub paragraph: Option<ParagraphView>,
    pub run: Option<RunView>,
    pub table: Option<TableView>,
    pub row: Option<TableRowView>,
    pub cell: Option<TableCellView>,
    pub in_text: bool,
    pub in_table: bool,
}

/// The state of the body reader: what has been read so far, and the elements that
/// are open.  Inside a table each paragraph of a cell belongs to the cell.
pub struct BodyParser {
    pub paragraphs: Vec<Paragraph>,
    pub tables: Vec<Table>,
    pub paragraph: Option<Paragraph>,
    pub run: Option<Run>,
    pub table: Option<Table>,
    pub row: Option<TableRow>,
    pub cell: Option<TableCell>,
    pub in_text: bool,
    pub in_table: bool,
}

impl View for BodyParser {
    type V = BodyState;

    open spec fn view(&self) -> BodyState {
        BodyState {
            paragraphs: paragraphs_view(self.paragraphs@),
            tables: self.tables@.map_values(|t: Table| t@),
            paragraph: opt_view(self.paragraph),
            run: opt_view(self.run),
            table: opt_view(self.table),
            row: opt_view(self.row),
            cell: opt_view(self.cell),
            in_text: self.in_text,
            in_table: self.in_table,
        }
    }
}

impl BodyState {
    pub open spec fn initial() -> BodyState {
        BodyState {
            paragraphs: Seq::empty(),
            tables: Seq::empty(),
            paragraph: None,
            run: None,
            table: None,
            row: None,
            cell: None,
            in_text: false,
            in_table: false,
        }
    }
}

pub open spec fn empty_cell() -> TableCellView {
    TableCellView { paragraphs: Seq::empty() }
}

pub open spec fn empty_row() -> TableRowView {
    TableRowView { cells: Seq::empty() }
}

pub open spec fn empty_table() -> TableView {
    TableView { rows: Seq::empty() }
}

/// A run that ends inside a cell joins the cell's last paragraph, which is created
/// when the cell has none.
pub open spec fn cell_add_run(c: TableCellView, r: RunView) -> TableCellView {
    if c.paragraphs.len() == 0 {
        TableCellView { paragraphs: seq![ParagraphView::empty().with_run(r)] }
    } else {
        TableCellView {
            paragraphs: c.paragraphs.drop_last().push(c.paragraphs.last().with_run(r)),
        }
    }
}

/// A paragraph inside a table belongs to the open cell (which it opens when none is):
/// it gives the cell its paragraph when the cell has none yet, and otherwise changes
/// nothing, so that all the runs of a cell join one paragraph.
pub open spec fn cell_add_paragraph(c: Option<TableCellView>) -> TableCellView {
    let cell = match c {
        Some(c) => c,
        None => empty_cell(),
    };
    if cell.paragraphs.len() == 0 {
        TableCellView { paragraphs: seq![ParagraphView::empty()] }
    } else {
        cell
    }
}

/// The effect of an opening tag on the numbering of the open paragraph: `w:numPr` makes
/// it a list paragraph at level 0 until `w:ilvl` says otherwise; `w:ilvl` and `w:numId`
/// set the level and the numbering id from their `w:val`.
pub open spec fn numbering_start(p: ParagraphView, name: Seq<char>, content: Seq<char>, name_len: nat) -> ParagraphView {
    if name == "w:numPr"@ {
        ParagraphView { numbering_level: Some(0), ..p }
    } else if name == "w:ilvl"@ {
        match attr_value(content, name_len, "w:val"@) {
            Some(v) => ParagraphView { numbering_level: level_spec(v), ..p },
            None => p,
        }
    } else {
        match attr_value(content, name_len, "w:val"@) {
            Some(v) => ParagraphView { numbering_id: parse_i64_spec(v), ..p },
            None => p,
        }
    }
}

pub open spec fn is_numbering_tag(name: Seq<char>) -> bool {
    name == "w:numPr"@ || name == "w:ilvl"@ || name == "w:numId"@
}

pub open spec fn map_run(r: Option<RunView>, f: spec_fn(RunView) -> RunView) -> Option<RunView> {
    match r {
        Some(x) => Some(f(x)),
        None => None,
    }
}

/// The effect of an opening tag.
pub open spec fn body_start(s: BodyState, name: Seq<char>, content: Seq<char>, name_len: nat) -> BodyState {
    if name == "w:b"@ {
        BodyState { run: map_run(s.run, |r: RunView| RunView { bold: true, ..r }), ..s }
    } else if name == "w:i"@ {
        BodyState { run: map_run(s.run, |r: RunView| RunView { italic: true, ..r }), ..s }
    } else if name == "w:u"@ {
        BodyState { run: map_run(s.run, |r: RunView| RunView { underline: true, ..r }), ..s }
    } else if name == "w:p"@ {
        if s.in_table {
            BodyState { cell: Some(cell_add_paragraph(s.cell)), ..s }
        } else {
            BodyState { paragraph: Some(ParagraphView::empty()), ..s }
        }
    } else if is_numbering_tag(name) {
        match s.paragraph {
            Some(p) => BodyState { paragraph: Some(numbering_start(p, name, content, name_len)), ..s },
            None => s,
        }
    } else if name == "w:r"@ {
        BodyState { run: Some(RunView::plain(Seq::empty())), ..s }
    } else if name == "w:t"@ {
        BodyState { in_text: true, ..s }
    } else if name == "w:tbl"@ {
        BodyState { in_table: true, table: Some(empty_table()), ..s }
    } else if name == "w:tr"@ {
        BodyState { row: Some(empty_row()), ..s }
    } else if name == "w:tc"@ {
        BodyState { cell: Some(empty_cell()), ..s }
    } else {
        s
    }
}

/// The elements that say all they mean in their tag: run formatting (`w:b`, `w:i`,
/// `w:u`) and the values of a list paragraph (`w:ilvl`, `w:numId`).
pub open spec fn is_value_tag(name: Seq<char>) -> bool {
    name == "w:b"@ || name == "w:i"@ || name == "w:u"@ || name == "w:ilvl"@ || name == "w:numId"@
}

/// The effect of an element written without content (`<w:b/>`): a value tag acts as its
/// opening tag does; any other one (a self-closing paragraph, run, table, row or cell)
/// adds nothing.
pub open spec fn body_empty(s: BodyState, name: Seq<char>, content: Seq<char>, name_len: nat) -> BodyState {
    if is_value_tag(name) {
        body_start(s, name, content, name_len)
    } else {
        s
    }
}

/// The effect of a closing tag.
pub open spec fn body_end(s: BodyState, name: Seq<char>) -> BodyState {
    if name == "w:t"@ {
        BodyState { in_text: false, ..s }
    } else if name == "w:r"@ {
        match s.run {
            None => s,
            Some(r) => {
                if s.in_table {
                    match s.cell {
                        Some(c) => BodyState { run: None, cell: Some(cell_add_run(c, r)), ..s },
                        None => BodyState { run: None, ..s },
                    }
                } else {
                    match s.paragraph {
                        Some(p) => BodyState { run: None, paragraph: Some(p.with_run(r)), ..s },
                        None => BodyState { run: None, ..s },
                    }
                }
            },
        }
    } else if name == "w:p"@ {
        if s.in_table {
            s
        } else {
            match s.paragraph {
                Some(p) => BodyState { paragraph: None, paragraphs: s.paragraphs.push(p), ..s },
                None => s,
            }
        }
    } else if name == "w:tc"@ {
        match s.cell {
            Some(c) => BodyState {
                cell: None,
                row: match s.row {
                    Some(r) => Some(TableRowView { cells: r.cells.push(c) }),
                    None => None,
                },
                ..s
            },
            None => s,
        }
    } else if name == "w:tr"@ {
        match s.row {
            Some(r) => BodyState {
                row: None,
                table: match s.table {
                    Some(t) => Some(TableView { rows: t.rows.push(r) }),
                    None => None,
                },
                ..s
            },
            None => s,
        }
    } else if name == "w:tbl"@ {
        match s.table {
            Some(t) => BodyState { in_table: false, table: None, tables: s.tables.push(t), ..s },
            None => BodyState { in_table: false, ..s },
        }
    } else {
        s
    }
}

/// The effect of one event on the body reader: text is unescaped and appended to the
/// open run only inside `w:t`; a tokenizer error or a bad escape stops it with failure.
pub open spec fn body_step(s: BodyState, ev: XmlItem) -> Step<BodyState> {
    match ev {
        XmlItem::Start { name, content, name_len } => Step::Next(body_start(s, name, content, name_len)),
        XmlItem::Empty { name, content, name_len } => Step::Next(body_empty(s, name, content, name_len)),
        XmlItem::End { name } => Step::Next(body_end(s, name)),
        XmlItem::Text { raw } => {
            if s.in_text && s.run is Some {
                match xml_unescaped(raw) {
                    Ok(t) => Step::Next(
                        BodyState { run: Some(RunView { text: s.run->0.text + t, ..s.run->0 }), ..s },
                    ),
                    Err(m) => Step::Fail(s, m),
                }
            } else {
                Step::Next(s)
            }
        },
        XmlItem::Eof => Step::Stop(s),
        XmlItem::Failed { msg } => Step::Fail(s, msg),
        XmlItem::Other => Step::Next(s),
    }
}

impl BodyParser {
    pub fn new() -> (b: BodyParser)
        ensures
            b@ == BodyState::initial(),
    {
        let b = BodyParser {
            paragraphs: Vec::new(),
            tables: Vec::new(),
            paragraph: None,
            run: None,
            table: None,
            row: None,
            cell: None,
            in_text: false,
            in_table: false,
        };
        assert(b@.paragraphs =~= Seq::<ParagraphView>::empty());
        assert(b@.tables =~= Seq::<TableView>::empty());
        b
    }

    fn start(&mut self, tag: &StartTag)
        requires
            tag_fits(tag.content@, tag.name_len as nat),
        ensures
            final(self)@ == body_start(old(self)@, tag.name@, tag.content@, tag.name_len as nat),
    {
        let name = tag.name.as_str();
        if str_eq(name, "w:b") {
            match self.run.take() {
                Some(mut r) => {
                    r.bold = true;
                    self.run = Some(r);
                },
                None => {},
            }
        } else if str_eq(name, "w:i") {
            match self.run.take() {
                Some(mut r) => {
                    r.italic = true;
                    self.run = Some(r);
                },
                None => {},
            }
        } else if str_eq(name, "w:u") {
            match self.run.take() {
                Some(mut r) => {
                    r.underline = true;
                    self.run = Some(r);
                },
                None => {},
            }
        } else if str_eq(name, "w:p") {
            if self.in_table {
                let mut cell = match self.cell.take() {
                    Some(c) => c,
                    None => TableCell::default(),
                };
                if cell.paragraphs.len() == 0 {
                    cell.paragraphs.push(Paragraph::new());
                    assert(cell@.paragraphs =~= seq![ParagraphView::empty()]);
                }
                self.cell = Some(cell);
            } else {
                self.paragraph = Some(Paragraph::new());
            }
        } else if str_eq(name, "w:numPr") || str_eq(name, "w:ilvl") || str_eq(name, "w:numId") {
            match self.paragraph.take() {
                Some(mut p) => {
                    if str_eq(name, "w:numPr") {
                        p.numbering_level = Some(0);
                    } else if str_eq(name, "w:ilvl") {
                        match tag_attr(tag, "w:val") {
                            Some(v) => {
                                p.numbering_level = parse_level(v.as_str());
                            },
                            None => {},
                        }
                    } else {
                        match tag_attr(tag, "w:val") {
                            Some(v) => {
                                p.numbering_id = parse_i64(v.as_str());
                            },
                            None => {},
                        }
                    }
                    self.paragraph = Some(p);
                },
                None => {},
            }
        } else if str_eq(name, "w:r") {
            self.run = Some(Run::default());
        } else if str_eq(name, "w:t") {
            self.in_text = true;
        } else if str_eq(name, "w:tbl") {
            self.in_table = true;
            self.table = Some(Table::new());
            assert(self@.table == Some(empty_table()));
        } else if str_eq(name, "w:tr") {
            self.row = Some(TableRow::default());
            assert(self@.row == Some(empty_row()));
        } else if str_eq(name, "w:tc") {
            self.cell = Some(TableCell::default());
            assert(self@.cell == Some(empty_cell()));
        }
    }

    fn end(&mut self, name: &str)
        ensures
            final(self)@ == body_end(old(self)@, name@),
    {
        if str_eq(name, "w:t") {
            self.in_text = false;
        } else if str_eq(name, "w:r") {
            match self.run.take() {
                None => {},
                Some(run) => {
                    if self.in_table {
                        match self.cell.take() {
                            Some(mut cell) => {
                                let ghost cv = cell@;
                                if cell.paragraphs.len() == 0 {
                                    cell.paragraphs.push(Paragraph::new());
                                }
                                let mut p = cell.paragraphs.pop().unwrap();
                                let ghost last = p@;
                                p.add_run(run);
                                cell.paragraphs.push(p);
                                proof {
                                    if cv.paragraphs.len() == 0 {
                                        assert(cell@.paragraphs =~= seq![ParagraphView::empty().with_run(run@)]);
                                    } else {
                                        assert(last == cv.paragraphs.last());
                                        assert(cell@.paragraphs =~= cv.paragraphs.drop_last().push(
                                            cv.paragraphs.last().with_run(run@),
                                        ));
                                    }
                                }
                                self.cell = Some(cell);
                            },
                            None => {},
                        }
                    } else {
                        match self.paragraph.take() {
                            Some(mut p) => {
                                p.add_run(run);
                                self.paragraph = Some(p);
                            },
                            None => {},
                        }
                    }
                },
            }
        } else if str_eq(name, "w:p") {
            if !self.in_table {
                match self.paragraph.take() {
                    Some(p) => {
                        self.paragraphs.push(p);
                        assert(self@.paragraphs =~= old(self)@.paragraphs.push(p@));
                    },
                    None => {},
                }
            }
        } else if str_eq(name, "w:tc") {
            match self.cell.take() {
                Some(c) => {
                    match self.row.take() {
                        Some(mut r) => {
                            r.cells.push(c);
                            assert(r@.cells =~= old(self)@.row->0.cells.push(c@));
                            self.row = Some(r);
                        },
                        None => {},
                    }
                },
                None => {},
            }
        } else if str_eq(name, "w:tr") {
            match self.row.take() {
                Some(r) => {
                    match self.table.take() {
                        Some(mut t) => {
                            t.rows.push(r);
                            assert(t@.rows =~= old(self)@.table->0.rows.push(r@));
                            self.table = Some(t);
                        },
                        None => {},
                    }
                },
                None => {},
            }
        } else if str_eq(name, "w:tbl") {
            self.in_table = false;
            match self.table.take() {
                Some(t) => {
                    self.tables.push(t);
                    assert(self@.tables =~= old(self)@.tables.push(t@));
                },
                None => {},
            }
        }
    }
}

impl EventMachine for BodyParser {
    open spec fn step_spec(s: BodyState, ev: XmlItem) -> Step<BodyState> {
        body_step(s, ev)
    }

    proof fn lemma_eof_stops(s: BodyState) {
    }

    fn step(&mut self, ev: &XmlEvent) -> (f: Flow) {
        match ev {
            XmlEvent::Start(tag) => {
                self.start(tag);
                Flow::Continue
            },
            XmlEvent::Empty(tag) => {
                let name = tag.name.as_str();
                if str_eq(name, "w:b") || str_eq(name, "w:i") || str_eq(name, "w:u") || str_eq(name, "w:ilvl")
                    || str_eq(name, "w:numId") {
                    self.start(tag);
                }
                Flow::Continue
            },
            XmlEvent::End(name) => {
                self.end(name.as_str());
                Flow::Continue
            },
            XmlEvent::Text(raw) => {
                if self.in_text {
                    match self.run.take() {
                        Some(mut run) => {
                            match xml_unescape(raw.as_str()) {
                                Ok(t) => {
                                    run.text.append(t.as_str());
                                    self.run = Some(run);
                                    Flow::Continue
                                },
                                Err(m) => {
                                    self.run = Some(run);
                                    Flow::Abort(m)
                                },
                            }
                        },
                        None => Flow::Continue,
                    }
                } else {
                    Flow::Continue
                }
            },
            XmlEvent::Eof => Flow::Finish,
            XmlEvent::Failed(m) => Flow::Abort(m.clone()),
            XmlEvent::Other => Flow::Continue,
        }
    }
}

} // verus!
