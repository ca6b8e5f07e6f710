//! The document model: paragraphs made of runs, tables of rows of cells, lists,
//! headers and footers, footnotes and endnotes; and the text a document yields.
use vstd::prelude::*;

verus! {

broadcast use vstd::string::group_string_axioms;

// ---------------------------------------------------------------------------------
// Mathematical values of the document types
// ---------------------------------------------------------------------------------

pub struct RunView {
    pub text: Seq<char>,
    pub bold: bool,
    pub italic: bool,
    pub underline: bool,
}

pub struct ParagraphView {
    pub runs: Seq<RunView>,
    pub style: Option<Seq<char>>,
    pub numbering_id: Option<i64>,
    pub numbering_level: Option<u32>,
}

pub struct TableCellView {
    pub paragraphs: Seq<ParagraphView>,
}

pub struct TableRowView {
    pub cells: Seq<TableCellView>,
}

pub struct TableView {
    pub rows: Seq<TableRowView>,
}

pub struct ListItemView {
    pub level: u32,
    pub list_type: ListType,
    pub number: Option<u32>,
    pub text: Seq<char>,
}

pub struct HeaderFooterView {
    pub paragraphs: Seq<ParagraphView>,
}

pub struct NoteView {
    pub id: Seq<char>,
    pub note_type: NoteType,
    pub paragraphs: Seq<ParagraphView>,
}

pub struct DocumentView {
    pub paragraphs: Seq<ParagraphView>,
    pub tables: Seq<TableView>,
    pub lists: Seq<ListItemView>,
    pub headers: Seq<HeaderFooterView>,
    pub footers: Seq<HeaderFooterView>,
    pub footnotes: Seq<NoteView>,
    pub endnotes: Seq<NoteView>,
}

// ---------------------------------------------------------------------------------
// The document types
// ---------------------------------------------------------------------------------

/// A stretch of text with one formatting.
#[derive(Debug, Clone)]
pub struct Run {
    pub text: String,
    pub bold: bool,
    pub italic: bool,
    pub underline: bool,
}

/// A paragraph: its runs, its style, and its list numbering if it is a list item.
#[derive(Debug, Clone)]
pub struct Paragraph {
    pub runs: Vec<Run>,
    pub style: Option<String>,
    pub numbering_id: Option<i64>,
    pub numbering_level: Option<u32>,
}

#[derive(Debug, Clone)]
pub struct Table {
    pub rows: Vec<TableRow>,
}

#[derive(Debug, Clone)]
pub struct TableRow {
    pub cells: Vec<TableCell>,
}

#[derive(Debug, Clone)]
pub struct TableCell {
    pub paragraphs: Vec<Paragraph>,
}

/// The kind of a list.
#[derive(Debug, Clone, Copy, PartialEq, Eq, Structural)]
pub enum ListType {
    Bullet,
    Numbered,
}

/// A paragraph of the body that belongs to a list.
#[derive(Debug, Clone)]
pub struct ListItem {
    pub level: u32,
    pub list_type: ListType,
    pub number: Option<u32>,
    pub text: String,
}

/// The paragraphs of one header or footer part.
#[derive(Debug, Clone)]
pub struct HeaderFooter {
    pub paragraphs: Vec<Paragraph>,
}

#[derive(Debug, Clone, Copy, PartialEq, Eq, Structural)]
pub enum NoteType {
    Footnote,
    Endnote,
}

/// A footnote or an endnote: its id and its paragraphs.
#[derive(Debug, Clone)]
pub struct Note {
    pub id: String,
    pub note_type: NoteType,
    pub paragraphs: Vec<Paragraph>,
}

/// A parsed DOCX document.
#[derive(Debug, Clone)]
pub struct Document {
    pub paragraphs: Vec<Paragraph>,
    pub tables: Vec<Table>,
    pub lists: Vec<ListItem>,
    pub headers: Vec<HeaderFooter>,
    pub footers: Vec<HeaderFooter>,
    pub footnotes: Vec<Note>,
    pub endnotes: Vec<Note>,
}

pub open spec fn opt_view<T: View>(o: Option<T>) -> Option<T::V> {
    match o {
        Some(t) => Some(t@),
        None => None,
    }
}

pub open spec fn option_string_view(o: Option<String>) -> Option<Seq<char>> {
    match o {
        Some(s) => Some(s@),
        None => None,
    }
}

impl View for Run {
    type V = RunView;

    open spec fn view(&self) -> RunView {
        RunView { text: self.text@, bold: self.bold, italic: self.italic, underline: self.underline }
    }
}

impl View for Paragraph {
    type V = ParagraphView;

    open spec fn view(&self) -> ParagraphView {
        ParagraphView {
            runs: self.runs@.map_values(|r: Run| r@),
            style: option_string_view(self.style),
            numbering_id: self.numbering_id,
            numbering_level: self.numbering_level,
        }
    }
}

pub open spec fn paragraphs_view(ps: Seq<Paragraph>) -> Seq<ParagraphView> {
    ps.map_values(|p: Paragraph| p@)
}

impl View for TableCell {
    type V = TableCellView;

    open spec fn view(&self) -> TableCellView {
        TableCellView { paragraphs: paragraphs_view(self.paragraphs@) }
    }
}

impl View for TableRow {
    type V = TableRowView;

    open spec fn view(&self) -> TableRowView {
        TableRowView { cells: self.cells@.map_values(|c: TableCell| c@) }
    }
}

impl View for Table {
    type V = TableView;

    open spec fn view(&self) -> TableView {
        TableView { rows: self.rows@.map_values(|r: TableRow| r@) }
    }
}

impl View for ListItem {
    type V = ListItemView;

    open spec fn view(&self) -> ListItemView {
        ListItemView {
            level: self.level,
            list_type: self.list_type,
            number: self.number,
            text: self.text@,
        }
    }
}

impl View for HeaderFooter {
    type V = HeaderFooterView;

    open spec fn view(&self) -> HeaderFooterView {
        HeaderFooterView { paragraphs: paragraphs_view(self.paragraphs@) }
    }
}

impl View for Note {
    type V = NoteView;

    open spec fn view(&self) -> NoteView {
        NoteView {
            id: self.id@,
            note_type: self.note_type,
            paragraphs: paragraphs_view(self.paragraphs@),
        }
    }
}

impl View for Document {
    type V = DocumentView;

    open spec fn view(&self) -> DocumentView {
        DocumentView {
            paragraphs: paragraphs_view(self.paragraphs@),
            tables: self.tables@.map_values(|t: Table| t@),
            lists: self.lists@.map_values(|l: ListItem| l@),
            headers: self.headers@.map_values(|h: HeaderFooter| h@),
            footers: self.footers@.map_values(|h: HeaderFooter| h@),
            footnotes: self.footnotes@.map_values(|n: Note| n@),
            endnotes: self.endnotes@.map_values(|n: Note| n@),
        }
    }
}

impl RunView {
    pub open spec fn plain(text: Seq<char>) -> RunView {
        RunView { text, bold: false, italic: false, underline: false }
    }
}

impl ParagraphView {
    pub open spec fn empty() -> ParagraphView {
        ParagraphView { runs: Seq::empty(), style: None, numbering_id: None, numbering_level: None }
    }

    /// The text of a paragraph: the texts of its runs, one after the other.
    pub open spec fn text(self) -> Seq<char> {
        runs_text(self.runs)
    }

    pub open spec fn with_run(self, r: RunView) -> ParagraphView {
        ParagraphView { runs: self.runs.push(r), ..self }
    }
}

impl DocumentView {
    pub open spec fn empty() -> DocumentView {
        DocumentView {
            paragraphs: Seq::empty(),
            tables: Seq::empty(),
            lists: Seq::empty(),
            headers: Seq::empty(),
            footers: Seq::empty(),
            footnotes: Seq::empty(),
            endnotes: Seq::empty(),
        }
    }

    /// The text of a document: each body paragraph that has text, then a newline;
    /// then each table.
    pub open spec fn text(self) -> Seq<char> {
        paragraphs_text(self.paragraphs) + tables_text(self.tables)
    }
}

// ---------------------------------------------------------------------------------
// Text of the parts of a document
// ---------------------------------------------------------------------------------

pub open spec fn runs_text(runs: Seq<RunView>) -> Seq<char>
    decreases runs.len(),
{
    if runs.len() == 0 {
        Seq::empty()
    } else {
        runs_text(runs.drop_last()) + runs.last().text
    }
}

/// A body paragraph contributes its text and a newline, or nothing when it has no text.
pub open spec fn paragraph_line(p: ParagraphView) -> Seq<char> {
    if p.text().len() > 0 {
        p.text() + seq!['\n']
    } else {
        Seq::empty()
    }
}

pub open spec fn paragraphs_text(ps: Seq<ParagraphView>) -> Seq<char>
    decreases ps.len(),
{
    if ps.len() == 0 {
        Seq::empty()
    } else {
        paragraphs_text(ps.drop_last()) + paragraph_line(ps.last())
    }
}

/// A paragraph of a cell contributes its text and a tab, or nothing when it has no text.
pub open spec fn cell_piece(p: ParagraphView) -> Seq<char> {
    if p.text().len() > 0 {
        p.text() + seq!['\t']
    } else {
        Seq::empty()
    }
}

pub open spec fn cell_text(ps: Seq<ParagraphView>) -> Seq<char>
    decreases ps.len(),
{
    if ps.len() == 0 {
        Seq::empty()
    } else {
        cell_text(ps.drop_last()) + cell_piece(ps.last())
    }
}

pub open spec fn cells_text(cells: Seq<TableCellView>) -> Seq<char>
    decreases cells.len(),
{
    if cells.len() == 0 {
        Seq::empty()
    } else {
        cells_text(cells.drop_last()) + cell_text(cells.last().paragraphs)
    }
}

/// A row: the pieces of its cells, then a newline.
pub open spec fn row_text(r: TableRowView) -> Seq<char> {
    cells_text(r.cells) + seq!['\n']
}

pub open spec fn rows_text(rows: Seq<TableRowView>) -> Seq<char>
    decreases rows.len(),
{
    if rows.len() == 0 {
        Seq::empty()
    } else {
        rows_text(rows.drop_last()) + row_text(rows.last())
    }
}

/// A table: its rows, then one more newline.
pub open spec fn table_text(t: TableView) -> Seq<char> {
    rows_text(t.rows) + seq!['\n']
}

pub open spec fn tables_text(ts: Seq<TableView>) -> Seq<char>
    decreases ts.len(),
{
    if ts.len() == 0 {
        Seq::empty()
    } else {
        tables_text(ts.drop_last()) + table_text(ts.last())
    }
}

/// Taking one more item of a sequence adds that item at the end: the step that unfolds
/// each of the text functions above, which are defined from the last item.
proof fn lemma_take_one_more<A>(s: Seq<A>, i: int)
    requires
        0 <= i < s.len(),
    ensures
        s.take(i + 1).drop_last() == s.take(i),
        s.take(i + 1).len() == i + 1,
        s.take(i + 1).last() == s[i],
{
    assert(s.take(i + 1).drop_last() =~= s.take(i));
}

// ---------------------------------------------------------------------------------
// Operations
// ---------------------------------------------------------------------------------

/// Appends `piece` and then one separator character to `text`.
fn append_with(text: &mut String, piece: &String, sep: &str)
    requires
        sep@.len() == 1,
    ensures
        final(text)@ == old(text)@ + piece@ + sep@,
{
    text.append(piece.as_str());
    text.append(sep);
}

/// Appends a newline.
fn append_newline(text: &mut String)
    ensures
        final(text)@ == old(text)@ + seq!['\n'],
{
    let nl = "\n";
    proof {
        reveal_strlit("\n");
    }
    text.append(nl);
}

/// The text of a cell's paragraphs, as `Document::extract_text` writes it.
fn cell_paragraphs_text(text: &mut String, ps: &Vec<Paragraph>)
    ensures
        final(text)@ == old(text)@ + cell_text(paragraphs_view(ps@)),
{
    let ghost pv = paragraphs_view(ps@);
    let ghost start = text@;
    let tab = "\t";
    proof {
        reveal_strlit("\t");
    }
    let mut i: usize = 0;
    while i < ps.len()
        invariant
            i <= ps.len(),
            pv == paragraphs_view(ps@),
            pv.len() == ps@.len(),
            tab@ == seq!['\t'],
            text@ == start + cell_text(pv.take(i as int)),
        decreases ps.len() - i,
    {
        let para_text = ps[i].to_text();
        proof {
            lemma_take_one_more(pv, i as int);
        }
        if para_text.as_str().unicode_len() != 0 {
            append_with(text, &para_text, tab);
        }
        i = i + 1;
    }
    assert(pv.take(ps.len() as int) =~= pv);
}

impl Run {
    /// A run with the given text and no formatting.
    pub fn new(text: String) -> (r: Run)
        ensures
            r@ == RunView::plain(text@),
    {
        Run { text, bold: false, italic: false, underline: false }
    }
}

impl Default for Run {
    fn default() -> (r: Run)
        ensures
            r@ == RunView::plain(Seq::empty()),
    {
        Run { text: String::new(), bold: false, italic: false, underline: false }
    }
}

impl Paragraph {
    /// An empty paragraph: no runs, no style, no numbering.
    pub fn new() -> (p: Paragraph)
        ensures
            p@ == ParagraphView::empty(),
    {
        let p = Paragraph { runs: Vec::new(), style: None, numbering_id: None, numbering_level: None };
        assert(p@.runs =~= Seq::<RunView>::empty());
        p
    }

    /// The paragraph's text: the texts of its runs, joined with nothing between them.
    pub fn to_text(&self) -> (s: String)
        ensures
            s@ == self@.text(),
    {
        let ghost rv = self@.runs;
        let mut text = String::new();
        let mut i: usize = 0;
        while i < self.runs.len()
            invariant
                i <= self.runs.len(),
                rv == self@.runs,
                rv.len() == self.runs@.len(),
                text@ == runs_text(rv.take(i as int)),
            decreases self.runs.len() - i,
        {
            proof {
                lemma_take_one_more(rv, i as int);
            }
            text.append(self.runs[i].text.as_str());
            i = i + 1;
        }
        assert(rv.take(self.runs.len() as int) =~= rv);
        text
    }

    /// Appends a run at the end of the paragraph.
    pub fn add_run(&mut self, run: Run)
        ensures
            final(self)@ == old(self)@.with_run(run@),
    {
        self.runs.push(run);
        assert(self@.runs =~= old(self)@.runs.push(run@));
    }
}

impl Default for Paragraph {
    fn default() -> (p: Paragraph)
        ensures
            p@ == ParagraphView::empty(),
    {
        Paragraph::new()
    }
}

impl Table {
    /// A table without rows.
    pub fn new() -> (t: Table)
        ensures
            t@.rows == Seq::<TableRowView>::empty(),
    {
        let t = Table { rows: Vec::new() };
        assert(t@.rows =~= Seq::<TableRowView>::empty());
        t
    }
}

impl Default for Table {
    fn default() -> (t: Table)
        ensures
            t@.rows == Seq::<TableRowView>::empty(),
    {
        Table::new()
    }
}

impl Default for TableRow {
    fn default() -> (r: TableRow)
        ensures
            r@.cells == Seq::<TableCellView>::empty(),
    {
        let r = TableRow { cells: Vec::new() };
        assert(r@.cells =~= Seq::<TableCellView>::empty());
        r
    }
}

impl Default for TableCell {
    fn default() -> (c: TableCell)
        ensures
            c@.paragraphs == Seq::<ParagraphView>::empty(),
    {
        let c = TableCell { paragraphs: Vec::new() };
        assert(c@.paragraphs =~= Seq::<ParagraphView>::empty());
        c
    }
}

impl Default for HeaderFooter {
    fn default() -> (h: HeaderFooter)
        ensures
            h@.paragraphs == Seq::<ParagraphView>::empty(),
    {
        let h = HeaderFooter { paragraphs: Vec::new() };
        assert(h@.paragraphs =~= Seq::<ParagraphView>::empty());
        h
    }
}

impl Document {
    /// A document with no content.
    pub fn new() -> (d: Document)
        ensures
            d@ == DocumentView::empty(),
    {
        let d = Document {
            paragraphs: Vec::new(),
            tables: Vec::new(),
            lists: Vec::new(),
            headers: Vec::new(),
            footers: Vec::new(),
            footnotes: Vec::new(),
            endnotes: Vec::new(),
        };
        assert(d@.paragraphs =~= Seq::<ParagraphView>::empty());
        assert(d@.tables =~= Seq::<TableView>::empty());
        assert(d@.lists =~= Seq::<ListItemView>::empty());
        assert(d@.headers =~= Seq::<HeaderFooterView>::empty());
        assert(d@.footers =~= Seq::<HeaderFooterView>::empty());
        assert(d@.footnotes =~= Seq::<NoteView>::empty());
        assert(d@.endnotes =~= Seq::<NoteView>::empty());
        d
    }

    /// The plain text of the document: every body paragraph with text followed by a
    /// newline; then, for each table, each row as the texts of its cell paragraphs, each
    /// followed by a tab, and a newline after the row; and a newline after the table.
    pub fn extract_text(&self) -> (s: String)
        ensures
            s@ == self@.text(),
    {
        let ghost dv = self@;
        let mut text = String::new();
        let mut i: usize = 0;
        while i < self.paragraphs.len()
            invariant
                i <= self.paragraphs.len(),
                dv == self@,
                dv.paragraphs.len() == self.paragraphs@.len(),
                text@ == paragraphs_text(dv.paragraphs.take(i as int)),
            decreases self.paragraphs.len() - i,
        {
            let para_text = self.paragraphs[i].to_text();
            proof {
                lemma_take_one_more(dv.paragraphs, i as int);
            }
            if para_text.as_str().unicode_len() != 0 {
                text.append(para_text.as_str());
                append_newline(&mut text);
            }
            i = i + 1;
        }
        assert(dv.paragraphs.take(self.paragraphs.len() as int) =~= dv.paragraphs);
        let ghost after_paragraphs = text@;
        let mut t: usize = 0;
        while t < self.tables.len()
            invariant
                t <= self.tables.len(),
                dv == self@,
                dv.tables.len() == self.tables@.len(),
                text@ == after_paragraphs + tables_text(dv.tables.take(t as int)),
            decreases self.tables.len() - t,
        {
            let table = &self.tables[t];
            let ghost tv = table@;
            assert(tv == dv.tables[t as int]);
            let ghost before_table = text@;
            let mut r: usize = 0;
            while r < table.rows.len()
                invariant
                    r <= table.rows.len(),
                    tv == table@,
                    tv.rows.len() == table.rows@.len(),
                    text@ == before_table + rows_text(tv.rows.take(r as int)),
                decreases table.rows.len() - r,
            {
                let row = &table.rows[r];
                let ghost rowv = row@;
                assert(rowv == tv.rows[r as int]);
                let ghost before_row = text@;
                let mut c: usize = 0;
                while c < row.cells.len()
                    invariant
                        c <= row.cells.len(),
                        rowv == row@,
                        rowv.cells.len() == row.cells@.len(),
                        text@ == before_row + cells_text(rowv.cells.take(c as int)),
                    decreases row.cells.len() - c,
                {
                    proof {
                        lemma_take_one_more(rowv.cells, c as int);
                    }
                    assert(row.cells@[c as int]@ == rowv.cells[c as int]);
                    cell_paragraphs_text(&mut text, &row.cells[c].paragraphs);
                    c = c + 1;
                }
                assert(rowv.cells.take(row.cells.len() as int) =~= rowv.cells);
                append_newline(&mut text);
                proof {
                    lemma_take_one_more(tv.rows, r as int);
                }
                r = r + 1;
            }
            assert(tv.rows.take(table.rows.len() as int) =~= tv.rows);
            append_newline(&mut text);
            proof {
                lemma_take_one_more(dv.tables, t as int);
            }
            t = t + 1;
        }
        assert(dv.tables.take(self.tables.len() as int) =~= dv.tables);
        text
    }
}

impl Default for Document {
    fn default() -> (d: Document)
        ensures
            d@ == DocumentView::empty(),
    {
        Document::new()
    }
}

} // verus!
