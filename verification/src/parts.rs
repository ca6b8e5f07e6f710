//! Reading the optional parts of a document: the numbering definitions
//! (`word/numbering.xml`), headers and footers, footnotes and endnotes.
use vstd::prelude::*;
use std::collections::HashMap;
use crate::machine::{EventMachine, Flow, Step};
use crate::types::{
    opt_view, paragraphs_view, ListType, Note, NoteType, NoteView, Paragraph, ParagraphView, Run,
    RunView,
};
use crate::xml::{
    attr_value, level_spec, parse_i64, parse_i64_spec, parse_level, str_eq, tag_attr, tag_fits,
    xml_unescape, xml_unescaped, StartTag, XmlEvent, XmlItem,
};

verus! {

broadcast use {vstd::string::group_string_axioms, vstd::std_specs::hash::group_hash_axioms};

// ---------------------------------------------------------------------------------
// Text of runs, shared by headers, footers and notes
// ---------------------------------------------------------------------------------

/// The effect of character data on the open run: inside `w:t` it is unescaped and
/// appended; a bad escape is a failure.
pub open spec fn run_text_step(in_text: bool, run: Option<RunView>, raw: Seq<char>) -> Step<Option<RunView>> {
    if in_text && run is Some {
        match xml_unescaped(raw) {
            Ok(t) => Step::Next(Some(RunView { text: run->0.text + t, ..run->0 })),
            Err(m) => Step::Fail(run, m),
        }
    } else {
        Step::Next(run)
    }
}

fn add_text(in_text: bool, run: &mut Option<Run>, raw: &String) -> (f: Flow)
    ensures
        run_text_step(in_text, opt_view(*old(run)), raw@) == (match f {
            Flow::Continue => Step::Next(opt_view(*final(run))),
            Flow::Finish => Step::Stop(opt_view(*final(run))),
            Flow::Abort(m) => Step::Fail(opt_view(*final(run)), m@),
        }),
{
    if in_text {
        match run.take() {
            Some(mut r) => {
                match xml_unescape(raw.as_str()) {
                    Ok(t) => {
                        r.text.append(t.as_str());
                        *run = Some(r);
                        Flow::Continue
                    },
                    Err(m) => {
                        *run = Some(r);
                        Flow::Abort(m)
                    },
                }
            },
            None => Flow::Continue,
        }
    } else {
        Flow::Continue
    }
}

/// Closes the open run: it joins the open paragraph, if there is one.
pub open spec fn close_run(paragraph: Option<ParagraphView>, run: Option<RunView>) -> Option<ParagraphView> {
    match (paragraph, run) {
        (Some(p), Some(r)) => Some(p.with_run(r)),
        _ => paragraph,
    }
}

fn close_run_exec(paragraph: &mut Option<Paragraph>, run: &mut Option<Run>)
    ensures
        opt_view(*final(paragraph)) == close_run(opt_view(*old(paragraph)), opt_view(*old(run))),
        *final(run) is None,
{
    match run.take() {
        Some(r) => {
            match paragraph.take() {
                Some(mut p) => {
                    p.add_run(r);
                    *paragraph = Some(p);
                },
                None => {},
            }
        },
        None => {},
    }
}

// ---------------------------------------------------------------------------------
// Numbering definitions
// ---------------------------------------------------------------------------------

/// The list type of one level of an abstract numbering definition.
#[derive(Debug, Clone, Copy)]
pub struct LevelFormat {
    pub abstract_id: i64,
    pub level: u32,
    pub list_type: ListType,
}

pub struct NumberingState {
    /// `w:num` definitions: numbering id to abstract numbering id.
    pub nums: Map<i64, i64>,
    /// The `w:numFmt` of each level of each `w:abstractNum`, in document order.
    pub formats: Seq<LevelFormat>,
    pub current_num: Option<i64>,
    pub current_abstract: Option<i64>,
    pub current_level: Option<u32>,
}

/// Reads the numbering definitions: each `w:num` with a numeric `w:numId` refers to a
/// `w:abstractNum`, whose levels (`w:lvl`) give their list format (`w:numFmt`).
pub struct NumberingParser {
    pub nums: HashMap<i64, i64>,
    pub formats: Vec<LevelFormat>,
    pub current_num: Option<i64>,
    pub current_abstract: Option<i64>,
    pub current_level: Option<u32>,
}

impl View for NumberingParser {
    type V = NumberingState;

    open spec fn view(&self) -> NumberingState {
        NumberingState {
            nums: self.nums@,
            formats: self.formats@,
            current_num: self.current_num,
            current_abstract: self.current_abstract,
            current_level: self.current_level,
        }
    }
}

/// A `w:numFmt` value: `bullet` (and `none`, which shows no number) make a bullet list,
/// every other format (`decimal`, `lowerLetter`, `upperRoman`, ...) a numbered list.
pub open spec fn format_type(v: Seq<char>) -> ListType {
    if v == "bullet"@ || v == "none"@ {
        ListType::Bullet
    } else {
        ListType::Numbered
    }
}

/// A numeric attribute: `None` when it is absent or not an `i64`.
pub open spec fn numeric_attr(content: Seq<char>, name_len: nat, key: Seq<char>) -> Option<i64> {
    match attr_value(content, name_len, key) {
        Some(v) => parse_i64_spec(v),
        None => None,
    }
}

pub open spec fn numbering_start(s: NumberingState, name: Seq<char>, content: Seq<char>, name_len: nat) -> NumberingState {
    if name == "w:abstractNum"@ {
        NumberingState { current_abstract: numeric_attr(content, name_len, "w:abstractNumId"@), ..s }
    } else if name == "w:lvl"@ {
        NumberingState {
            current_level: match attr_value(content, name_len, "w:ilvl"@) {
                Some(v) => level_spec(v),
                None => None,
            },
            ..s
        }
    } else if name == "w:numFmt"@ {
        match (s.current_abstract, s.current_level, attr_value(content, name_len, "w:val"@)) {
            (Some(a), Some(l), Some(v)) => NumberingState {
                formats: s.formats.push(LevelFormat { abstract_id: a, level: l, list_type: format_type(v) }),
                ..s
            },
            _ => s,
        }
    } else if name == "w:num"@ {
        NumberingState {
            current_num: match attr_value(content, name_len, "w:numId"@) {
                Some(v) => parse_i64_spec(v),
                None => s.current_num,
            },
            ..s
        }
    } else if name == "w:abstractNumId"@ {
        match (s.current_num, numeric_attr(content, name_len, "w:val"@)) {
            (Some(n), Some(a)) => NumberingState { nums: s.nums.insert(n, a), ..s },
            _ => s,
        }
    } else {
        s
    }
}

pub open spec fn numbering_end(s: NumberingState, name: Seq<char>) -> NumberingState {
    if name == "w:abstractNum"@ {
        NumberingState { current_abstract: None, current_level: None, ..s }
    } else if name == "w:lvl"@ {
        NumberingState { current_level: None, ..s }
    } else if name == "w:num"@ {
        NumberingState { current_num: None, ..s }
    } else {
        s
    }
}

/// The numbering elements that say all they mean in their tag, and are written
/// self-closing: a level's format and a numbering's abstract numbering.
pub open spec fn is_numbering_value_tag(name: Seq<char>) -> bool {
    name == "w:numFmt"@ || name == "w:abstractNumId"@
}

/// Tokenizer errors and text are passed over.  An element written without content acts
/// as its opening tag does when it is a value tag, and is passed over otherwise.
pub open spec fn numbering_step(s: NumberingState, ev: XmlItem) -> Step<NumberingState> {
    match ev {
        XmlItem::Start { name, content, name_len } => Step::Next(numbering_start(s, name, content, name_len)),
        XmlItem::Empty { name, content, name_len } => if is_numbering_value_tag(name) {
            Step::Next(numbering_start(s, name, content, name_len))
        } else {
            Step::Next(s)
        },
        XmlItem::End { name } => Step::Next(numbering_end(s, name)),
        XmlItem::Eof => Step::Stop(s),
        _ => Step::Next(s),
    }
}

/// The format of level `l` of abstract numbering `a`: the last one given for it.
pub open spec fn format_of(formats: Seq<LevelFormat>, a: i64, l: u32) -> Option<ListType>
    decreases formats.len(),
{
    if formats.len() == 0 {
        None
    } else if formats.last().abstract_id == a && formats.last().level == l {
        Some(formats.last().list_type)
    } else {
        format_of(formats.drop_last(), a, l)
    }
}

/// The list type of level `l` of numbering `id`: the format of that level of the
/// abstract numbering that `id` refers to; a bullet list when there is none.
pub open spec fn list_type_spec(defs: NumberingState, id: i64, l: u32) -> ListType {
    if defs.nums.contains_key(id) {
        match format_of(defs.formats, defs.nums[id], l) {
            Some(t) => t,
            None => ListType::Bullet,
        }
    } else {
        ListType::Bullet
    }
}

fn numeric_attr_exec(tag: &StartTag, key: &str) -> (r: Option<i64>)
    requires
        tag_fits(tag.content@, tag.name_len as nat),
    ensures
        r == numeric_attr(tag.content@, tag.name_len as nat, key@),
{
    match tag_attr(tag, key) {
        Some(v) => parse_i64(v.as_str()),
        None => None,
    }
}

impl NumberingParser {
    pub open spec fn initial() -> NumberingState {
        NumberingState {
            nums: Map::empty(),
            formats: Seq::empty(),
            current_num: None,
            current_abstract: None,
            current_level: None,
        }
    }

    pub fn new() -> (n: NumberingParser)
        ensures
            n@ == Self::initial(),
    {
        let n = NumberingParser {
            nums: HashMap::new(),
            formats: Vec::new(),
            current_num: None,
            current_abstract: None,
            current_level: None,
        };
        assert(n@.formats =~= Seq::<LevelFormat>::empty());
        n
    }

    /// The list type of level `level` of numbering `id`.
    pub fn list_type(&self, id: i64, level: u32) -> (t: ListType)
        ensures
            t == list_type_spec(self@, id, level),
    {
        match self.nums.get(&id) {
            None => ListType::Bullet,
            Some(a) => {
                let a = *a;
                let mut i = self.formats.len();
                assert(self@.formats.take(i as int) =~= self@.formats);
                while i > 0
                    invariant
                        i <= self.formats.len(),
                        a == self@.nums[id],
                        self@.nums.contains_key(id),
                        format_of(self@.formats, a, level) == format_of(self@.formats.take(i as int), a, level),
                    decreases i,
                {
                    let f = self.formats[i - 1];
                    assert(self@.formats.take(i as int).drop_last() =~= self@.formats.take(i - 1));
                    if f.abstract_id == a && f.level == level {
                        return f.list_type;
                    }
                    i = i - 1;
                }
                ListType::Bullet
            },
        }
    }

    fn start(&mut self, tag: &StartTag)
        requires
            tag_fits(tag.content@, tag.name_len as nat),
        ensures
            final(self)@ == numbering_start(old(self)@, tag.name@, tag.content@, tag.name_len as nat),
    {
        let name = tag.name.as_str();
        if str_eq(name, "w:abstractNum") {
            self.current_abstract = numeric_attr_exec(tag, "w:abstractNumId");
        } else if str_eq(name, "w:lvl") {
            self.current_level = match tag_attr(tag, "w:ilvl") {
                Some(v) => parse_level(v.as_str()),
                None => None,
            };
        } else if str_eq(name, "w:numFmt") {
            match (self.current_abstract, self.current_level, tag_attr(tag, "w:val")) {
                (Some(a), Some(l), Some(v)) => {
                    let bullet = str_eq(v.as_str(), "bullet") || str_eq(v.as_str(), "none");
                    let list_type = if bullet {
                        ListType::Bullet
                    } else {
                        ListType::Numbered
                    };
                    let ghost before = self@.formats;
                    self.formats.push(LevelFormat { abstract_id: a, level: l, list_type });
                    assert(self@.formats =~= before.push(LevelFormat { abstract_id: a, level: l, list_type }));
                },
                _ => {},
            }
        } else if str_eq(name, "w:num") {
            match tag_attr(tag, "w:numId") {
                Some(v) => {
                    self.current_num = parse_i64(v.as_str());
                },
                None => {},
            }
        } else if str_eq(name, "w:abstractNumId") {
            match (self.current_num, numeric_attr_exec(tag, "w:val")) {
                (Some(n), Some(a)) => {
                    self.nums.insert(n, a);
                },
                _ => {},
            }
        }
    }

    fn end(&mut self, name: &str)
        ensures
            final(self)@ == numbering_end(old(self)@, name@),
    {
        if str_eq(name, "w:abstractNum") {
            self.current_abstract = None;
            self.current_level = None;
        } else if str_eq(name, "w:lvl") {
            self.current_level = None;
        } else if str_eq(name, "w:num") {
            self.current_num = None;
        }
    }
}

impl EventMachine for NumberingParser {
    open spec fn step_spec(s: NumberingState, ev: XmlItem) -> Step<NumberingState> {
        numbering_step(s, ev)
    }

    proof fn lemma_eof_stops(s: NumberingState) {
    }

    fn step(&mut self, ev: &XmlEvent) -> (f: Flow) {
        match ev {
            XmlEvent::Start(tag) => {
                self.start(tag);
                Flow::Continue
            },
            XmlEvent::Empty(tag) => {
                let name = tag.name.as_str();
                if str_eq(name, "w:numFmt") || str_eq(name, "w:abstractNumId") {
                    self.start(tag);
                }
                Flow::Continue
            },
            XmlEvent::End(name) => {
                self.end(name.as_str());
                Flow::Continue
            },
            XmlEvent::Eof => Flow::Finish,
            _ => Flow::Continue,
        }
    }
}

// ---------------------------------------------------------------------------------
// Headers and footers
// ---------------------------------------------------------------------------------

pub struct HeaderFooterState {
    pub paragraphs: Seq<ParagraphView>,
    pub paragraph: Option<ParagraphView>,
    pub run: Option<RunView>,
    pub in_text: bool,
}

/// Reads the paragraphs of a header or footer part.
pub struct HeaderFooterParser {
    pub paragraphs: Vec<Paragraph>,
    pub paragraph: Option<Paragraph>,
    pub run: Option<Run>,
    pub in_text: bool,
}

impl View for HeaderFooterParser {
    type V = HeaderFooterState;

    open spec fn view(&self) -> HeaderFooterState {
        HeaderFooterState {
            paragraphs: paragraphs_view(self.paragraphs@),
            paragraph: opt_view(self.paragraph),
            run: opt_view(self.run),
            in_text: self.in_text,
        }
    }
}

/// Tokenizer errors are passed over; only a bad escape in a text stops the reading.
pub open spec fn header_footer_step(s: HeaderFooterState, ev: XmlItem) -> Step<HeaderFooterState> {
    match ev {
        XmlItem::Start { name, .. } => if name == "w:p"@ {
            Step::Next(HeaderFooterState { paragraph: Some(ParagraphView::empty()), ..s })
        } else if name == "w:r"@ {
            Step::Next(HeaderFooterState { run: Some(RunView::plain(Seq::empty())), ..s })
        } else if name == "w:t"@ {
            Step::Next(HeaderFooterState { in_text: true, ..s })
        } else {
            Step::Next(s)
        },
        XmlItem::Text { raw } => match run_text_step(s.in_text, s.run, raw) {
            Step::Next(r) => Step::Next(HeaderFooterState { run: r, ..s }),
            Step::Stop(r) => Step::Stop(HeaderFooterState { run: r, ..s }),
            Step::Fail(r, m) => Step::Fail(HeaderFooterState { run: r, ..s }, m),
        },
        XmlItem::End { name } => if name == "w:t"@ {
            Step::Next(HeaderFooterState { in_text: false, ..s })
        } else if name == "w:r"@ {
            Step::Next(
                HeaderFooterState { paragraph: close_run(s.paragraph, s.run), run: None, ..s },
            )
        } else if name == "w:p"@ {
            match s.paragraph {
                Some(p) => Step::Next(
                    HeaderFooterState { paragraph: None, paragraphs: s.paragraphs.push(p), ..s },
                ),
                None => Step::Next(s),
            }
        } else {
            Step::Next(s)
        },
        XmlItem::Eof => Step::Stop(s),
        _ => Step::Next(s),
    }
}

impl HeaderFooterParser {
    pub fn new() -> (h: HeaderFooterParser)
        ensures
            h@ == (HeaderFooterState {
                paragraphs: Seq::empty(),
                paragraph: None,
                run: None,
                in_text: false,
            }),
    {
        let h = HeaderFooterParser { paragraphs: Vec::new(), paragraph: None, run: None, in_text: false };
        assert(h@.paragraphs =~= Seq::<ParagraphView>::empty());
        h
    }
}

impl EventMachine for HeaderFooterParser {
    open spec fn step_spec(s: HeaderFooterState, ev: XmlItem) -> Step<HeaderFooterState> {
        header_footer_step(s, ev)
    }

    proof fn lemma_eof_stops(s: HeaderFooterState) {
    }

    fn step(&mut self, ev: &XmlEvent) -> (f: Flow) {
        match ev {
            XmlEvent::Start(tag) => {
                let name = tag.name.as_str();
                if str_eq(name, "w:p") {
                    self.paragraph = Some(Paragraph::new());
                } else if str_eq(name, "w:r") {
                    self.run = Some(Run::default());
                } else if str_eq(name, "w:t") {
                    self.in_text = true;
                }
                Flow::Continue
            },
            XmlEvent::Text(raw) => add_text(self.in_text, &mut self.run, raw),
            XmlEvent::End(name) => {
                let name = name.as_str();
                if str_eq(name, "w:t") {
                    self.in_text = false;
                } else if str_eq(name, "w:r") {
                    close_run_exec(&mut self.paragraph, &mut self.run);
                } else if str_eq(name, "w:p") {
                    match self.paragraph.take() {
                        Some(p) => {
                            self.paragraphs.push(p);
                            assert(self@.paragraphs =~= old(self)@.paragraphs.push(p@));
                        },
                        None => {},
                    }
                }
                Flow::Continue
            },
            XmlEvent::Eof => Flow::Finish,
            _ => Flow::Continue,
        }
    }
}

// ---------------------------------------------------------------------------------
// Footnotes and endnotes
// ---------------------------------------------------------------------------------

pub struct NotesState {
    pub notes: Seq<NoteView>,
    pub note: Option<NoteView>,
    pub paragraph: Option<ParagraphView>,
    pub run: Option<RunView>,
    pub in_text: bool,
    pub note_type: NoteType,
}

/// Reads the notes of a footnotes or endnotes part.
pub struct NotesParser {
    pub notes: Vec<Note>,
    pub note: Option<Note>,
    pub paragraph: Option<Paragraph>,
    pub run: Option<Run>,
    pub in_text: bool,
    pub note_type: NoteType,
}

impl View for NotesParser {
    type V = NotesState;

    open spec fn view(&self) -> NotesState {
        NotesState {
            notes: self.notes@.map_values(|n: Note| n@),
            note: opt_view(self.note),
            paragraph: opt_view(self.paragraph),
            run: opt_view(self.run),
            in_text: self.in_text,
            note_type: self.note_type,
        }
    }
}

/// The separator and continuation notes, which are not kept.
pub open spec fn is_separator_id(id: Seq<char>) -> bool {
    id == "-1"@ || id == "0"@
}

pub open spec fn is_note_tag(name: Seq<char>) -> bool {
    name == "w:footnote"@ || name == "w:endnote"@
}

/// Tokenizer errors are passed over; only a bad escape in a text stops the reading.
pub open spec fn notes_step(s: NotesState, ev: XmlItem) -> Step<NotesState> {
    match ev {
        XmlItem::Start { name, content, name_len } => if is_note_tag(name) {
            Step::Next(
                NotesState {
                    note: Some(
                        NoteView {
                            id: match attr_value(content, name_len, "w:id"@) {
                                Some(v) => v,
                                None => Seq::empty(),
                            },
                            note_type: s.note_type,
                            paragraphs: Seq::empty(),
                        },
                    ),
                    ..s
                },
            )
        } else if name == "w:p"@ {
            Step::Next(NotesState { paragraph: Some(ParagraphView::empty()), ..s })
        } else if name == "w:r"@ {
            Step::Next(NotesState { run: Some(RunView::plain(Seq::empty())), ..s })
        } else if name == "w:t"@ {
            Step::Next(NotesState { in_text: true, ..s })
        } else {
            Step::Next(s)
        },
        XmlItem::Text { raw } => match run_text_step(s.in_text, s.run, raw) {
            Step::Next(r) => Step::Next(NotesState { run: r, ..s }),
            Step::Stop(r) => Step::Stop(NotesState { run: r, ..s }),
            Step::Fail(r, m) => Step::Fail(NotesState { run: r, ..s }, m),
        },
        XmlItem::End { name } => if name == "w:t"@ {
            Step::Next(NotesState { in_text: false, ..s })
        } else if name == "w:r"@ {
            Step::Next(NotesState { paragraph: close_run(s.paragraph, s.run), run: None, ..s })
        } else if name == "w:p"@ {
            match s.paragraph {
                Some(p) => Step::Next(
                    NotesState {
                        paragraph: None,
                        note: match s.note {
                            Some(n) => Some(NoteView { paragraphs: n.paragraphs.push(p), ..n }),
                            None => None,
                        },
                        ..s
                    },
                ),
                None => Step::Next(s),
            }
        } else if is_note_tag(name) {
            match s.note {
                Some(n) => Step::Next(
                    NotesState {
                        note: None,
                        notes: if is_separator_id(n.id) {
                            s.notes
                        } else {
                            s.notes.push(n)
                        },
                        ..s
                    },
                ),
                None => Step::Next(s),
            }
        } else {
            Step::Next(s)
        },
        XmlItem::Eof => Step::Stop(s),
        _ => Step::Next(s),
    }
}

impl NotesParser {
    pub fn new(note_type: NoteType) -> (n: NotesParser)
        ensures
            n@ == (NotesState {
                notes: Seq::empty(),
                note: None,
                paragraph: None,
                run: None,
                in_text: false,
                note_type,
            }),
    {
        let n = NotesParser {
            notes: Vec::new(),
            note: None,
            paragraph: None,
            run: None,
            in_text: false,
            note_type,
        };
        assert(n@.notes =~= Seq::<NoteView>::empty());
        n
    }
}

impl EventMachine for NotesParser {
    open spec fn step_spec(s: NotesState, ev: XmlItem) -> Step<NotesState> {
        notes_step(s, ev)
    }

    proof fn lemma_eof_stops(s: NotesState) {
    }

    fn step(&mut self, ev: &XmlEvent) -> (f: Flow) {
        match ev {
            XmlEvent::Start(tag) => {
                let name = tag.name.as_str();
                if str_eq(name, "w:footnote") || str_eq(name, "w:endnote") {
                    let id = match tag_attr(tag, "w:id") {
                        Some(v) => v,
                        None => String::new(),
                    };
                    let n = Note { id, note_type: self.note_type, paragraphs: Vec::new() };
                    assert(n@.paragraphs =~= Seq::<ParagraphView>::empty());
                    self.note = Some(n);
                } else if str_eq(name, "w:p") {
                    self.paragraph = Some(Paragraph::new());
                } else if str_eq(name, "w:r") {
                    self.run = Some(Run::default());
                } else if str_eq(name, "w:t") {
                    self.in_text = true;
                }
                Flow::Continue
            },
            XmlEvent::Text(raw) => add_text(self.in_text, &mut self.run, raw),
            XmlEvent::End(name) => {
                let name = name.as_str();
                if str_eq(name, "w:t") {
                    self.in_text = false;
                } else if str_eq(name, "w:r") {
                    close_run_exec(&mut self.paragraph, &mut self.run);
                } else if str_eq(name, "w:p") {
                    match self.paragraph.take() {
                        Some(p) => {
                            match self.note.take() {
                                Some(mut n) => {
                                    n.paragraphs.push(p);
                                    assert(n@.paragraphs =~= old(self)@.note->0.paragraphs.push(p@));
                                    self.note = Some(n);
                                },
                                None => {},
                            }
                        },
                        None => {},
                    }
                } else if str_eq(name, "w:footnote") || str_eq(name, "w:endnote") {
                    match self.note.take() {
                        Some(n) => {
                            if !str_eq(n.id.as_str(), "-1") && !str_eq(n.id.as_str(), "0") {
                                self.notes.push(n);
                                assert(self@.notes =~= old(self)@.notes.push(n@));
                            }
                        },
                        None => {},
                    }
                }
                Flow::Continue
            },
            XmlEvent::Eof => Flow::Finish,
            _ => Flow::Continue,
        }
    }
}

} // verus!
