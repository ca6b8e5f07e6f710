//! Reading a whole DOCX archive into a [`Document`].
use vstd::prelude::*;
use crate::archive::{
    entry_of, zip_entries, zip_len, zip_name_at, zip_names, zip_open, zip_open_result, zip_read_entry,
    EntryContent, EntryRead,
};
use crate::body::{BodyParser, BodyState};
use crate::error::{result_view, DocxError, DocxErrorView};
use crate::machine::{machine_run, run_on_xml, RunResult};
use crate::parts::{
    list_type_spec, HeaderFooterParser, HeaderFooterState, NotesParser, NotesState, NumberingParser,
    NumberingState,
};
use crate::types::{
    Document, DocumentView, HeaderFooter, HeaderFooterView, ListItem, ListItemView, ListType, Note,
    NoteType, NoteView, ParagraphView,
};
use crate::xml::{parse_i64, parse_i64_spec, str_eq, xml_events};

verus! {

broadcast use {vstd::string::group_string_axioms, vstd::std_specs::hash::group_hash_axioms};

// ---------------------------------------------------------------------------------
// What a document archive reads as
// ---------------------------------------------------------------------------------

/// Reading a required entry: its text, `FileNotFound` with the path when the entry is
/// unavailable, or `Io` with the message when its text cannot be read.
pub open spec fn read_spec(entries: Map<Seq<char>, EntryRead>, path: Seq<char>) -> Result<Seq<char>, DocxErrorView> {
    match entry_of(entries, path) {
        EntryRead::Unavailable => Err(DocxErrorView::FileNotFound(path)),
        EntryRead::Failed(m) => Err(DocxErrorView::Io(m)),
        EntryRead::Text(t) => Ok(t),
    }
}

/// The body of a document: where the body reader ends after the events of `xml`.
pub open spec fn body_spec(xml: Seq<char>) -> RunResult<BodyState> {
    machine_run::<BodyParser>(BodyState::initial(), xml_events(xml))
}

/// The numbering definitions of a numbering part.
pub open spec fn numbering_spec(xml: Seq<char>) -> NumberingState {
    machine_run::<NumberingParser>(NumberingParser::initial(), xml_events(xml)).state
}

/// Where the header and footer reader ends after the events of a part: the paragraphs
/// it read, and the message of a bad escape that stopped it.
pub open spec fn header_footer_spec(xml: Seq<char>) -> RunResult<HeaderFooterState> {
    machine_run::<HeaderFooterParser>(
        HeaderFooterState { paragraphs: Seq::empty(), paragraph: None, run: None, in_text: false },
        xml_events(xml),
    )
}

/// Where the notes reader ends after the events of a part: the notes it kept, and the
/// message of a bad escape that stopped it.
pub open spec fn notes_spec(xml: Seq<char>, note_type: NoteType) -> RunResult<NotesState> {
    machine_run::<NotesParser>(
        NotesState {
            notes: Seq::empty(),
            note: None,
            paragraph: None,
            run: None,
            in_text: false,
            note_type,
        },
        xml_events(xml),
    )
}

/// The list items of the body: one per paragraph that has both a numbering id and a
/// level, with the type that the definitions give that level of that numbering.
pub open spec fn list_items(ps: Seq<ParagraphView>, defs: NumberingState) -> Seq<ListItemView>
    decreases ps.len(),
{
    if ps.len() == 0 {
        Seq::empty()
    } else {
        let rest = list_items(ps.drop_last(), defs);
        let p = ps.last();
        match (p.numbering_id, p.numbering_level) {
            (Some(id), Some(level)) => rest.push(
                ListItemView {
                    level,
                    list_type: list_type_spec(defs, id, level),
                    number: None,
                    text: p.text(),
                },
            ),
            _ => rest,
        }
    }
}

/// The number of a header or footer part: `name` is `prefix`, a decimal number without
/// leading zeros that fits in an `i64`, and `.xml` (`word/header12.xml` is header 12).
pub open spec fn part_number(name: Seq<char>, prefix: Seq<char>) -> Option<i64> {
    let p = prefix.len() as int;
    let n = name.len() as int;
    if n >= p + 5 && name.subrange(0, p) == prefix && name.subrange(n - 4, n) == ".xml"@ {
        let d = name.subrange(p, n - 4);
        if '1' <= d[0] <= '9' {
            parse_i64_spec(d)
        } else {
            None
        }
    } else {
        None
    }
}

/// The place of a header or footer part in reading order: header N comes right before
/// footer N, and both come after the parts numbered below N (`word/header3.xml` is 6,
/// `word/footer3.xml` is 7).
pub open spec fn part_key(name: Seq<char>) -> Option<int> {
    match part_number(name, "word/header"@) {
        Some(n) => Some(2 * n),
        None => match part_number(name, "word/footer"@) {
            Some(n) => Some(2 * n + 1),
            None => None,
        },
    }
}

/// Whether the entry at `i` is a header or footer part placed after `after`.
pub open spec fn part_above(names: Seq<Seq<char>>, after: int, i: int) -> bool {
    part_key(names[i]) matches Some(m) && m > after
}

/// Among the first `k` entries, the index of the part with the smallest place after
/// `after` (the first such entry when two share it).
pub open spec fn best_part(names: Seq<Seq<char>>, after: int, k: int) -> Option<int>
    decreases k,
{
    if k <= 0 {
        None
    } else {
        let r = best_part(names, after, k - 1);
        if part_above(names, after, k - 1) {
            match r {
                Some(j) => if part_key(names[j])->0 <= part_key(names[k - 1])->0 {
                    r
                } else {
                    Some(k - 1)
                },
                None => Some(k - 1),
            }
        } else {
            r
        }
    }
}

/// How many of the first `k` entries are parts placed after `after`.
pub open spec fn count_above(names: Seq<Seq<char>>, after: int, k: int) -> nat
    decreases k,
{
    if k <= 0 {
        0
    } else {
        count_above(names, after, k - 1) + if part_above(names, after, k - 1) {
            1nat
        } else {
            0nat
        }
    }
}

pub proof fn lemma_best_part(names: Seq<Seq<char>>, after: int, k: int)
    requires
        k <= names.len(),
    ensures
        best_part(names, after, k) matches Some(j) ==> {
            &&& 0 <= j < k
            &&& part_above(names, after, j)
            &&& forall|i: int|
                0 <= i < k && #[trigger] part_above(names, after, i) ==> part_key(names[j])->0
                    <= part_key(names[i])->0
        },
        best_part(names, after, k) is None ==> forall|i: int|
            0 <= i < k ==> !#[trigger] part_above(names, after, i),
    decreases k,
{
    if k > 0 {
        lemma_best_part(names, after, k - 1);
    }
}

pub proof fn lemma_count_above(names: Seq<Seq<char>>, after: int, m: int, j: int, k: int)
    requires
        after < m,
        0 <= k <= names.len(),
        forall|i: int| 0 <= i < k && #[trigger] part_above(names, after, i) ==> m <= part_key(names[i])->0,
    ensures
        count_above(names, m, k) <= count_above(names, after, k),
        0 <= j < k && part_key(names[j]) == Some(m) ==> count_above(names, m, k) < count_above(names, after, k),
    decreases k,
{
    if k > 0 {
        lemma_count_above(names, after, m, j, k - 1);
    }
}

/// The header and footer parts in reading order, from the first one placed after `after`.
pub open spec fn ordered_parts(names: Seq<Seq<char>>, after: int) -> Seq<Seq<char>>
    decreases count_above(names, after, names.len() as int),
{
    match best_part(names, after, names.len() as int) {
        None => Seq::empty(),
        Some(j) => {
            proof {
                lemma_best_part(names, after, names.len() as int);
                lemma_count_above(names, after, part_key(names[j])->0, j, names.len() as int);
            }
            seq![names[j]] + ordered_parts(names, part_key(names[j])->0)
        },
    }
}

/// Adds the header or footer part at `path`, if the archive has it.
pub open spec fn add_header_footer(
    entries: Map<Seq<char>, EntryRead>,
    path: Seq<char>,
    parts: Seq<HeaderFooterView>,
) -> Result<Seq<HeaderFooterView>, DocxErrorView> {
    match entry_of(entries, path) {
        EntryRead::Text(xml) => match header_footer_spec(xml).failure {
            None => Ok(parts.push(HeaderFooterView { paragraphs: header_footer_spec(xml).state.paragraphs })),
            Some(m) => Err(DocxErrorView::Xml(m)),
        },
        _ => Ok(parts),
    }
}

/// Adds the given parts, in order: a header part to the headers, a footer part to the
/// footers.
pub open spec fn add_parts(
    entries: Map<Seq<char>, EntryRead>,
    paths: Seq<Seq<char>>,
    d: DocumentView,
) -> Result<DocumentView, DocxErrorView>
    decreases paths.len(),
{
    if paths.len() == 0 {
        Ok(d)
    } else if part_number(paths[0], "word/header"@) is Some {
        match add_header_footer(entries, paths[0], d.headers) {
            Err(e) => Err(e),
            Ok(hs) => add_parts(entries, paths.drop_first(), DocumentView { headers: hs, ..d }),
        }
    } else {
        match add_header_footer(entries, paths[0], d.footers) {
            Err(e) => Err(e),
            Ok(fs) => add_parts(entries, paths.drop_first(), DocumentView { footers: fs, ..d }),
        }
    }
}

/// Every header part (`word/headerN.xml`) and footer part (`word/footerN.xml`), in
/// increasing order of N, the header before the footer of the same N.
pub open spec fn headers_footers_spec(
    entries: Map<Seq<char>, EntryRead>,
    names: Seq<Seq<char>>,
    d: DocumentView,
) -> Result<DocumentView, DocxErrorView> {
    add_parts(entries, ordered_parts(names, 0), d)
}

/// Adds the notes of the part at `path`, if the archive has it.
pub open spec fn add_notes(
    entries: Map<Seq<char>, EntryRead>,
    path: Seq<char>,
    note_type: NoteType,
    notes: Seq<NoteView>,
) -> Result<Seq<NoteView>, DocxErrorView> {
    match entry_of(entries, path) {
        EntryRead::Text(xml) => match notes_spec(xml, note_type).failure {
            None => Ok(notes + notes_spec(xml, note_type).state.notes),
            Some(m) => Err(DocxErrorView::Xml(m)),
        },
        _ => Ok(notes),
    }
}

/// The body of the document with its lists, when there is a numbering part.
pub open spec fn with_lists(entries: Map<Seq<char>, EntryRead>, d: DocumentView) -> DocumentView {
    match entry_of(entries, "word/numbering.xml"@) {
        EntryRead::Text(xml) => DocumentView {
            lists: d.lists + list_items(d.paragraphs, numbering_spec(xml)),
            ..d
        },
        _ => d,
    }
}

/// What an archive with the given entries reads as.  `word/document.xml` is required;
/// numbering, headers, footers, footnotes and endnotes are read when present, and only
/// a bad escape in one of them is an error.
pub open spec fn document_spec(entries: Map<Seq<char>, EntryRead>, names: Seq<Seq<char>>) -> Result<DocumentView, DocxErrorView> {
    match read_spec(entries, "word/document.xml"@) {
        Err(e) => Err(e),
        Ok(xml) => match body_spec(xml).failure {
            Some(m) => Err(DocxErrorView::Xml(m)),
            None => {
                let b = body_spec(xml).state;
                let d = with_lists(
                    entries,
                    DocumentView { paragraphs: b.paragraphs, tables: b.tables, ..DocumentView::empty() },
                );
                match headers_footers_spec(entries, names, d) {
                    Err(e) => Err(e),
                    Ok(d2) => match add_notes(entries, "word/footnotes.xml"@, NoteType::Footnote, d2.footnotes) {
                        Err(e) => Err(e),
                        Ok(fs) => match add_notes(entries, "word/endnotes.xml"@, NoteType::Endnote, d2.endnotes) {
                            Err(e) => Err(e),
                            Ok(es) => Ok(DocumentView { footnotes: fs, endnotes: es, ..d2 }),
                        },
                    },
                }
            },
        },
    }
}

/// What the bytes of a DOCX file read as: `Zip` when they are not an archive, else what
/// the archive's entries read as.
pub open spec fn docx_spec(bytes: Seq<u8>) -> Result<DocumentView, DocxErrorView> {
    match zip_open_result(bytes) {
        Err(m) => Err(DocxErrorView::Zip(m)),
        Ok((entries, names)) => document_spec(entries, names),
    }
}

// ---------------------------------------------------------------------------------
// The parser
// ---------------------------------------------------------------------------------

/// An open archive (mathematical view): what reading each entry gives, and the entry
/// names in central-directory order.
pub struct ArchiveView {
    pub entries: Map<Seq<char>, EntryRead>,
    pub names: Seq<Seq<char>>,
}

/// A DOCX archive opened for reading.
pub struct DocxParser {
    archive: zip::ZipArchive<std::io::Cursor<Vec<u8>>>,
}

impl View for DocxParser {
    type V = ArchiveView;

    closed spec fn view(&self) -> ArchiveView {
        ArchiveView { entries: zip_entries(self.archive), names: zip_names(self.archive) }
    }
}

/// The number of a part name, as `part_number` says.
fn part_number_exec(name: &str, prefix: &str) -> (r: Option<i64>)
    ensures
        r == part_number(name@, prefix@),
{
    let n = name.unicode_len();
    let p = prefix.unicode_len();
    if n < 5 || n - 5 < p {
        return None;
    }
    if !str_eq(name.substring_char(0, p), prefix) {
        return None;
    }
    if !str_eq(name.substring_char(n - 4, n), ".xml") {
        return None;
    }
    let digits = name.substring_char(p, n - 4);
    let first = digits.get_char(0);
    if '1' <= first && first <= '9' {
        parse_i64(digits)
    } else {
        None
    }
}

impl DocxParser {
    /// Opens the bytes of a DOCX file as a ZIP archive.
    pub fn new(bytes: &[u8]) -> (r: Result<DocxParser, DocxError>)
        ensures
            match r {
                Ok(p) => zip_open_result(bytes@) == Ok::<(Map<Seq<char>, EntryRead>, Seq<Seq<char>>), Seq<char>>(
                    (p@.entries, p@.names),
                ),
                Err(e) => zip_open_result(bytes@) is Err && e@ == DocxErrorView::Zip(zip_open_result(bytes@)->Err_0),
            },
    {
        match zip_open(bytes) {
            Ok(archive) => Ok(DocxParser { archive }),
            Err(m) => Err(DocxError::Zip(m)),
        }
    }

    /// Reads the whole document.
    pub fn parse(self) -> (r: Result<Document, DocxError>)
        ensures
            result_view(r) == document_spec(self@.entries, self@.names),
    {
        let mut this = self;
        let ghost entries = this@.entries;
        let mut document = Document::new();

        let document_xml = match this.read_file("word/document.xml") {
            Ok(x) => x,
            Err(e) => {
                return Err(e);
            },
        };
        match Self::parse_document_xml(document_xml.as_str(), &mut document) {
            Ok(_) => {},
            Err(e) => {
                return Err(e);
            },
        }
        assert(document@.paragraphs =~= body_spec(document_xml@).state.paragraphs);
        assert(document@.tables =~= body_spec(document_xml@).state.tables);
        let ghost body_doc = document@;

        match this.read_file("word/numbering.xml") {
            Ok(numbering_xml) => {
                let numbering_defs = Self::parse_numbering(numbering_xml.as_str());
                Self::process_lists(&mut document, &numbering_defs);
            },
            Err(_) => {},
        }
        assert(document@ == with_lists(entries, body_doc));

        match this.parse_headers_footers(&mut document) {
            Ok(_) => {},
            Err(e) => {
                return Err(e);
            },
        }

        let ghost d2 = document@;
        match this.read_file("word/footnotes.xml") {
            Ok(footnotes_xml) => {
                match Self::parse_notes(footnotes_xml.as_str(), &mut document.footnotes, NoteType::Footnote) {
                    Ok(_) => {},
                    Err(e) => {
                        return Err(e);
                    },
                }
            },
            Err(_) => {},
        }
        match this.read_file("word/endnotes.xml") {
            Ok(endnotes_xml) => {
                match Self::parse_notes(endnotes_xml.as_str(), &mut document.endnotes, NoteType::Endnote) {
                    Ok(_) => {},
                    Err(e) => {
                        return Err(e);
                    },
                }
            },
            Err(_) => {},
        }
        assert(document@ == (DocumentView { footnotes: document@.footnotes, endnotes: document@.endnotes, ..d2 }));
        Ok(document)
    }

    fn read_file(&mut self, path: &str) -> (r: Result<String, DocxError>)
        ensures
            final(self)@ == old(self)@,
            result_view(r) == read_spec(old(self)@.entries, path@),
    {
        match zip_read_entry(&mut self.archive, path) {
            EntryContent::Unavailable => Err(DocxError::FileNotFound(path.to_owned())),
            EntryContent::Failed(m) => Err(DocxError::Io(m)),
            EntryContent::Text(t) => Ok(t),
        }
    }

    fn parse_document_xml(xml: &str, document: &mut Document) -> (r: Result<(), DocxError>)
        ensures
            final(document)@ == (DocumentView {
                paragraphs: old(document)@.paragraphs + body_spec(xml@).state.paragraphs,
                tables: old(document)@.tables + body_spec(xml@).state.tables,
                ..old(document)@
            }),
            match body_spec(xml@).failure {
                None => r is Ok,
                Some(m) => r matches Err(e) && e@ == DocxErrorView::Xml(m),
            },
    {
        let mut body = BodyParser::new();
        let res = run_on_xml(&mut body, xml);
        let ghost before = document@;
        let ghost found = body@;
        document.paragraphs.append(&mut body.paragraphs);
        document.tables.append(&mut body.tables);
        assert(document@.paragraphs =~= before.paragraphs + found.paragraphs);
        assert(document@.tables =~= before.tables + found.tables);
        match res {
            Ok(_) => Ok(()),
            Err(m) => Err(DocxError::Xml(m)),
        }
    }

    fn parse_numbering(xml: &str) -> (defs: NumberingParser)
        ensures
            defs@ == numbering_spec(xml@),
    {
        let mut numbering = NumberingParser::new();
        let _ = run_on_xml(&mut numbering, xml);
        numbering
    }

    fn process_lists(document: &mut Document, numbering_defs: &NumberingParser)
        ensures
            final(document)@ == (DocumentView {
                lists: old(document)@.lists + list_items(old(document)@.paragraphs, numbering_defs@),
                ..old(document)@
            }),
    {
        let ghost ps = document@.paragraphs;
        let ghost lists0 = document@.lists;
        let mut i: usize = 0;
        while i < document.paragraphs.len()
            invariant
                i <= document.paragraphs.len(),
                ps == document@.paragraphs,
                ps.len() == document.paragraphs@.len(),
                document@ == (DocumentView {
                    lists: lists0 + list_items(ps.take(i as int), numbering_defs@),
                    ..old(document)@
                }),
            decreases document.paragraphs.len() - i,
        {
            assert(ps.take(i + 1).drop_last() =~= ps.take(i as int));
            let paragraph = &document.paragraphs[i];
            assert(ps.take(i + 1).last() == ps[i as int]);
            assert(paragraph@ == ps[i as int]);
            match (paragraph.numbering_id, paragraph.numbering_level) {
                (Some(num_id), Some(level)) => {
                    let list_type = numbering_defs.list_type(num_id, level);
                    let text = paragraph.to_text();
                    let item = ListItem { level, list_type, number: None, text };
                    let ghost lists_before = document@.lists;
                    document.lists.push(item);
                    assert(document@.lists =~= lists_before.push(item@));
                    assert(document@.lists =~= lists0 + list_items(ps.take(i + 1), numbering_defs@));
                },
                _ => {
                    assert(document@.lists =~= lists0 + list_items(ps.take(i + 1), numbering_defs@));
                },
            }
            i = i + 1;
        }
        assert(ps.take(ps.len() as int) =~= ps);
    }

    /// Reads every header and footer part, in increasing order of number, the header
    /// before the footer of the same number; a part that cannot be read is passed over.
    fn parse_headers_footers(&mut self, document: &mut Document) -> (r: Result<(), DocxError>)
        ensures
            final(self)@ == old(self)@,
            match headers_footers_spec(old(self)@.entries, old(self)@.names, old(document)@) {
                Ok(d) => r is Ok && final(document)@ == d,
                Err(e) => r matches Err(x) && x@ == e,
            },
    {
        let n = zip_len(&self.archive);
        let mut after: i128 = 0;
        let ghost whole = headers_footers_spec(self@.entries, self@.names, document@);
        loop
            invariant
                self@ == old(self)@,
                n == self@.names.len(),
                whole == headers_footers_spec(old(self)@.entries, old(self)@.names, old(document)@),
                whole == add_parts(self@.entries, ordered_parts(self@.names, after as int), document@),
                0 <= after,
            decreases count_above(self@.names, after as int, self@.names.len() as int),
        {
            let ghost names = self@.names;
            match self.best_part_exec(after, n) {
                None => {
                    assert(ordered_parts(names, after as int) =~= Seq::<Seq<char>>::empty());
                    return Ok(());
                },
                Some((j, m)) => {
                    proof {
                        lemma_best_part(names, after as int, n as int);
                        lemma_count_above(names, after as int, m as int, j as int, n as int);
                    }
                    let ghost rest = ordered_parts(names, after as int);
                    assert(rest[0] == names[j as int]);
                    assert(rest.drop_first() =~= ordered_parts(names, m as int));
                    let name = zip_name_at(&self.archive, j);
                    let is_header = part_number_exec(name.as_str(), "word/header").is_some();
                    let ghost before = document@;
                    match self.read_file(name.as_str()) {
                        Ok(xml) => {
                            let mut part = HeaderFooter::default();
                            match Self::parse_header_footer_content(xml.as_str(), &mut part) {
                                Ok(_) => {
                                    assert(part@.paragraphs =~= header_footer_spec(xml@).state.paragraphs);
                                    if is_header {
                                        document.headers.push(part);
                                        assert(document@.headers =~= before.headers.push(part@));
                                        assert(document@ == (DocumentView { headers: before.headers.push(part@), ..before }));
                                    } else {
                                        document.footers.push(part);
                                        assert(document@.footers =~= before.footers.push(part@));
                                        assert(document@ == (DocumentView { footers: before.footers.push(part@), ..before }));
                                    }
                                },
                                Err(e) => {
                                    return Err(e);
                                },
                            }
                        },
                        Err(_) => {
                            assert(document@ == (DocumentView { headers: before.headers, ..before }));
                            assert(document@ == (DocumentView { footers: before.footers, ..before }));
                        },
                    }
                    after = m;
                },
            }
        }
    }

    /// The place of a part name in reading order, as `part_key` says.
    fn part_key_exec(name: &str) -> (r: Option<i128>)
        ensures
            match r {
                Some(k) => part_key(name@) == Some(k as int),
                None => part_key(name@) is None,
            },
    {
        match part_number_exec(name, "word/header") {
            Some(h) => Some(2 * (h as i128)),
            None => match part_number_exec(name, "word/footer") {
                Some(f) => Some(2 * (f as i128) + 1),
                None => None,
            },
        }
    }

    /// The entry with the smallest place after `after` among the first `n` names.
    fn best_part_exec(&self, after: i128, n: usize) -> (r: Option<(usize, i128)>)
        requires
            n == self@.names.len(),
        ensures
            match r {
                Some((j, m)) => best_part(self@.names, after as int, n as int) == Some(j as int)
                    && part_key(self@.names[j as int]) == Some(m as int),
                None => best_part(self@.names, after as int, n as int) is None,
            },
    {
        let mut best: Option<(usize, i128)> = None;
        let mut k: usize = 0;
        while k < n
            invariant
                k <= n,
                n == self@.names.len(),
                match best {
                    Some((j, m)) => best_part(self@.names, after as int, k as int) == Some(j as int)
                        && part_key(self@.names[j as int]) == Some(m as int),
                    None => best_part(self@.names, after as int, k as int) is None,
                },
            decreases n - k,
        {
            let name = zip_name_at(&self.archive, k);
            match Self::part_key_exec(name.as_str()) {
                Some(m) => {
                    if m > after {
                        match best {
                            Some((_, bm)) => {
                                if m < bm {
                                    best = Some((k, m));
                                }
                            },
                            None => {
                                best = Some((k, m));
                            },
                        }
                    }
                },
                None => {},
            }
            k = k + 1;
        }
        best
    }

    fn parse_header_footer_content(xml: &str, header_footer: &mut HeaderFooter) -> (r: Result<(), DocxError>)
        ensures
            final(header_footer)@ == (HeaderFooterView {
                paragraphs: old(header_footer)@.paragraphs + header_footer_spec(xml@).state.paragraphs,
            }),
            match header_footer_spec(xml@).failure {
                None => r is Ok,
                Some(m) => r matches Err(e) && e@ == DocxErrorView::Xml(m),
            },
    {
        let mut parser = HeaderFooterParser::new();
        let res = run_on_xml(&mut parser, xml);
        let ghost before = header_footer@.paragraphs;
        let ghost found = parser@.paragraphs;
        header_footer.paragraphs.append(&mut parser.paragraphs);
        assert(header_footer@.paragraphs =~= before + found);
        match res {
            Ok(_) => Ok(()),
            Err(m) => Err(DocxError::Xml(m)),
        }
    }

    fn parse_notes(xml: &str, notes: &mut Vec<Note>, note_type: NoteType) -> (r: Result<(), DocxError>)
        ensures
            final(notes)@.map_values(|n: Note| n@) == old(notes)@.map_values(|n: Note| n@) + notes_spec(
                xml@,
                note_type,
            ).state.notes,
            match notes_spec(xml@, note_type).failure {
                None => r is Ok,
                Some(m) => r matches Err(e) && e@ == DocxErrorView::Xml(m),
            },
    {
        let mut parser = NotesParser::new(note_type);
        let res = run_on_xml(&mut parser, xml);
        let ghost before = notes@.map_values(|n: Note| n@);
        let ghost found = parser@.notes;
        notes.append(&mut parser.notes);
        assert(notes@.map_values(|n: Note| n@) =~= before + found);
        match res {
            Ok(_) => Ok(()),
            Err(m) => Err(DocxError::Xml(m)),
        }
    }
}

} // verus!
