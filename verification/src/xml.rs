//! The XML layer: quick-xml tokenizes, the library reads its events as plain values.
//!
//! A `quick_xml::Reader` over a string is modelled as the finite sequence of events it
//! still has to deliver (`xml_pending`); that sequence ends with `Eof`, and once only
//! `Eof` is left the reader keeps delivering it.  An attribute iterator is modelled the
//! same way (`attrs_pending`).
use quick_xml::events::{BytesStart, Event};
use vstd::prelude::*;

verus! {

broadcast use vstd::string::group_string_axioms;

#[verifier::external_type_specification]
#[verifier::external_body]
#[verifier::reject_recursive_types(R)]
pub struct ExXmlReader<R>(quick_xml::reader::Reader<R>);

#[verifier::external_type_specification]
#[verifier::external_body]
pub struct ExXmlAttributes<'a>(quick_xml::events::attributes::Attributes<'a>);

#[verifier::external_type_specification]
#[verifier::external_body]
pub struct ExXmlAttribute<'a>(quick_xml::events::attributes::Attribute<'a>);

#[verifier::external_type_specification]
#[verifier::external_body]
pub struct ExXmlAttrError(quick_xml::events::attributes::AttrError);

/// The opening tag of an element: its qualified name, the whole text between `<` and `>`
/// (name and attributes), and the byte length of the name inside that text.  Reading
/// the attributes of a tag asks that this length lie within the text (`tag_fits`), as it
/// does for every tag a reader delivers.
pub struct StartTag {
    pub name: String,
    pub content: String,
    pub name_len: usize,
}

/// One event of the XML stream, as the document logic consumes it.
pub enum XmlEvent {
    /// `<name ...>`
    Start(StartTag),
    /// `<name .../>`, an element written without content.
    Empty(StartTag),
    /// `</name>`
    End(String),
    /// Character data, still escaped.
    Text(String),
    /// End of input.
    Eof,
    /// The tokenizer reported an error; the message says which.
    Failed(String),
    /// Any other event (comments, declarations, processing instructions, CDATA, ...).
    Other,
}

/// The mathematical value of an [`XmlEvent`].
pub enum XmlItem {
    Start { name: Seq<char>, content: Seq<char>, name_len: nat },
    Empty { name: Seq<char>, content: Seq<char>, name_len: nat },
    End { name: Seq<char> },
    Text { raw: Seq<char> },
    Eof,
    Failed { msg: Seq<char> },
    Other,
}

impl View for XmlEvent {
    type V = XmlItem;

    open spec fn view(&self) -> XmlItem {
        match self {
            XmlEvent::Start(t) => XmlItem::Start {
                name: t.name@,
                content: t.content@,
                name_len: t.name_len as nat,
            },
            XmlEvent::Empty(t) => XmlItem::Empty {
                name: t.name@,
                content: t.content@,
                name_len: t.name_len as nat,
            },
            XmlEvent::End(n) => XmlItem::End { name: n@ },
            XmlEvent::Text(r) => XmlItem::Text { raw: r@ },
            XmlEvent::Eof => XmlItem::Eof,
            XmlEvent::Failed(m) => XmlItem::Failed { msg: m@ },
            XmlEvent::Other => XmlItem::Other,
        }
    }
}

/// One item of an attribute list: a key and its raw (still escaped) value, or a
/// malformed attribute.
pub enum XmlAttr {
    Pair(String, String),
    Malformed,
}

pub enum AttrItem {
    Pair { key: Seq<char>, value: Seq<char> },
    Malformed,
}

impl View for XmlAttr {
    type V = AttrItem;

    open spec fn view(&self) -> AttrItem {
        match self {
            XmlAttr::Pair(k, v) => AttrItem::Pair { key: k@, value: v@ },
            XmlAttr::Malformed => AttrItem::Malformed,
        }
    }
}

/// The events that quick-xml's `Reader::from_str` (text not trimmed) delivers for `xml`,
/// one per call of `read_event_into`, up to and including the first `Eof`.
pub uninterp spec fn xml_events(xml: Seq<char>) -> Seq<XmlItem>;

/// The events that a reader has still to deliver.
pub uninterp spec fn xml_pending(r: quick_xml::reader::Reader<&[u8]>) -> Seq<XmlItem>;

/// What `quick_xml::escape::unescape` gives for `raw`: the text with the predefined
/// entities and character references replaced, or the message of the error.
pub uninterp spec fn xml_unescaped(raw: Seq<char>) -> Result<Seq<char>, Seq<char>>;

/// The items that quick-xml's attribute iterator yields for a tag whose text is
/// `content` and whose name takes the first `name_len` bytes of it.
pub uninterp spec fn xml_attr_items(content: Seq<char>, name_len: nat) -> Seq<AttrItem>;

/// The items that an attribute iterator has still to yield.
pub uninterp spec fn attrs_pending(a: quick_xml::events::attributes::Attributes) -> Seq<AttrItem>;

/// The name of a tag takes at most the whole text of the tag (`name_len` counts bytes
/// of the UTF-8 text).
pub open spec fn tag_fits(content: Seq<char>, name_len: nat) -> bool {
    name_len <= vstd::utf8::encode_utf8(content).len()
}

/// An event whose tag, if it has one, fits its text.
pub open spec fn item_fits(ev: XmlItem) -> bool {
    match ev {
        XmlItem::Start { content, name_len, .. } => tag_fits(content, name_len),
        XmlItem::Empty { content, name_len, .. } => tag_fits(content, name_len),
        _ => true,
    }
}

/// A reader that has events left and ends its stream with `Eof`.
pub open spec fn reader_ready(r: quick_xml::reader::Reader<&[u8]>) -> bool {
    &&& xml_pending(r).len() > 0
    &&& xml_pending(r).last() == XmlItem::Eof
}

/// The stream of a reader after one more event was read.
pub open spec fn after_read(s: Seq<XmlItem>) -> Seq<XmlItem> {
    if s.len() > 1 {
        s.drop_first()
    } else {
        s
    }
}

/// Calls `quick_xml::Reader::from_str` and switches text trimming off
/// (`config_mut().trim_text(false)`).  Claimed: the reader will deliver exactly
/// `xml_events(xml)`, a non-empty sequence that ends with `Eof` (each event before `Eof`
/// consumes input, and after a fatal error the reader only reports `Eof`).
#[verifier::external_body]
pub(crate) fn xml_reader(xml: &str) -> (r: quick_xml::reader::Reader<&[u8]>)
    ensures
        xml_pending(r) == xml_events(xml@),
        reader_ready(r),
{
    let mut r = quick_xml::reader::Reader::from_str(xml);
    r.config_mut().trim_text(false);
    r
}

/// Calls `quick_xml::Reader::read_event_into` once and converts the event: opening and
/// empty tags keep their name, their whole text and the byte length of the name, closing
/// tags their name, text its escaped content, an error its message.  Claimed: the event
/// is the first one still pending, and the reader then has the rest left (the final
/// `Eof` repeats forever); a tag's name is the start of its text (`BytesStart::name`).
#[verifier::external_body]
pub(crate) fn xml_next(r: &mut quick_xml::reader::Reader<&[u8]>) -> (ev: XmlEvent)
    requires
        xml_pending(*old(r)).len() > 0,
    ensures
        ev@ == xml_pending(*old(r))[0],
        xml_pending(*final(r)) == after_read(xml_pending(*old(r))),
        item_fits(ev@),
{
    let lossy = |b: &[u8]| String::from_utf8_lossy(b).into_owned();
    let tag = |e: &BytesStart| StartTag { name: lossy(e.name().0), content: lossy(e), name_len: e.name().0.len() };
    match r.read_event_into(&mut Vec::new()) {
        Ok(Event::Start(e)) => XmlEvent::Start(tag(&e)),
        Ok(Event::Empty(e)) => XmlEvent::Empty(tag(&e)),
        Ok(Event::End(e)) => XmlEvent::End(lossy(&e)),
        Ok(Event::Text(e)) => XmlEvent::Text(lossy(&e)),
        Ok(Event::Eof) => XmlEvent::Eof,
        Err(e) => XmlEvent::Failed(e.to_string()),
        _ => XmlEvent::Other,
    }
}

/// Calls `quick_xml::escape::unescape`, the function that `BytesText::unescape` applies
/// to the text of an event read from a string.  The error becomes the message of the
/// `quick_xml::Error` that `BytesText::unescape` would return.
#[verifier::external_body]
pub(crate) fn xml_unescape(raw: &str) -> (r: Result<String, String>)
    ensures
        match r {
            Ok(t) => xml_unescaped(raw@) == Ok::<Seq<char>, Seq<char>>(t@),
            Err(m) => xml_unescaped(raw@) == Err::<Seq<char>, Seq<char>>(m@),
        },
{
    match quick_xml::escape::unescape(raw) {
        Ok(t) => Ok(t.into_owned()),
        Err(e) => Err(quick_xml::Error::from(e).to_string()),
    }
}

/// Calls `quick_xml::events::attributes::Attributes::new` on the text of a tag, which
/// is what `BytesStart::attributes` does (XML syntax, duplicate check on).  Claimed:
/// the iterator will yield `xml_attr_items` of the tag, a finite sequence.  The iterator
/// starts reading at byte `name_len` of the text, so that must be inside the text.
#[verifier::external_body]
pub(crate) fn xml_attributes(tag: &StartTag) -> (a: quick_xml::events::attributes::Attributes<'_>)
    requires
        tag_fits(tag.content@, tag.name_len as nat),
    ensures
        attrs_pending(a) == xml_attr_items(tag.content@, tag.name_len as nat),
{
    quick_xml::events::attributes::Attributes::new(&tag.content, tag.name_len)
}

/// Calls `Iterator::next` on quick-xml's attribute iterator and converts the item: key
/// and raw value of a well-formed attribute, or `Malformed` for an error.  Claimed:
/// the item is the first one pending; when none is left it returns `None` and stays so.
#[verifier::external_body]
pub(crate) fn xml_next_attr(a: &mut quick_xml::events::attributes::Attributes) -> (item: Option<XmlAttr>)
    ensures
        attrs_pending(*old(a)).len() == 0 ==> item is None && attrs_pending(*final(a)) == attrs_pending(*old(a)),
        attrs_pending(*old(a)).len() > 0 ==> {
            &&& item matches Some(x) && x@ == attrs_pending(*old(a))[0]
            &&& attrs_pending(*final(a)) == attrs_pending(*old(a)).drop_first()
        },
{
    match a.next() {
        Some(Ok(attr)) => Some(XmlAttr::Pair(
            String::from_utf8_lossy(attr.key.as_ref()).into_owned(),
            String::from_utf8_lossy(&attr.value).into_owned(),
        )),
        Some(Err(_)) => Some(XmlAttr::Malformed),
        None => None,
    }
}

/// The raw value of the last well-formed attribute called `key` among `items`, or
/// `acc` when there is none.
pub open spec fn last_attr(items: Seq<AttrItem>, key: Seq<char>, acc: Option<Seq<char>>) -> Option<Seq<char>>
    decreases items.len(),
{
    if items.len() == 0 {
        acc
    } else {
        let next = match items[0] {
            AttrItem::Pair { key: k, value } => if k == key {
                Some(value)
            } else {
                acc
            },
            AttrItem::Malformed => acc,
        };
        last_attr(items.drop_first(), key, next)
    }
}

/// The raw value of attribute `key` of a tag (the last one, when it is repeated).
pub open spec fn attr_value(content: Seq<char>, name_len: nat, key: Seq<char>) -> Option<Seq<char>> {
    last_attr(xml_attr_items(content, name_len), key, None)
}

/// The raw value of attribute `key` of a tag, as quick-xml's attribute iterator yields
/// it (the last one when it is repeated; malformed attributes are passed over).
pub fn tag_attr(tag: &StartTag, key: &str) -> (r: Option<String>)
    requires
        tag_fits(tag.content@, tag.name_len as nat),
    ensures
        match r {
            Some(v) => attr_value(tag.content@, tag.name_len as nat, key@) == Some(v@),
            None => attr_value(tag.content@, tag.name_len as nat, key@) is None,
        },
{
    let mut attrs = xml_attributes(tag);
    let mut cur: Option<String> = None;
    loop
        invariant
            last_attr(attrs_pending(attrs), key@, match cur {
                Some(v) => Some(v@),
                None => None,
            }) == attr_value(tag.content@, tag.name_len as nat, key@),
        decreases attrs_pending(attrs).len(),
    {
        match xml_next_attr(&mut attrs) {
            None => {
                return cur;
            },
            Some(XmlAttr::Pair(k, v)) => {
                if str_eq(k.as_str(), key) {
                    cur = Some(v);
                }
            },
            Some(XmlAttr::Malformed) => {},
        }
    }
}

/// A list level: a decimal that `str::parse::<i64>` accepts and that fits in a `u32`.
pub open spec fn level_spec(s: Seq<char>) -> Option<u32> {
    match parse_i64_spec(s) {
        Some(n) => if 0 <= n <= u32::MAX {
            Some(n as u32)
        } else {
            None
        },
        None => None,
    }
}

/// Parses a list level.
pub fn parse_level(s: &str) -> (r: Option<u32>)
    ensures
        r == level_spec(s@),
{
    match parse_i64(s) {
        Some(n) => if 0 <= n && n <= 0xffff_ffffi64 {
            Some(n as u32)
        } else {
            None
        },
        None => None,
    }
}

/// Whether two strings hold the same characters.
pub fn str_eq(a: &str, b: &str) -> (r: bool)
    ensures
        r == (a@ == b@),
{
    let n = a.unicode_len();
    if n != b.unicode_len() {
        return false;
    }
    let mut i: usize = 0;
    while i < n
        invariant
            n == a@.len(),
            n == b@.len(),
            i <= n,
            forall|j: int| 0 <= j < i ==> a@[j] == b@[j],
        decreases n - i,
    {
        if a.get_char(i) != b.get_char(i) {
            return false;
        }
        i = i + 1;
    }
    assert(a@ =~= b@);
    true
}

pub open spec fn is_ascii_digit(c: char) -> bool {
    '0' <= c <= '9'
}

pub open spec fn all_ascii_digits(s: Seq<char>) -> bool {
    forall|i: int| 0 <= i < s.len() ==> is_ascii_digit(#[trigger] s[i])
}

/// The value of a string of decimal digits.
pub open spec fn digits_value(s: Seq<char>) -> int
    decreases s.len(),
{
    if s.len() == 0 {
        0
    } else {
        digits_value(s.drop_last()) * 10 + (s.last() as int - '0' as int)
    }
}

/// What `str::parse::<i64>` gives: an optional `+` or `-`, then one or more ASCII
/// digits whose value fits in an `i64`; anything else is an error.
pub open spec fn parse_i64_spec(s: Seq<char>) -> Option<i64> {
    let signed = s.len() > 0 && (s[0] == '-' || s[0] == '+');
    let body = if signed { s.drop_first() } else { s };
    let magnitude = digits_value(body);
    let v = if s.len() > 0 && s[0] == '-' { -magnitude } else { magnitude };
    if body.len() == 0 || !all_ascii_digits(body) {
        None
    } else if i64::MIN <= v <= i64::MAX {
        Some(v as i64)
    } else {
        None
    }
}

pub(crate) proof fn lemma_digits_value_grows(s: Seq<char>, k: int)
    requires
        all_ascii_digits(s),
        0 <= k <= s.len(),
    ensures
        digits_value(s.take(k)) <= digits_value(s),
        0 <= digits_value(s),
    decreases s.len(),
{
    if s.len() > 0 {
        assert(all_ascii_digits(s.drop_last()));
        assert(is_ascii_digit(s[s.len() - 1]));
        if k == s.len() {
            assert(s.take(k) =~= s);
            lemma_digits_value_grows(s.drop_last(), 0);
        } else {
            assert(s.take(k) =~= s.drop_last().take(k));
            lemma_digits_value_grows(s.drop_last(), k);
        }
    } else {
        assert(s.take(k) =~= s);
    }
}

/// Parses a decimal `i64` as `str::parse::<i64>` does.
pub fn parse_i64(s: &str) -> (r: Option<i64>)
    ensures
        r == parse_i64_spec(s@),
{
    let n = s.unicode_len();
    if n == 0 {
        return None;
    }
    let first = s.get_char(0);
    let signed = first == '-' || first == '+';
    let negative = first == '-';
    let start: usize = if signed { 1 } else { 0 };
    let ghost body = if signed { s@.drop_first() } else { s@ };
    if start == n {
        return None;
    }
    let mut acc: i128 = 0;
    let mut i: usize = start;
    while i < n
        invariant
            n == s@.len(),
            start <= i <= n,
            start < n,
            signed == (s@[0] == '-' || s@[0] == '+'),
            negative == (s@[0] == '-'),
            start == (if signed { 1usize } else { 0usize }),
            body == (if signed { s@.drop_first() } else { s@ }),
            body == s@.subrange(start as int, n as int),
            all_ascii_digits(body.take(i - start)),
            acc == digits_value(body.take(i - start)),
            0 <= acc <= 0x8000_0000_0000_0000i128,
        decreases n - i,
    {
        let c = s.get_char(i);
        let ghost k = i - start;
        assert(body[k] == c);
        if !('0' <= c && c <= '9') {
            assert(!all_ascii_digits(body));
            return None;
        }
        let d: i128 = (c as u32 - '0' as u32) as i128;
        assert(body.take(k + 1).drop_last() =~= body.take(k));
        acc = acc * 10 + d;
        assert(acc == digits_value(body.take(k + 1)));
        assert(all_ascii_digits(body.take(k + 1)));
        i = i + 1;
        if acc > 0x8000_0000_0000_0000i128 {
            proof {
                if all_ascii_digits(body) {
                    lemma_digits_value_grows(body, k + 1);
                }
            }
            return None;
        }
    }
    assert(body.take(n - start) =~= body);
    if negative {
        let v: i128 = -acc;
        Some(v as i64)
    } else if acc <= 0x7fff_ffff_ffff_ffffi128 {
        Some(acc as i64)
    } else {
        None
    }
}

} // verus!
