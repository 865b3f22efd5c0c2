use vstd::prelude::*;
use quick_xml::Reader;
use quick_xml::events::{BytesStart, Event};
use quick_xml::events::attributes::Attribute;
use std::borrow::Cow;
use vstd::string::StringSliceAdditionalSpecFns;

verus! {

/// quick_xml's error, carried as it is in `ParseError`.
#[verifier::external_type_specification]
#[verifier::external_body]
pub struct ExXmlError(quick_xml::Error);

/// An XML pull reader over a byte slice, with text trimming switched on.
///
/// `quick_xml::Reader` is generic over `std::io::BufRead`, a bound Verus cannot
/// take, so the reader is held here opaquely; what it has left to read is named
/// by `unread_input`. Its field is private: every `XmlSource` is made by
/// `XmlSource::new`, which never switches on the expansion of empty elements.
#[verifier::external_body]
pub struct XmlSource<'a> {
    reader: Reader<&'a [u8]>,
}

/// The bytes that the reader of `source` has not consumed yet.
pub uninterp spec fn unread_input(source: XmlSource<'_>) -> Seq<u8>;

/// What `Attribute::unescape_and_decode_value` makes of the raw bytes of an
/// attribute value: its text with the XML escapes replaced, or `None` where the
/// escapes or the UTF-8 are malformed.
pub uninterp spec fn unescaped_text(raw: Seq<u8>) -> Option<Seq<char>>;

/// One operation on a reader: reading the next event, or reading the text up
/// to the end tag with the given name.
pub enum ReaderCall {
    Event,
    Text(Seq<u8>),
}

/// The state of a reader over a byte slice. quick_xml's reader is
/// deterministic: its state is fixed by the document, by whether it trims
/// text, and by the operations made on it so far, in order.
pub struct ReaderModel {
    pub document: Seq<u8>,
    pub trim_text: bool,
    pub calls: Seq<ReaderCall>,
}

/// The state of a fresh reader over `xml` that trims text, as every
/// `XmlSource` is.
pub open spec fn initial_model(xml: Seq<u8>) -> ReaderModel {
    ReaderModel { document: xml, trim_text: true, calls: Seq::empty() }
}

/// The state after one more operation.
pub open spec fn after_call(model: ReaderModel, call: ReaderCall) -> ReaderModel {
    ReaderModel { calls: model.calls.push(call), ..model }
}

/// The state of the reader of `source`.
pub uninterp spec fn reader_model(source: XmlSource<'_>) -> ReaderModel;

/// What `Reader::read_event` yields in state `model`: the next event, or
/// `Err` where the reader reports an error.
pub uninterp spec fn next_event(model: ReaderModel) -> Result<XmlEventView, ()>;

/// What `Reader::read_text` with end name `end` yields in state `model`: the
/// unescaped text, or `Err` where the reader reports an error.
pub uninterp spec fn text_until(model: ReaderModel, end: Seq<u8>) -> Result<Seq<char>, ()>;

/// An attribute of a tag as it stands in the document: its key and its raw,
/// still escaped, value.
#[derive(Debug)]
pub struct XmlAttribute {
    pub key: Vec<u8>,
    pub value: Vec<u8>,
}

/// The value of an `XmlAttribute`.
pub struct AttributeView {
    pub key: Seq<u8>,
    pub value: Seq<u8>,
}

impl View for XmlAttribute {
    type V = AttributeView;

    open spec fn view(&self) -> AttributeView {
        AttributeView { key: self.key@, value: self.value@ }
    }
}

/// The values of a list of attribute items.
pub open spec fn attribute_views(attributes: Seq<Option<XmlAttribute>>) -> Seq<Option<AttributeView>> {
    Seq::new(attributes.len(), |i: int| match attributes[i] {
        Some(a) => Some(a@),
        None => None,
    })
}

/// The value of an `XmlTag`.
pub struct XmlTagView {
    pub name: Seq<u8>,
    pub attributes: Seq<Option<AttributeView>>,
}

/// The value of an `XmlEvent`.
pub enum XmlEventView {
    Start(XmlTagView),
    Empty(XmlTagView),
    End(Seq<u8>),
    Eof,
    Other,
}

/// A start or empty-element tag: its raw name and its attributes in document
/// order, `None` for one that quick_xml refuses (malformed, or repeating an
/// earlier key), after which it lists no more.
#[derive(Debug)]
pub struct XmlTag {
    pub name: Vec<u8>,
    pub attributes: Vec<Option<XmlAttribute>>,
}

impl View for XmlTag {
    type V = XmlTagView;

    open spec fn view(&self) -> XmlTagView {
        XmlTagView { name: self.name@, attributes: attribute_views(self.attributes@) }
    }
}

/// One event of the pull reader: a start tag, an empty-element tag, an end tag
/// with its raw name, the end of the input, or any other kind of event.
#[derive(Debug)]
pub enum XmlEvent {
    Start(XmlTag),
    Empty(XmlTag),
    End(Vec<u8>),
    Eof,
    Other,
}

impl View for XmlEvent {
    type V = XmlEventView;

    open spec fn view(&self) -> XmlEventView {
        match self {
            XmlEvent::Start(tag) => XmlEventView::Start(tag@),
            XmlEvent::Empty(tag) => XmlEventView::Empty(tag@),
            XmlEvent::End(name) => XmlEventView::End(name@),
            XmlEvent::Eof => XmlEventView::Eof,
            XmlEvent::Other => XmlEventView::Other,
        }
    }
}

/// `Reader::from_reader` over a byte slice. The contract claims that the new
/// reader has consumed nothing (it holds the slice itself as its input), does
/// not trim text, and has had no operation made on it.
#[verifier::external_body]
fn reader_from_bytes<'a>(xml: &'a [u8]) -> (source: XmlSource<'a>)
    ensures
        unread_input(source) == xml@,
        reader_model(source) == (ReaderModel { document: xml@, trim_text: false, calls: Seq::empty() }),
{
    XmlSource { reader: Reader::from_reader(xml) }
}

/// `Reader::trim_text(true)`: only sets two flags, so the contract claims that
/// nothing is consumed and that, on a reader with no operation made on it yet,
/// the state becomes that of a trimming reader.
#[verifier::external_body]
fn set_trim_text(source: &mut XmlSource<'_>)
    requires
        reader_model(*old(source)).calls.len() == 0,
    ensures
        unread_input(*final(source)) == unread_input(*old(source)),
        reader_model(*final(source)) == (ReaderModel { trim_text: true, ..reader_model(*old(source)) }),
{
    source.reader.trim_text(true);
}

/// `Reader::read_event`, with the event turned into an `XmlEvent`: a tag's name
/// and the items of its attribute iterator are copied out one for one. The
/// contract claims that reading never gives input back, and that every event
/// but `Eof` (and but an error) consumes at least one byte: text up to a `<`, or
/// a whole markup up to its `>`. The one event that consumes nothing in
/// quick_xml, the end half of an expanded empty element, does not occur, as no
/// `XmlSource` expands empty elements. The event is `next_event` of the state
/// before the call, and the call is one more operation on the reader.
#[verifier::external_body]
pub(crate) fn read_event(source: &mut XmlSource<'_>) -> (res: Result<XmlEvent, quick_xml::Error>)
    ensures
        unread_input(*final(source)).len() <= unread_input(*old(source)).len(),
        res matches Ok(event) && !(event is Eof) ==> unread_input(*final(source)).len()
            < unread_input(*old(source)).len(),
        reader_model(*final(source)) == after_call(reader_model(*old(source)), ReaderCall::Event),
        res is Err <==> next_event(reader_model(*old(source))) is Err,
        res matches Ok(event) ==> next_event(reader_model(*old(source))) matches Ok(e) && e == event@,
{
    let mut buf = Vec::new();
    let event = source.reader.read_event(&mut buf)?;
    let tag = |e: &BytesStart| XmlTag {
        name: e.name().to_vec(),
        attributes: e.attributes().map(|a| a.ok().map(|a| XmlAttribute { key: a.key.to_vec(), value: a.value.into_owned() })).collect(),
    };
    Ok(match event {
        Event::Start(e) => XmlEvent::Start(tag(&e)),
        Event::Empty(e) => XmlEvent::Empty(tag(&e)),
        Event::End(e) => XmlEvent::End(e.name().to_vec()),
        Event::Eof => XmlEvent::Eof,
        _ => XmlEvent::Other,
    })
}

/// `Reader::read_text`: the text up to the end tag named `end`, consuming the
/// input up to and including that end tag. The contract claims that no input
/// is given back, that the text is `text_until` of the state before the call
/// and `end`, and that the call is one more operation on the reader.
#[verifier::external_body]
pub(crate) fn read_text(source: &mut XmlSource<'_>, end: &[u8]) -> (res: Result<String, quick_xml::Error>)
    ensures
        unread_input(*final(source)).len() <= unread_input(*old(source)).len(),
        reader_model(*final(source)) == after_call(reader_model(*old(source)), ReaderCall::Text(end@)),
        res is Err <==> text_until(reader_model(*old(source)), end@) is Err,
        res matches Ok(text) ==> text_until(reader_model(*old(source)), end@) matches Ok(t) && t == text@,
{
    source.reader.read_text(end, &mut Vec::new())
}

/// `Attribute::unescape_and_decode_value`. Without quick_xml's `encoding`
/// feature the reader only decodes UTF-8, so the result depends on the raw
/// value alone; the contract equates it with `unescaped_text` of that value.
#[verifier::external_body]
pub(crate) fn decode_attribute_value(source: &XmlSource<'_>, attribute: &XmlAttribute) -> (res: Result<String, quick_xml::Error>)
    ensures
        res is Ok <==> unescaped_text(attribute.value@) is Some,
        res matches Ok(text) ==> unescaped_text(attribute.value@) == Some(text@),
{
    let attr = Attribute { key: &attribute.key, value: Cow::Borrowed(&attribute.value) };
    attr.unescape_and_decode_value(&source.reader)
}

impl<'a> XmlSource<'a> {
    /// A reader over `xml` that trims the white space around text, as both
    /// feeds are read.
    pub fn new(xml: &'a [u8]) -> (source: XmlSource<'a>)
        ensures
            unread_input(source) == xml@,
            reader_model(source) == initial_model(xml@),
    {
        let mut source = reader_from_bytes(xml);
        set_trim_text(&mut source);
        source
    }
}

/// Two different texts have different UTF-8 bytes, so two tag names written
/// differently never match the same tag.
pub proof fn lemma_distinct_names(a: &str, b: &str)
    requires
        a@ != b@,
    ensures
        a.spec_bytes() != b.spec_bytes(),
{
    vstd::utf8::encode_utf8_decode_utf8(a@);
    vstd::utf8::encode_utf8_decode_utf8(b@);
}

/// Whether two byte strings are equal.
pub fn bytes_eq(a: &[u8], b: &[u8]) -> (eq: bool)
    ensures
        eq == (a@ == b@),
{
    if a.len() != b.len() {
        return false;
    }
    let mut i: usize = 0;
    while i < a.len()
        invariant
            a.len() == b.len(),
            i <= a.len(),
            forall|j: int| 0 <= j < i ==> a@[j] == b@[j],
        decreases a.len() - i,
    {
        if a[i] != b[i] {
            return false;
        }
        i += 1;
    }
    assert(a@ =~= b@);
    true
}

/// The raw value of the first well-formed attribute with key `key`, looking
/// from index `from` on.
pub open spec fn first_value_from(attributes: Seq<Option<AttributeView>>, key: Seq<u8>, from: int) -> Option<Seq<u8>>
    decreases attributes.len() - from,
{
    if from < 0 || from >= attributes.len() {
        None
    } else if attributes[from] matches Some(a) && a.key == key {
        Some(attributes[from]->0.value)
    } else {
        first_value_from(attributes, key, from + 1)
    }
}

/// The raw value of the first well-formed attribute with key `key`.
pub open spec fn first_value(attributes: Seq<Option<AttributeView>>, key: Seq<u8>) -> Option<Seq<u8>> {
    first_value_from(attributes, key, 0)
}

/// The first well-formed attribute with key `key`, as `filter_map(ok)` then
/// `find` on quick_xml's attribute iterator choose it.
pub fn find_attribute<'a>(attributes: &'a Vec<Option<XmlAttribute>>, key: &[u8]) -> (found: Option<&'a XmlAttribute>)
    ensures
        found is None <==> first_value(attribute_views(attributes@), key@) is None,
        found matches Some(attribute) ==> first_value(attribute_views(attributes@), key@) == Some(attribute.value@)
            && attribute.key@ == key@,
{
    let ghost views = attribute_views(attributes@);
    let mut i: usize = 0;
    while i < attributes.len()
        invariant
            i <= attributes@.len(),
            views == attribute_views(attributes@),
            first_value(views, key@) == first_value_from(views, key@, i as int),
        decreases attributes.len() - i,
    {
        match &attributes[i] {
            Some(attribute) => {
                if bytes_eq(&attribute.key, key) {
                    return Some(attribute);
                }
            },
            None => {},
        }
        i += 1;
    }
    None
}

} // verus!

verus! {

/// `first_value` is the value of the first well-formed attribute with the key:
/// where it gives a value, some attribute at index `i` has the key and that
/// value and no attribute before `i` has the key; where it gives none, no
/// attribute has the key.
pub proof fn lemma_first_value_is_first(attributes: Seq<Option<AttributeView>>, key: Seq<u8>, from: int)
    requires
        0 <= from,
    ensures
        first_value_from(attributes, key, from) matches Some(value) ==> exists|i: int|
            from <= i < attributes.len() && #[trigger] attributes[i] == Some(AttributeView { key, value })
                && forall|j: int| from <= j < i ==> !(#[trigger] attributes[j] matches Some(a) && a.key == key),
        first_value_from(attributes, key, from) is None ==> forall|j: int|
            from <= j < attributes.len() ==> !(#[trigger] attributes[j] matches Some(a) && a.key == key),
    decreases attributes.len() - from,
{
    if from < attributes.len() {
        lemma_first_value_is_first(attributes, key, from + 1);
        if attributes[from] is Some && attributes[from]->0.key == key {
            assert(attributes[from] == Some(AttributeView { key, value: attributes[from]->0.value }));
        }
    }
}

} // verus!
