//! What is made of a file's content once it has been read: text out of the
//! XML parts of office documents, a data URL out of an image, text out of
//! anything else.

use vstd::prelude::*;
use vstd::string::*;
use base64::Engine;
use xml::reader::XmlEvent;
use crate::text::{ends_with, has_prefix, has_suffix, starts_with};

verus! {

/// The view of an `XmlPiece`.
pub enum XmlPieceView {
    StartDocument,
    EndDocument,
    Instruction,
    StartElement(Seq<char>),
    EndElement(Seq<char>),
    CData(Seq<char>),
    Comment(Seq<char>),
    Characters(Seq<char>),
    Whitespace(Seq<char>),
    Failed,
}

/// One event of reading an XML document. Elements carry their local name,
/// the name without its prefix.
#[derive(Debug, PartialEq, Eq)]
pub enum XmlPiece {
    StartDocument,
    EndDocument,
    Instruction,
    StartElement(String),
    EndElement(String),
    CData(String),
    Comment(String),
    Characters(String),
    Whitespace(String),
    /// The document is malformed from here on.
    Failed,
}

impl View for XmlPiece {
    type V = XmlPieceView;

    open spec fn view(&self) -> XmlPieceView {
        match self {
            XmlPiece::StartDocument => XmlPieceView::StartDocument,
            XmlPiece::EndDocument => XmlPieceView::EndDocument,
            XmlPiece::Instruction => XmlPieceView::Instruction,
            XmlPiece::StartElement(n) => XmlPieceView::StartElement(n@),
            XmlPiece::EndElement(n) => XmlPieceView::EndElement(n@),
            XmlPiece::CData(t) => XmlPieceView::CData(t@),
            XmlPiece::Comment(t) => XmlPieceView::Comment(t@),
            XmlPiece::Characters(t) => XmlPieceView::Characters(t@),
            XmlPiece::Whitespace(t) => XmlPieceView::Whitespace(t@),
            XmlPiece::Failed => XmlPieceView::Failed,
        }
    }
}

/// The views of a sequence of pieces.
pub open spec fn pieces_of(pieces: Seq<XmlPiece>) -> Seq<XmlPieceView> {
    pieces.map_values(|p: XmlPiece| p@)
}

/// The events that the XML reader yields for a document, up to and
/// including the end of the document or the first error.
pub uninterp spec fn xml_events(document: Seq<char>) -> Seq<XmlPieceView>;

/// Reads `xml` with `xml::EventReader`, in its default configuration, to
/// the end of its events. Trusted: the result is taken to be a function of
/// the text alone, which `xml_events` names; each event is carried over
/// variant for variant, an element keeping its local name only and an error
/// becoming `Failed`.
#[verifier::external_body]
fn read_xml(xml: &str) -> (r: Vec<XmlPiece>)
    ensures
        pieces_of(r@) == xml_events(xml@),
{
    xml::EventReader::new(xml.as_bytes()).into_iter().map(|event| match event {
        Ok(XmlEvent::StartDocument { .. }) => XmlPiece::StartDocument,
        Ok(XmlEvent::EndDocument) => XmlPiece::EndDocument,
        Ok(XmlEvent::ProcessingInstruction { .. }) => XmlPiece::Instruction,
        Ok(XmlEvent::StartElement { name, .. }) => XmlPiece::StartElement(name.local_name),
        Ok(XmlEvent::EndElement { name }) => XmlPiece::EndElement(name.local_name),
        Ok(XmlEvent::CData(t)) => XmlPiece::CData(t),
        Ok(XmlEvent::Comment(t)) => XmlPiece::Comment(t),
        Ok(XmlEvent::Characters(t)) => XmlPiece::Characters(t),
        Ok(XmlEvent::Whitespace(t)) => XmlPiece::Whitespace(t),
        Err(_) => XmlPiece::Failed,
    }).collect()
}

/// The text gathered from `pieces`, and whether the last of them lies
/// inside a text element. A text element is an element whose local name is
/// `t`; its start opens it, its end closes it, and while it is open the
/// character data that comes by is gathered.
pub open spec fn gathered(pieces: Seq<XmlPieceView>) -> (Seq<char>, bool)
    decreases pieces.len(),
{
    if pieces.len() == 0 {
        (Seq::empty(), false)
    } else {
        let (text, inside) = gathered(pieces.drop_last());
        match pieces.last() {
            XmlPieceView::StartElement(name) => (text, inside || name == "t"@),
            XmlPieceView::EndElement(name) => (text, inside && name != "t"@),
            XmlPieceView::Characters(t) => (
                if inside {
                    text + t
                } else {
                    text
                },
                inside,
            ),
            _ => (text, inside),
        }
    }
}

/// The text of the text elements among `pieces`, in order.
pub open spec fn text_within(pieces: Seq<XmlPieceView>) -> Seq<char> {
    gathered(pieces).0
}

/// The character data that stands inside text elements (`<w:t>` of a word
/// processor document, `<a:t>` of a presentation), concatenated in order.
pub fn gather_text(pieces: &Vec<XmlPiece>) -> (out: String)
    ensures
        out@ == text_within(pieces_of(pieces@)),
{
    let t = String::from_str("t");
    let mut out = String::new();
    let mut inside = false;
    let mut i: usize = 0;
    let ghost all = pieces_of(pieces@);
    proof {
        assert(all.take(0) =~= Seq::<XmlPieceView>::empty());
    }
    while i < pieces.len()
        invariant
            i <= pieces.len(),
            all == pieces_of(pieces@),
            t@ == "t"@,
            (out@, inside) == gathered(all.take(i as int)),
        decreases pieces.len() - i,
    {
        proof {
            assert(all.take(i + 1).drop_last() == all.take(i as int));
            assert(all.take(i + 1).last() == pieces@[i as int]@);
        }
        match &pieces[i] {
            XmlPiece::StartElement(name) => {
                if *name == t {
                    inside = true;
                }
            },
            XmlPiece::EndElement(name) => {
                if *name == t {
                    inside = false;
                }
            },
            XmlPiece::Characters(content) => {
                if inside {
                    out.append(content.as_str());
                }
            },
            _ => {},
        }
        i += 1;
    }
    proof {
        assert(all.take(pieces.len() as int) == all);
    }
    out
}

/// The text of an office document's XML part: the character data of its
/// text elements, concatenated. What the reader yields of a malformed part
/// before it fails is used as far as it goes.
pub fn extract_text_from_xml(xml: &str) -> (out: String)
    ensures
        out@ == text_within(xml_events(xml@)),
{
    let pieces = read_xml(xml);
    gather_text(&pieces)
}

/// Whether the archive entry `name` holds text of a document of
/// `file_type`: `word/document.xml` for `docx`; for anything else the
/// slides of a presentation, `ppt/slides/slide` ... `.xml`.
pub open spec fn office_target(file_type: Seq<char>, name: Seq<char>) -> bool {
    if file_type == "docx"@ {
        name == "word/document.xml"@
    } else {
        has_prefix(name, "ppt/slides/slide"@) && has_suffix(name, ".xml"@)
    }
}

/// Whether the archive entry `name` is to be read for a document of
/// `file_type`.
pub fn is_office_target(file_type: &str, name: &str) -> (r: bool)
    ensures
        r == office_target(file_type@, name@),
{
    let kind = String::from_str(file_type);
    let entry = String::from_str(name);
    if kind == String::from_str("docx") {
        entry == String::from_str("word/document.xml")
    } else {
        starts_with(name, "ppt/slides/slide") && ends_with(name, ".xml")
    }
}

/// Appends the text of the XML part `xml` to `full_text`, and a line feed
/// after it.
pub fn append_office_part(full_text: &mut String, xml: &str)
    ensures
        final(full_text)@ == old(full_text)@ + text_within(xml_events(xml@)) + seq!['\n'],
{
    let part = extract_text_from_xml(xml);
    full_text.append(part.as_str());
    proof {
        reveal_strlit("\n");
        assert("\n"@ =~= seq!['\n']);
    }
    full_text.append("\n");
}

/// How the content of a file is turned into text.
#[derive(Clone, Copy, Debug, PartialEq, Eq, Structural)]
pub enum FileKind {
    /// An image: its bytes become a data URL.
    Image,
    /// A PDF document: its text is extracted.
    Pdf,
    /// A word processor document or a presentation: the text of its XML
    /// parts is extracted.
    Office,
    /// Anything else: its bytes are decoded as text.
    Text,
}

/// The kind of a file by its extension in lower case.
pub open spec fn kind_of(extension: Seq<char>) -> FileKind {
    if extension == "png"@ || extension == "jpg"@ || extension == "jpeg"@ || extension
        == "webp"@ {
        FileKind::Image
    } else if extension == "pdf"@ {
        FileKind::Pdf
    } else if extension == "docx"@ || extension == "pptx"@ {
        FileKind::Office
    } else {
        FileKind::Text
    }
}

/// The kind of a file by its extension, which is given in lower case and
/// without the dot: `png`, `jpg`, `jpeg` and `webp` are images, `pdf` is a
/// PDF document, `docx` and `pptx` are office documents, and everything
/// else, no extension included, is text.
pub fn file_kind(extension: &str) -> (r: FileKind)
    ensures
        r == kind_of(extension@),
{
    let e = String::from_str(extension);
    if e == String::from_str("png") || e == String::from_str("jpg") || e == String::from_str(
        "jpeg",
    ) || e == String::from_str("webp") {
        FileKind::Image
    } else if e == String::from_str("pdf") {
        FileKind::Pdf
    } else if e == String::from_str("docx") || e == String::from_str("pptx") {
        FileKind::Office
    } else {
        FileKind::Text
    }
}

/// The standard base64 encoding of `bytes`, with padding.
pub uninterp spec fn base64_standard(bytes: Seq<u8>) -> Seq<char>;

/// Encodes with `base64::engine::general_purpose::STANDARD.encode`.
/// Trusted: the result is taken to be a function of the bytes alone, which
/// `base64_standard` names. The encoder panics where the length of its
/// output does not fit in `usize`; `requires` leaves those inputs out.
#[verifier::external_body]
fn encode_base64(bytes: &Vec<u8>) -> (r: String)
    requires
        (bytes@.len() / 3 + 1) * 4 <= usize::MAX,
    ensures
        r@ == base64_standard(bytes@),
{
    base64::engine::general_purpose::STANDARD.encode(bytes)
}

/// The data URL of an image of the given extension.
pub open spec fn data_url_of(extension: Seq<char>, bytes: Seq<u8>) -> Seq<char> {
    "data:image/"@ + extension + ";base64,"@ + base64_standard(bytes)
}

/// The data URL of an image: `data:image/`, the extension, `;base64,` and
/// the image's bytes in base64.
pub fn image_data_url(extension: &str, bytes: &Vec<u8>) -> (r: String)
    requires
        (bytes@.len() / 3 + 1) * 4 <= usize::MAX,
    ensures
        r@ == data_url_of(extension@, bytes@),
{
    let mut out = String::from_str("data:image/");
    out.append(extension);
    out.append(";base64,");
    let encoded = encode_base64(bytes);
    out.append(encoded.as_str());
    out
}

/// The text that decoding `bytes` gives: as the encoding that a byte order
/// mark at their start names, else as UTF-8, each malformed sequence
/// replaced by U+FFFD.
pub uninterp spec fn decoded_text(bytes: Seq<u8>) -> Seq<char>;

/// Decodes with `encoding_rs::UTF_8.decode` and keeps the text. Trusted:
/// the result is taken to be a function of the bytes alone, which
/// `decoded_text` names. The decoder panics where the size of its buffer
/// does not fit in `usize`; `requires` leaves such lengths out.
#[verifier::external_body]
fn decode_bytes(bytes: &Vec<u8>) -> (r: String)
    requires
        bytes@.len() <= usize::MAX / 8,
    ensures
        r@ == decoded_text(bytes@),
{
    encoding_rs::UTF_8.decode(bytes).0.into_owned()
}

/// The text of a file that is neither an image nor a document.
pub fn text_of_bytes(bytes: &Vec<u8>) -> (r: String)
    requires
        bytes@.len() <= usize::MAX / 8,
    ensures
        r@ == decoded_text(bytes@),
{
    decode_bytes(bytes)
}

/// The message for a PDF document whose text could not be extracted.
pub fn pdf_failure(detail: &str) -> (r: String)
    ensures
        r@ == "PDF解析失败: "@ + detail@,
{
    let mut out = String::from_str("PDF解析失败: ");
    out.append(detail);
    out
}

} // verus!
