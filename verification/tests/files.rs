use aio_core::files::{
    append_office_part, extract_text_from_xml, file_kind, gather_text, image_data_url,
    is_office_target, pdf_failure, text_of_bytes, FileKind, XmlPiece,
};

#[test]
fn text_elements_of_a_document_are_concatenated() {
    let xml = "<?xml version=\"1.0\"?><w:document xmlns:w=\"urn:w\"><w:body><w:p><w:r><w:t>Hello</w:t></w:r><w:r><w:rPr>skipped</w:rPr><w:t xml:space=\"preserve\"> World</w:t></w:r></w:p></w:body></w:document>";
    assert_eq!(extract_text_from_xml(xml), "Hello World");
}

#[test]
fn text_outside_text_elements_is_left_out() {
    assert_eq!(extract_text_from_xml("<a><b>no</b><t>yes</t>no<t>&amp; more</t></a>"), "yes& more");
    assert_eq!(extract_text_from_xml("<a>nothing here</a>"), "");
    assert_eq!(extract_text_from_xml(""), "");
}

#[test]
fn malformed_xml_gives_what_came_before_the_error() {
    assert_eq!(extract_text_from_xml("<a><t>kept</t><t>lost"), "kept");
    assert_eq!(extract_text_from_xml("not xml at all"), "");
}

#[test]
fn gather_text_follows_open_and_close_of_t() {
    let pieces = vec![
        XmlPiece::StartDocument,
        XmlPiece::Characters("before".to_string()),
        XmlPiece::StartElement("t".to_string()),
        XmlPiece::Characters("one".to_string()),
        XmlPiece::StartElement("b".to_string()),
        XmlPiece::Characters("two".to_string()),
        XmlPiece::EndElement("b".to_string()),
        XmlPiece::CData("cdata".to_string()),
        XmlPiece::Whitespace("  ".to_string()),
        XmlPiece::Comment("c".to_string()),
        XmlPiece::EndElement("t".to_string()),
        XmlPiece::Characters("after".to_string()),
        XmlPiece::StartElement("T".to_string()),
        XmlPiece::Characters("upper".to_string()),
        XmlPiece::Failed,
        XmlPiece::EndDocument,
    ];
    assert_eq!(gather_text(&pieces), "onetwo");
    assert_eq!(gather_text(&vec![]), "");
}

#[test]
fn office_targets_are_the_document_and_the_slides() {
    assert!(is_office_target("docx", "word/document.xml"));
    assert!(!is_office_target("docx", "word/styles.xml"));
    assert!(!is_office_target("docx", "ppt/slides/slide1.xml"));
    assert!(is_office_target("pptx", "ppt/slides/slide1.xml"));
    assert!(is_office_target("pptx", "ppt/slides/slide12.xml"));
    assert!(is_office_target("pptx", "ppt/slides/slide.xml"));
    assert!(!is_office_target("pptx", "ppt/slides/_rels/slide1.xml.rels"));
    assert!(!is_office_target("pptx", "ppt/slideLayouts/slideLayout1.xml"));
    assert!(!is_office_target("pptx", "word/document.xml"));
    assert!(is_office_target("anything", "ppt/slides/slide3.xml"));
}

#[test]
fn office_parts_are_joined_with_line_feeds() {
    let mut full = String::new();
    append_office_part(&mut full, "<p><t>first</t></p>");
    append_office_part(&mut full, "<p><x>none</x></p>");
    append_office_part(&mut full, "<p><t>third</t></p>");
    assert_eq!(full, "first\n\nthird\n");
}

#[test]
fn kinds_go_by_the_extension() {
    for e in ["png", "jpg", "jpeg", "webp"] {
        assert_eq!(file_kind(e), FileKind::Image);
    }
    assert_eq!(file_kind("pdf"), FileKind::Pdf);
    assert_eq!(file_kind("docx"), FileKind::Office);
    assert_eq!(file_kind("pptx"), FileKind::Office);
    for e in ["", "txt", "rs", "PNG", "gif", "doc", "xlsx", "pdfx"] {
        assert_eq!(file_kind(e), FileKind::Text);
    }
}

#[test]
fn image_becomes_a_data_url() {
    assert_eq!(image_data_url("png", &vec![]), "data:image/png;base64,");
    assert_eq!(image_data_url("jpeg", &b"hello world~".to_vec()), "data:image/jpeg;base64,aGVsbG8gd29ybGR+");
    assert_eq!(image_data_url("webp", &vec![0xff, 0xfe]), "data:image/webp;base64,//4=");
    assert_eq!(image_data_url("jpg", &vec![0]), "data:image/jpg;base64,AA==");
}

#[test]
fn bytes_are_decoded_as_utf8_with_replacement() {
    assert_eq!(text_of_bytes(&"plain text".as_bytes().to_vec()), "plain text");
    assert_eq!(text_of_bytes(&"héllo 日本".as_bytes().to_vec()), "héllo 日本");
    assert_eq!(text_of_bytes(&vec![b'a', 0xff, b'b']), "a\u{fffd}b");
    assert_eq!(text_of_bytes(&vec![0xef, 0xbb, 0xbf, b'x']), "x");
    assert_eq!(text_of_bytes(&vec![]), "");
}

#[test]
fn pdf_failure_is_prefixed() {
    assert_eq!(pdf_failure("no xref"), "PDF解析失败: no xref");
}
