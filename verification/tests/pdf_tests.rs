use docsearch::pdf::content::{Content, Operation};
use docsearch::pdf::document::Document;
use docsearch::pdf::encodings::{
    bytes_to_string, decode_pdf_doc_byte, decode_utf16, encode_utf16_be, units_of_bytes,
};
use docsearch::pdf::incremental_document::IncrementalDocument;
use docsearch::bytes::{bytes_copy, bytes_eq, str_eq};
use docsearch::pdf::object::{Dictionary, Error, Object, Stream, StringFormat};
use docsearch::pdf::text_string::{decode_text_string, text_string};
use docsearch::pdf::xobject::PdfImage;

#[test]
fn an_ascii_text_is_written_as_it_is() {
    assert_eq!(text_string("Hello, PDF"), Object::String(b"Hello, PDF".to_vec(), StringFormat::Literal));
    assert_eq!(text_string(""), Object::String(Vec::new(), StringFormat::Literal));
}

#[test]
fn any_other_text_is_written_in_utf16_after_a_mark() {
    assert_eq!(
        text_string("h\u{e9}"),
        Object::String(vec![0xFE, 0xFF, 0x00, 0x68, 0x00, 0xE9], StringFormat::Hexadecimal)
    );
    assert_eq!(
        text_string("\u{1F600}"),
        Object::String(vec![0xFE, 0xFF, 0xD8, 0x3D, 0xDE, 0x00], StringFormat::Hexadecimal)
    );
}

#[test]
fn utf16_has_the_high_byte_first() {
    assert_eq!(encode_utf16_be(""), vec![0xFE, 0xFF]);
    assert_eq!(encode_utf16_be("A\u{20AC}"), vec![0xFE, 0xFF, 0x00, 0x41, 0x20, 0xAC]);
    assert_eq!(encode_utf16_be("\u{10000}\u{10FFFF}"), vec![0xFE, 0xFF, 0xD8, 0x00, 0xDC, 0x00, 0xDB, 0xFF, 0xDF, 0xFF]);
    assert_eq!(encode_utf16_be("\u{FFFF}\u{D7FF}\u{E000}"), vec![0xFE, 0xFF, 0xFF, 0xFF, 0xD7, 0xFF, 0xE0, 0x00]);
}

#[test]
fn a_text_string_is_read_back_as_it_was_written() {
    for text in ["", "plain ASCII text\twith\r\nbreaks", "h\u{e9}llo w\u{f6}rld", "\u{65e5}\u{672c}\u{8a9e}", "a\u{1F600}b\u{10FFFF}", "\u{0}\u{e9}"] {
        assert_eq!(decode_text_string(&text_string(text)), Ok(text.to_string()), "{:?}", text);
    }
}

#[test]
fn control_characters_in_ascii_are_not_read_back() {
    assert_eq!(decode_text_string(&text_string("a\u{0}b\u{7f}c")), Ok("abc".to_string()));
}

#[test]
fn a_mark_chooses_utf16() {
    let object = Object::String(vec![0xFE, 0xFF, 0x00, 0x48, 0x00, 0x69], StringFormat::Hexadecimal);
    assert_eq!(decode_text_string(&object), Ok("Hi".to_string()));
    let only_mark = Object::String(vec![0xFE, 0xFF], StringFormat::Literal);
    assert_eq!(decode_text_string(&only_mark), Ok(String::new()));
}

#[test]
fn a_single_byte_at_the_end_is_a_high_byte() {
    let object = Object::String(vec![0xFE, 0xFF, 0x00, 0x48, 0x01], StringFormat::Hexadecimal);
    assert_eq!(decode_text_string(&object), Ok("H\u{100}".to_string()));
    assert_eq!(units_of_bytes(&[0x12, 0x34, 0x56]), vec![0x1234, 0x5600]);
    assert_eq!(units_of_bytes(&[]), Vec::<u16>::new());
    assert_eq!(units_of_bytes(&[0xAB]), vec![0xAB00]);
}

#[test]
fn a_surrogate_without_its_partner_is_an_error() {
    let lone_high = Object::String(vec![0xFE, 0xFF, 0xD8, 0x3D], StringFormat::Hexadecimal);
    assert_eq!(decode_text_string(&lone_high), Err(Error::StringDecode));
    let lone_low = Object::String(vec![0xFE, 0xFF, 0xDE, 0x00, 0x00, 0x41], StringFormat::Hexadecimal);
    assert_eq!(decode_text_string(&lone_low), Err(Error::StringDecode));
    let high_then_letter = Object::String(vec![0xFE, 0xFF, 0xD8, 0x3D, 0x00, 0x41], StringFormat::Hexadecimal);
    assert_eq!(decode_text_string(&high_then_letter), Err(Error::StringDecode));
    assert_eq!(decode_utf16(&vec![0xD83D, 0xDE00]), Some("\u{1F600}".to_string()));
    assert_eq!(decode_utf16(&vec![0xDBFF, 0xDFFF]), Some("\u{10FFFF}".to_string()));
    assert_eq!(decode_utf16(&vec![0xD83D]), None);
    assert_eq!(decode_utf16(&vec![0xDE00, 0xD83D]), None);
    assert_eq!(decode_utf16(&vec![0x41, 0xD7FF, 0xE000, 0xFFFF]), Some("A\u{D7FF}\u{E000}\u{FFFF}".to_string()));
}

#[test]
fn a_mark_chooses_utf8_and_stays_in_the_text() {
    let object = Object::String(vec![0xEF, 0xBB, 0xBF, 0x68, 0xC3, 0xA9], StringFormat::Literal);
    assert_eq!(decode_text_string(&object), Ok("\u{FEFF}h\u{e9}".to_string()));
    let broken = Object::String(vec![0xEF, 0xBB, 0xBF, 0xC3], StringFormat::Literal);
    assert_eq!(decode_text_string(&broken), Err(Error::StringDecode));
    let stray = Object::String(vec![0xEF, 0xBB, 0xBF, 0xFF], StringFormat::Literal);
    assert_eq!(decode_text_string(&stray), Err(Error::StringDecode));
}

#[test]
fn without_a_mark_the_bytes_are_in_pdf_doc_encoding() {
    let object = Object::String(vec![0x41, 0x80, 0xA0, 0xE9, 0x18, 0x9E], StringFormat::Literal);
    assert_eq!(decode_text_string(&object), Ok("A\u{2022}\u{20AC}\u{e9}\u{2D8}\u{17E}".to_string()));
    let almost_marks = Object::String(vec![0xFE], StringFormat::Literal);
    assert_eq!(decode_text_string(&almost_marks), Ok("\u{FE}".to_string()));
    let short_utf8_mark = Object::String(vec![0xEF, 0xBB], StringFormat::Literal);
    assert_eq!(decode_text_string(&short_utf8_mark), Ok("\u{EF}\u{BB}".to_string()));
}

#[test]
fn pdf_doc_encoding_leaves_some_bytes_undefined() {
    for byte in [0x00u8, 0x08, 0x0B, 0x0C, 0x0E, 0x17, 0x7F, 0x9F, 0xAD] {
        assert_eq!(decode_pdf_doc_byte(byte), None, "{:#x}", byte);
    }
    assert_eq!(bytes_to_string(&[0x00, 0x41, 0x7F, 0x42, 0x9F, 0xAD, 0x43]), "ABC");
    let defined = (0..=255u8).filter(|b| decode_pdf_doc_byte(*b).is_some()).count();
    assert_eq!(defined, 256 - 21 - 3);
}

#[test]
fn pdf_doc_encoding_by_the_table() {
    assert_eq!(decode_pdf_doc_byte(0x09), Some('\t'));
    assert_eq!(decode_pdf_doc_byte(0x0A), Some('\n'));
    assert_eq!(decode_pdf_doc_byte(0x0D), Some('\r'));
    let accents = ['\u{2D8}', '\u{2C7}', '\u{2C6}', '\u{2D9}', '\u{2DD}', '\u{2DB}', '\u{2DA}', '\u{2DC}'];
    for (i, c) in accents.iter().enumerate() {
        assert_eq!(decode_pdf_doc_byte(0x18 + i as u8), Some(*c));
    }
    for byte in 0x20..0x7Fu8 {
        assert_eq!(decode_pdf_doc_byte(byte), Some(byte as char));
    }
    let symbols = [
        '\u{2022}', '\u{2020}', '\u{2021}', '\u{2026}', '\u{2014}', '\u{2013}', '\u{192}', '\u{2044}',
        '\u{2039}', '\u{203A}', '\u{2212}', '\u{2030}', '\u{201E}', '\u{201C}', '\u{201D}', '\u{2018}',
        '\u{2019}', '\u{201A}', '\u{2122}', '\u{FB01}', '\u{FB02}', '\u{141}', '\u{152}', '\u{160}',
        '\u{178}', '\u{17D}', '\u{131}', '\u{142}', '\u{153}', '\u{161}', '\u{17E}',
    ];
    for (i, c) in symbols.iter().enumerate() {
        assert_eq!(decode_pdf_doc_byte(0x80 + i as u8), Some(*c));
    }
    assert_eq!(decode_pdf_doc_byte(0xA0), Some('\u{20AC}'));
    for byte in 0xA1..=0xFFu8 {
        if byte != 0xAD {
            assert_eq!(decode_pdf_doc_byte(byte), Some(byte as char));
        }
    }
}

#[test]
fn only_a_string_holds_a_text() {
    assert_eq!(decode_text_string(&Object::Null), Err(Error::Type));
    assert_eq!(decode_text_string(&Object::Integer(7)), Err(Error::Type));
    assert_eq!(decode_text_string(&Object::Name(b"Title".to_vec())), Err(Error::Type));
    assert_eq!(decode_text_string(&Object::Array(vec![text_string("x")])), Err(Error::Type));
}

#[test]
fn an_object_is_read_as_the_kind_it_is() {
    let string = Object::String(b"abc".to_vec(), StringFormat::Literal);
    assert_eq!(string.as_str(), Ok(&b"abc"[..]));
    assert_eq!(string.as_name(), Err(Error::Type));
    assert_eq!(string.as_i64(), Err(Error::Type));
    assert!(string.as_array().is_err());
    let name = Object::Name(b"Font".to_vec());
    assert_eq!(name.as_name(), Ok(&b"Font"[..]));
    assert_eq!(name.as_str(), Err(Error::Type));
    assert_eq!(Object::Integer(-5).as_i64(), Ok(-5));
    assert_eq!(Object::Boolean(true).as_i64(), Err(Error::Type));
    let array = Object::Array(vec![Object::Integer(1), Object::Null]);
    assert_eq!(array.as_array().unwrap().len(), 2);
    assert_eq!(Object::Reference((3, 0)).as_array().err(), Some(Error::Type));
}

#[test]
fn bytes_are_compared_and_copied() {
    assert!(bytes_eq(b"", b""));
    assert!(bytes_eq(b"abc", b"abc"));
    assert!(!bytes_eq(b"abc", b"abd"));
    assert!(!bytes_eq(b"abc", b"ab"));
    assert!(!bytes_eq(b"ab", b"abc"));
    assert_eq!(bytes_copy(b"xyz"), b"xyz".to_vec());
    assert_eq!(bytes_copy(b""), Vec::<u8>::new());
    assert!(str_eq("", ""));
    assert!(str_eq("caf\u{e9}", "caf\u{e9}"));
    assert!(!str_eq("cafe", "caf\u{e9}"));
    assert!(!str_eq("pdf", "PDF"));
    assert!(!str_eq("pdf", "pdfs"));
}

#[test]
fn a_dictionary_keeps_one_entry_for_each_key() {
    let mut dict = Dictionary::new();
    assert!(dict.is_empty());
    assert_eq!(dict.get(b"Size").err(), Some(Error::DictKey));
    dict.set(b"Size", Object::Integer(3));
    dict.set(b"Root", Object::Reference((1, 0)));
    dict.set(b"Size", Object::Integer(4));
    assert_eq!(dict.len(), 2);
    assert!(!dict.is_empty());
    assert_eq!(dict.get(b"Size"), Ok(&Object::Integer(4)));
    assert_eq!(dict.get(b"Root"), Ok(&Object::Reference((1, 0))));
    assert!(dict.has(b"Root"));
    assert!(!dict.has(b"root"));
    assert_eq!(dict.remove(b"Size"), Some(Object::Integer(4)));
    assert_eq!(dict.remove(b"Size"), None);
    assert_eq!(dict.len(), 1);
    assert_eq!(dict.get(b"Size").err(), Some(Error::DictKey));
    assert_eq!(dict.get(b"Root"), Ok(&Object::Reference((1, 0))));
}

#[test]
fn setting_a_key_again_keeps_its_place() {
    let mut first = Dictionary::new();
    first.set(b"A", Object::Integer(1));
    first.set(b"B", Object::Integer(2));
    first.set(b"A", Object::Integer(3));
    let mut second = Dictionary::new();
    second.set(b"A", Object::Integer(3));
    second.set(b"B", Object::Integer(2));
    assert_eq!(first, second);
    let mut other = Dictionary::new();
    other.set(b"B", Object::Integer(2));
    other.set(b"A", Object::Integer(3));
    assert_ne!(first, other);
}

#[test]
fn a_copy_holds_all_that_the_object_holds() {
    let mut inner = Dictionary::new();
    inner.set(b"Kids", Object::Array(vec![Object::Reference((2, 0)), Object::Null]));
    let mut dict = Dictionary::new();
    dict.set(b"Pages", Object::Dictionary(inner));
    dict.set(b"Title", text_string("caf\u{e9}"));
    let stream = Stream::new(dict.copy(), vec![1, 2, 3]);
    let object = Object::Array(vec![
        Object::Boolean(false),
        Object::Integer(i64::MIN),
        Object::Name(b"N".to_vec()),
        Object::Dictionary(dict),
        Object::Stream(stream),
    ]);
    assert_eq!(object.copy(), object);
    assert_eq!(object.clone(), object);
}

#[test]
fn a_new_stream_may_be_compressed() {
    let stream = Stream::new(Dictionary::new(), vec![9, 8]);
    assert_eq!(stream.content, vec![9, 8]);
    assert!(stream.dict.is_empty());
    assert!(stream.allows_compression);
    assert_eq!(stream.start_position, None);
}

#[test]
fn an_operation_keeps_its_operator_and_operands() {
    let operation = Operation::new("Tj", vec![text_string("Hi")]);
    assert_eq!(operation.operator, "Tj");
    assert_eq!(operation.operands, vec![Object::String(b"Hi".to_vec(), StringFormat::Literal)]);
    let content = Content { operations: vec![operation, Operation::new("ET", Vec::new())] };
    assert_eq!(content.operations.len(), 2);
    assert!(content.operations[1].operands.is_empty());
}

#[test]
fn a_new_document_is_empty() {
    let document = Document::new();
    assert_eq!(document.version, "1.4");
    assert!(document.trailer.is_empty());
    assert!(document.objects.is_empty());
    assert_eq!(document.max_id, 0);
    assert_eq!(document.xref_start, 0);
}

#[test]
fn a_continued_document_points_back() {
    let mut prev = Document::new();
    prev.version = "1.7".to_string();
    prev.trailer.set(b"Size", Object::Integer(12));
    prev.trailer.set(b"Root", Object::Reference((1, 0)));
    prev.objects.push(((1, 0), Object::Null));
    prev.max_id = 11;
    prev.xref_start = 4096;
    let next = Document::new_from_prev(&prev);
    assert_eq!(next.version, "1.4");
    assert_eq!(next.max_id, 11);
    assert_eq!(next.xref_start, 0);
    assert!(next.objects.is_empty());
    assert_eq!(next.trailer.len(), 3);
    assert_eq!(next.trailer.get(b"Size"), Ok(&Object::Integer(12)));
    assert_eq!(next.trailer.get(b"Root"), Ok(&Object::Reference((1, 0))));
    assert_eq!(next.trailer.get(b"Prev"), Ok(&Object::Integer(4096)));
    assert_eq!(prev.trailer.len(), 2);
}

#[test]
fn continuing_replaces_an_older_pointer() {
    let mut prev = Document::new();
    prev.trailer.set(b"Prev", Object::Integer(100));
    prev.trailer.set(b"Size", Object::Integer(5));
    prev.xref_start = 900;
    let next = Document::new_from_prev(&prev);
    assert_eq!(next.trailer.len(), 2);
    assert_eq!(next.trailer.get(b"Prev"), Ok(&Object::Integer(900)));
    assert_eq!(prev.trailer.get(b"Prev"), Ok(&Object::Integer(100)));
}

#[test]
fn an_incremental_document_starts_empty() {
    for document in [IncrementalDocument::new(), IncrementalDocument::default()] {
        assert!(document.get_prev_documents_bytes().is_empty());
        assert!(document.get_prev_documents().objects.is_empty());
        assert!(document.get_prev_documents().trailer.is_empty());
        assert_eq!(document.get_prev_documents().version, "1.4");
        assert!(document.new_document.objects.is_empty());
        assert!(document.new_document.trailer.is_empty());
    }
}

#[test]
fn an_incremental_document_keeps_what_was_read() {
    let mut prev = Document::new();
    prev.trailer.set(b"Size", Object::Integer(2));
    prev.objects.push(((1, 0), text_string("kept")));
    prev.max_id = 1;
    prev.xref_start = 77;
    let document = IncrementalDocument::create_from(b"%PDF-1.4".to_vec(), prev);
    assert_eq!(document.get_prev_documents_bytes(), &b"%PDF-1.4"[..]);
    assert_eq!(document.get_prev_documents().xref_start, 77);
    assert_eq!(document.get_prev_documents().objects.len(), 1);
    assert_eq!(document.get_prev_documents().objects[0], ((1, 0), text_string("kept")));
    assert_eq!(document.new_document.max_id, 1);
    assert!(document.new_document.objects.is_empty());
    assert_eq!(document.new_document.trailer.get(b"Prev"), Ok(&Object::Integer(77)));
    assert_eq!(document.new_document.trailer.get(b"Size"), Ok(&Object::Integer(2)));
}

#[test]
fn an_image_names_its_stream() {
    let mut dict = Dictionary::new();
    dict.set(b"Width", Object::Integer(2));
    let data = [0u8, 255, 0, 255];
    let image = PdfImage {
        id: (9, 0),
        width: 2,
        height: 2,
        color_space: Some("DeviceGray".to_string()),
        filters: None,
        bits_per_component: Some(8),
        content: &data,
        origin_dict: &dict,
    };
    assert_eq!(image.id, (9, 0));
    assert_eq!(image.content.len() as i64, image.width * image.height);
    assert_eq!(image.origin_dict.get(b"Width"), Ok(&Object::Integer(2)));
}

#[test]
fn a_cloned_document_holds_the_same() {
    let mut prev = Document::new();
    prev.trailer.set(b"Size", Object::Integer(2));
    prev.objects.push(((1, 0), text_string("kept")));
    prev.objects.push(((2, 0), Object::Array(vec![Object::Reference((1, 0))])));
    prev.max_id = 2;
    prev.xref_start = 77;
    let copy = prev.clone();
    assert_eq!(copy.version, prev.version);
    assert_eq!(copy.trailer, prev.trailer);
    assert_eq!(copy.objects, prev.objects);
    assert_eq!(copy.max_id, 2);
    assert_eq!(copy.xref_start, 77);
    let document = IncrementalDocument::create_from(vec![1, 2, 3], prev);
    let again = document.clone();
    assert_eq!(again.get_prev_documents_bytes(), document.get_prev_documents_bytes());
    assert_eq!(again.get_prev_documents().objects, document.get_prev_documents().objects);
    assert_eq!(again.new_document.trailer, document.new_document.trailer);
}

#[test]
fn a_cloned_image_names_the_same_stream() {
    let dict = Dictionary::new();
    let data = [7u8; 4];
    let image = PdfImage {
        id: (3, 1),
        width: 2,
        height: 2,
        color_space: Some("DeviceRGB".to_string()),
        filters: Some(vec!["FlateDecode".to_string()]),
        bits_per_component: None,
        content: &data,
        origin_dict: &dict,
    };
    let copy = image.clone();
    assert_eq!(copy.id, (3, 1));
    assert_eq!(copy.color_space, image.color_space);
    assert_eq!(copy.filters, image.filters);
    assert_eq!(copy.content, image.content);
    assert_eq!(copy.bits_per_component, None);
}
