use docsearch::pdf::filter::filter_func;
use docsearch::pdf::object::{Dictionary, Object, Stream, StringFormat};

fn dict(entries: &[(&[u8], Object)]) -> Dictionary {
    let mut dict = Dictionary::new();
    for (key, value) in entries.iter() {
        dict.set(key, value.clone());
    }
    dict
}

fn name(text: &[u8]) -> Object {
    Object::Name(text.to_vec())
}

#[test]
fn objects_of_an_ignored_type_are_left_out() {
    for kind in [
        "Length", "BBox", "FormType", "Matrix", "Type", "XObject", "Subtype", "Filter", "ColorSpace",
        "Width", "Height", "BitsPerComponent", "Length1", "Length2", "Length3", "PTEX.FileName",
        "PTEX.PageNumber", "PTEX.InfoDict", "FontDescriptor", "ExtGState", "MediaBox", "Annot",
    ] {
        let before = Object::Dictionary(dict(&[(b"Type", name(kind.as_bytes())), (b"Creator", Object::Null)]));
        let mut object = before.clone();
        assert_eq!(filter_func((1, 0), &mut object), None, "{}", kind);
        assert_eq!(object, before);
    }
}

#[test]
fn a_stream_is_left_out_by_the_type_of_its_dictionary() {
    let mut image = Object::Stream(Stream::new(dict(&[(b"Type", name(b"XObject"))]), vec![1, 2]));
    assert_eq!(filter_func((4, 0), &mut image), None);
    let content = Object::Stream(Stream::new(dict(&[(b"Producer", Object::Null)]), vec![1, 2]));
    let mut object = content.clone();
    assert_eq!(filter_func((4, 0), &mut object), Some(((4, 0), content.clone())));
    assert_eq!(object, content);
}

#[test]
fn other_types_are_kept() {
    for kind in ["Page", "Pages", "Catalog", "Font", "Annots", "length", "XObjects", ""] {
        let mut object = Object::Dictionary(dict(&[(b"Type", name(kind.as_bytes())), (b"Kids", Object::Null)]));
        let kept = filter_func((2, 1), &mut object);
        assert_eq!(kept, Some(((2, 1), object.clone())), "{}", kind);
    }
}

#[test]
fn a_type_that_is_no_name_does_not_count() {
    let inner = Object::String(b"XObject".to_vec(), StringFormat::Literal);
    let mut object = Object::Dictionary(dict(&[(b"Type", inner)]));
    assert!(filter_func((2, 0), &mut object).is_some());
}

#[test]
fn a_kept_dictionary_is_pruned() {
    let mut object = Object::Dictionary(dict(&[
        (b"Type", name(b"Page")),
        (b"Producer", Object::Null),
        (b"Contents", Object::Reference((5, 0))),
        (b"ModDate", Object::Null),
        (b"Creator", Object::Null),
        (b"ProcSet", Object::Null),
        (b"Procset", Object::Null),
        (b"XObject", Object::Null),
        (b"MediaBox", Object::Array(Vec::new())),
        (b"Annots", Object::Null),
        (b"Parent", Object::Reference((1, 0))),
    ]));
    let expected = Object::Dictionary(dict(&[
        (b"Type", name(b"Page")),
        (b"Contents", Object::Reference((5, 0))),
        (b"Parent", Object::Reference((1, 0))),
    ]));
    assert_eq!(filter_func((3, 0), &mut object), Some(((3, 0), expected.clone())));
    assert_eq!(object, expected);
}

#[test]
fn a_dictionary_that_is_empty_after_pruning_is_left_out() {
    let mut object = Object::Dictionary(dict(&[(b"Producer", Object::Null), (b"Creator", Object::Null)]));
    assert_eq!(filter_func((7, 0), &mut object), None);
    assert_eq!(object, Object::Dictionary(Dictionary::new()));
    let mut empty = Object::Dictionary(Dictionary::new());
    assert_eq!(filter_func((7, 0), &mut empty), None);
}

#[test]
fn objects_that_are_no_dictionaries_are_kept_as_they_are() {
    for before in [
        Object::Null,
        Object::Integer(3),
        Object::Boolean(true),
        name(b"XObject"),
        Object::String(b"Type".to_vec(), StringFormat::Literal),
        Object::Array(vec![name(b"Type"), name(b"XObject")]),
        Object::Reference((9, 9)),
    ] {
        let mut object = before.clone();
        assert_eq!(filter_func((8, 2), &mut object), Some(((8, 2), before.clone())));
        assert_eq!(object, before);
    }
}
