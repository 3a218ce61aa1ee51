use docsearch::pdf::object::{Dictionary, Error, Object, Stream, XrefError};
use docsearch::pdf::xref::{Xref, XrefEntry, XrefType};
use docsearch::pdf::xref_stream::{decode_xref_stream, parse_integer_array, read_big_endian_integer};

fn integers(values: &[i64]) -> Object {
    Object::Array(values.iter().map(|v| Object::Integer(*v)).collect())
}

fn xref_stream(size: i64, w: &[i64], index: Option<&[i64]>, content: &[u8]) -> Stream {
    let mut dict = Dictionary::new();
    dict.set(b"Type", Object::Name(b"XRef".to_vec()));
    dict.set(b"Size", Object::Integer(size));
    dict.set(b"W", integers(w));
    if let Some(index) = index {
        dict.set(b"Index", integers(index));
    }
    dict.set(b"Length", Object::Integer(content.len() as i64));
    Stream::new(dict, content.to_vec())
}

fn entries(xref: &Xref) -> Vec<(u32, XrefEntry)> {
    xref.entries.iter().map(|(id, entry)| (*id, *entry)).collect()
}

#[test]
fn an_integer_is_read_with_the_high_byte_first() {
    let data = [0x01u8, 0x02, 0x03, 0x04, 0x05, 0x06];
    let mut at = 0usize;
    assert_eq!(read_big_endian_integer(&data, &mut at, 1), Ok(0x01));
    assert_eq!(at, 1);
    assert_eq!(read_big_endian_integer(&data, &mut at, 2), Ok(0x0203));
    assert_eq!(at, 3);
    assert_eq!(read_big_endian_integer(&data, &mut at, 0), Ok(0));
    assert_eq!(at, 3);
    assert_eq!(read_big_endian_integer(&data, &mut at, 3), Ok(0x040506));
    assert_eq!(at, 6);
    assert_eq!(read_big_endian_integer(&data, &mut at, 0), Ok(0));
    assert_eq!(read_big_endian_integer(&data, &mut at, 1), Err(Error::UnexpectedEof));
    assert_eq!(at, 6);
}

#[test]
fn an_integer_of_more_than_four_bytes_is_cut() {
    let data = [0xAAu8, 0xBB, 0x01, 0x02, 0x03, 0x04];
    let mut at = 0usize;
    assert_eq!(read_big_endian_integer(&data, &mut at, 6), Ok(0x01020304));
    assert_eq!(at, 6);
    let mut at = 0usize;
    assert_eq!(read_big_endian_integer(&[0xFF, 0xFF, 0xFF, 0xFF], &mut at, 4), Ok(u32::MAX));
}

#[test]
fn reading_past_the_end_fails_and_moves_to_the_end() {
    let data = [1u8, 2, 3];
    let mut at = 2usize;
    assert_eq!(read_big_endian_integer(&data, &mut at, 2), Err(Error::UnexpectedEof));
    assert_eq!(at, 3);
    let mut at = 0usize;
    assert_eq!(read_big_endian_integer(&data, &mut at, u64::MAX), Err(Error::UnexpectedEof));
    assert_eq!(at, 3);
    let mut at = 9usize;
    assert_eq!(read_big_endian_integer(&data, &mut at, 0), Err(Error::UnexpectedEof));
    assert_eq!(at, 3);
}

#[test]
fn an_array_of_integers_is_read() {
    assert_eq!(parse_integer_array(&integers(&[1, -2, i64::MAX])), Ok(vec![1, -2, i64::MAX]));
    assert_eq!(parse_integer_array(&integers(&[])), Ok(Vec::new()));
    assert_eq!(parse_integer_array(&Object::Integer(1)), Err(Error::Type));
    assert_eq!(parse_integer_array(&Object::Null), Err(Error::Type));
    let mixed = Object::Array(vec![Object::Integer(1), Object::Boolean(true), Object::Integer(2)]);
    assert_eq!(parse_integer_array(&mixed), Err(Error::Type));
    let nested = Object::Array(vec![integers(&[1])]);
    assert_eq!(parse_integer_array(&nested), Err(Error::Type));
}

#[test]
fn a_table_keeps_the_last_entry_of_an_object() {
    let mut xref = Xref::new(3, XrefType::CrossReferenceTable);
    assert_eq!(xref.size, 3);
    assert_eq!(xref.cross_reference_type, XrefType::CrossReferenceTable);
    assert_eq!(xref.get(1), None);
    xref.insert(1, XrefEntry::Free);
    xref.insert(2, XrefEntry::Normal { offset: 9, generation: 0 });
    xref.insert(1, XrefEntry::Normal { offset: 100, generation: 1 });
    assert_eq!(xref.get(1), Some(&XrefEntry::Normal { offset: 100, generation: 1 }));
    assert_eq!(xref.get(2), Some(&XrefEntry::Normal { offset: 9, generation: 0 }));
    assert_eq!(xref.get(3), None);
    assert_eq!(xref.entries.len(), 2);
}

#[test]
fn a_stream_is_decoded_entry_by_entry() {
    let content = [
        0x00, 0x00, 0x00, 0xFF, // a free object
        0x01, 0x00, 0x0F, 0x00, // at offset 15
        0x02, 0x00, 0x05, 0x03, // third object of stream 5
        0x01, 0x01, 0x00, 0x02, // at offset 256, generation 2
    ];
    let (xref, dict) = decode_xref_stream(xref_stream(4, &[1, 2, 1], Some(&[0, 4]), &content)).unwrap();
    assert_eq!(xref.size, 4);
    assert_eq!(xref.cross_reference_type, XrefType::CrossReferenceStream);
    assert_eq!(
        entries(&xref),
        vec![
            (1, XrefEntry::Normal { offset: 15, generation: 0 }),
            (2, XrefEntry::Compressed { container: 5, index: 3 }),
            (3, XrefEntry::Normal { offset: 256, generation: 2 }),
        ]
    );
    assert_eq!(dict.len(), 2);
    assert_eq!(dict.get(b"Type"), Ok(&Object::Name(b"XRef".to_vec())));
    assert_eq!(dict.get(b"Size"), Ok(&Object::Integer(4)));
    assert!(!dict.has(b"W"));
    assert!(!dict.has(b"Index"));
    assert!(!dict.has(b"Length"));
}

#[test]
fn without_an_index_the_objects_are_numbered_from_zero() {
    let content = [0x01, 0x0A, 0x01, 0x0B];
    let (xref, _) = decode_xref_stream(xref_stream(2, &[1, 1, 0], None, &content)).unwrap();
    assert_eq!(
        entries(&xref),
        vec![
            (0, XrefEntry::Normal { offset: 10, generation: 0 }),
            (1, XrefEntry::Normal { offset: 11, generation: 0 }),
        ]
    );
    let mut stream = xref_stream(2, &[1, 1, 0], None, &content);
    stream.dict.set(b"Index", Object::Name(b"none".to_vec()));
    let (again, dict) = decode_xref_stream(stream).unwrap();
    assert_eq!(entries(&again), entries(&xref));
    assert!(!dict.has(b"Index"));
}

#[test]
fn sections_follow_each_other_in_the_content() {
    let content = [0x01, 0x11, 0x01, 0x22, 0x01, 0x33];
    let (xref, _) = decode_xref_stream(xref_stream(50, &[1, 1, 0], Some(&[10, 2, 40, 1]), &content)).unwrap();
    assert_eq!(
        entries(&xref),
        vec![
            (10, XrefEntry::Normal { offset: 0x11, generation: 0 }),
            (11, XrefEntry::Normal { offset: 0x22, generation: 0 }),
            (40, XrefEntry::Normal { offset: 0x33, generation: 0 }),
        ]
    );
}

#[test]
fn a_number_left_over_and_a_count_below_zero_read_nothing() {
    let content = [0x01, 0x11];
    let (xref, _) = decode_xref_stream(xref_stream(5, &[1, 1, 0], Some(&[3, 1, 9]), &content)).unwrap();
    assert_eq!(entries(&xref), vec![(3, XrefEntry::Normal { offset: 0x11, generation: 0 })]);
    let (none, _) = decode_xref_stream(xref_stream(5, &[1, 1, 0], Some(&[3, -1]), &content)).unwrap();
    assert!(none.entries.is_empty());
    let (empty, _) = decode_xref_stream(xref_stream(5, &[1, 1, 0], Some(&[]), &content)).unwrap();
    assert!(empty.entries.is_empty());
}

#[test]
fn without_a_first_field_every_entry_is_of_kind_one() {
    let content = [0x00, 0x07, 0x01, 0x00];
    let (xref, _) = decode_xref_stream(xref_stream(2, &[0, 2, 0], None, &content)).unwrap();
    assert_eq!(
        entries(&xref),
        vec![
            (0, XrefEntry::Normal { offset: 7, generation: 0 }),
            (1, XrefEntry::Normal { offset: 256, generation: 0 }),
        ]
    );
}

#[test]
fn an_entry_of_unknown_kind_ends_after_its_first_field() {
    let content = [0x07, 0x01, 0x00, 0x09];
    let (xref, _) = decode_xref_stream(xref_stream(2, &[1, 2, 0], None, &content)).unwrap();
    assert_eq!(entries(&xref), vec![(1, XrefEntry::Normal { offset: 9, generation: 0 })]);
}

#[test]
fn wide_fields_are_cut_to_what_an_entry_holds() {
    let content = [0x01, 0xAA, 0x00, 0x00, 0x00, 0x07, 0x01, 0x00, 0x05];
    let (xref, _) = decode_xref_stream(xref_stream(1, &[1, 5, 3], None, &content)).unwrap();
    assert_eq!(entries(&xref), vec![(0, XrefEntry::Normal { offset: 7, generation: 5 })]);
    let compressed = [0x02, 0x00, 0x00, 0x00, 0x03, 0x01, 0x00, 0x04];
    let (xref, _) = decode_xref_stream(xref_stream(1, &[1, 4, 3], None, &compressed)).unwrap();
    assert_eq!(entries(&xref), vec![(0, XrefEntry::Compressed { container: 3, index: 4 })]);
}

#[test]
fn object_numbers_and_the_size_are_cut_to_32_bits() {
    let content = [0x01, 0x11, 0x01, 0x22];
    let (xref, _) = decode_xref_stream(xref_stream(0x1_0000_0003, &[1, 1, 0], Some(&[-1, 2]), &content)).unwrap();
    assert_eq!(xref.size, 3);
    assert_eq!(
        entries(&xref),
        vec![
            (0, XrefEntry::Normal { offset: 0x22, generation: 0 }),
            (u32::MAX, XrefEntry::Normal { offset: 0x11, generation: 0 }),
        ]
    );
    let (xref, _) = decode_xref_stream(xref_stream(-1, &[1, 1, 0], Some(&[i64::MAX, 2]), &content)).unwrap();
    assert_eq!(xref.size, u32::MAX);
    assert_eq!(
        entries(&xref),
        vec![
            (0, XrefEntry::Normal { offset: 0x22, generation: 0 }),
            (u32::MAX, XrefEntry::Normal { offset: 0x11, generation: 0 }),
        ]
    );
    let (xref, _) = decode_xref_stream(xref_stream(1, &[1, 1, 0], Some(&[i64::MIN, 1]), &content)).unwrap();
    assert_eq!(entries(&xref), vec![(0, XrefEntry::Normal { offset: 0x11, generation: 0 })]);
}

#[test]
fn a_later_entry_of_an_object_replaces_an_earlier_one() {
    let content = [0x01, 0x11, 0x01, 0x22];
    let (xref, _) = decode_xref_stream(xref_stream(9, &[1, 1, 0], Some(&[5, 1, 5, 1]), &content)).unwrap();
    assert_eq!(entries(&xref), vec![(5, XrefEntry::Normal { offset: 0x22, generation: 0 })]);
}

#[test]
fn content_that_ends_too_early_is_an_error() {
    let content = [0x01, 0x00, 0x0F, 0x00, 0x01, 0x00];
    assert_eq!(
        decode_xref_stream(xref_stream(2, &[1, 2, 1], None, &content)).err(),
        Some(Error::UnexpectedEof)
    );
    assert_eq!(decode_xref_stream(xref_stream(1, &[1, 2, 1], None, &[])).err(), Some(Error::UnexpectedEof));
    assert_eq!(
        decode_xref_stream(xref_stream(1, &[1, i64::MAX, 1], None, &content)).err(),
        Some(Error::UnexpectedEof)
    );
    assert_eq!(
        decode_xref_stream(xref_stream(1, &[1, 2, 1], None, &[0x00, 0x00, 0x00])).err(),
        Some(Error::UnexpectedEof)
    );
    assert!(decode_xref_stream(xref_stream(0, &[1, 2, 1], None, &[])).is_ok());
}

#[test]
fn a_stream_without_size_or_widths_cannot_be_parsed() {
    let parse = Some(Error::Xref(XrefError::Parse));
    let content = [0x01, 0x00, 0x0F, 0x00];
    let mut no_size = xref_stream(1, &[1, 2, 1], None, &content);
    no_size.dict.remove(b"Size");
    assert_eq!(decode_xref_stream(no_size).err(), parse);
    let mut odd_size = xref_stream(1, &[1, 2, 1], None, &content);
    odd_size.dict.set(b"Size", Object::Name(b"one".to_vec()));
    assert_eq!(decode_xref_stream(odd_size).err(), parse);
    let mut no_w = xref_stream(1, &[1, 2, 1], None, &content);
    no_w.dict.remove(b"W");
    assert_eq!(decode_xref_stream(no_w).err(), parse);
    let mut odd_w = xref_stream(1, &[1, 2, 1], None, &content);
    odd_w.dict.set(b"W", Object::Array(vec![Object::Integer(1), Object::Null, Object::Integer(1)]));
    assert_eq!(decode_xref_stream(odd_w).err(), parse);
    assert_eq!(decode_xref_stream(xref_stream(1, &[1, 2], None, &content)).err(), parse);
    assert_eq!(decode_xref_stream(xref_stream(1, &[], None, &content)).err(), parse);
    assert_eq!(decode_xref_stream(xref_stream(1, &[-1, 2, 1], None, &content)).err(), parse);
    assert_eq!(decode_xref_stream(xref_stream(1, &[1, -2, 1], None, &content)).err(), parse);
    assert_eq!(decode_xref_stream(xref_stream(1, &[1, 2, -1], None, &content)).err(), parse);
    assert!(decode_xref_stream(xref_stream(1, &[1, 2, 1, -7], None, &content)).is_ok());
}

#[test]
fn a_stream_that_names_a_filter_is_refused() {
    let mut stream = xref_stream(1, &[1, 2, 1], None, &[0x01, 0x00, 0x0F, 0x00]);
    stream.dict.set(b"Filter", Object::Name(b"FlateDecode".to_vec()));
    assert_eq!(decode_xref_stream(stream).err(), Some(Error::Filter));
    let mut broken = xref_stream(1, &[1, 2, 1], None, &[]);
    broken.dict.remove(b"Size");
    broken.dict.set(b"Filter", Object::Null);
    assert_eq!(decode_xref_stream(broken).err(), Some(Error::Filter));
}
