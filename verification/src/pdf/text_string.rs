//! Text strings: the strings of a PDF document that hold text for a
//! reader, such as a title, and the encodings that they come in.
use crate::chars::string_from_utf8;
use crate::pdf::encodings::{
    be_bytes, bytes_to_string, decode_utf16, encode_utf16_be, pdf_doc_char, pdf_doc_text,
    text_of_utf16, units_from, units_of_bytes, units_round_trip, utf16_be_of, utf16_of,
    utf16_round_trip,
};
use crate::bytes::bytes_copy;
use crate::pdf::object::{Error, Object, StringFormat, Value};
use vstd::prelude::*;
use vstd::slice::slice_subrange;
use vstd::utf8::{decode_utf8, encode_utf8, is_ascii_chars, is_ascii_chars_encode_utf8, valid_utf8};

verus! {

/// Whether the bytes begin with the byte order mark of UTF-16, high byte
/// first.
pub open spec fn has_utf16_mark(bytes: Seq<u8>) -> bool {
    bytes.len() >= 2 && bytes[0] == 0xFE && bytes[1] == 0xFF
}

/// Whether the bytes begin with the byte order mark of UTF-8.
pub open spec fn has_utf8_mark(bytes: Seq<u8>) -> bool {
    bytes.len() >= 3 && bytes[0] == 0xEF && bytes[1] == 0xBB && bytes[2] == 0xBF
}

/// The bytes and the format in which a text is written as a text string:
/// as it is where it is all ASCII, else in UTF-16 after a byte order mark.
pub open spec fn text_string_of(text: Seq<char>) -> Value {
    if is_ascii_chars(text) {
        Value::String(encode_utf8(text), StringFormat::Literal)
    } else {
        Value::String(utf16_be_of(text), StringFormat::Hexadecimal)
    }
}

/// The text that the bytes of a text string hold.
///
/// The byte order mark at the start chooses the encoding: UTF-16 with the
/// high byte first, UTF-8, or without a mark PDFDocEncoding. The mark of
/// UTF-16 is no part of the text; that of UTF-8 is read as part of it.
pub open spec fn text_of_bytes(bytes: Seq<u8>) -> Result<Seq<char>, Error> {
    if has_utf16_mark(bytes) {
        match text_of_utf16(units_from(bytes.skip(2))) {
            Some(text) => Ok(text),
            None => Err(Error::StringDecode),
        }
    } else if has_utf8_mark(bytes) {
        if valid_utf8(bytes) {
            Ok(decode_utf8(bytes))
        } else {
            Err(Error::StringDecode)
        }
    } else {
        Ok(pdf_doc_text(bytes))
    }
}

/// The text that a text string holds; an object that is no string holds
/// none.
pub open spec fn text_of(object: Value) -> Result<Seq<char>, Error> {
    match object {
        Value::String(bytes, _) => text_of_bytes(bytes),
        _ => Err(Error::Type),
    }
}

/// The characters that PDFDocEncoding reads back as they are written in
/// ASCII: the printable ones, the tab and the two ends of a line.
pub open spec fn is_plain(text: Seq<char>) -> bool {
    forall|i: int|
        0 <= i < text.len() ==> {
            let c = #[trigger] text[i];
            ||| ' ' <= c <= '~'
            ||| c == '\t'
            ||| c == '\n'
            ||| c == '\r'
        }
}

proof fn plain_text_is_kept(text: Seq<char>, bytes: Seq<u8>)
    requires
        is_plain(text),
        bytes.len() == text.len(),
        forall|i: int| 0 <= i < text.len() ==> bytes[i] == text[i] as u8,
    ensures
        pdf_doc_text(bytes) == text,
    decreases text.len(),
{
    if text.len() != 0 {
        plain_text_is_kept(text.drop_last(), bytes.drop_last());
    }
}

/// A text that is written as a text string is read back as it was.
///
/// This holds of every text with a character beyond ASCII, and of a text
/// in ASCII where it is plain: PDFDocEncoding has no place for the other
/// control characters.
pub proof fn text_string_round_trip(text: Seq<char>)
    requires
        is_ascii_chars(text) ==> is_plain(text),
    ensures
        text_of(text_string_of(text)) == Ok::<Seq<char>, Error>(text),
{
    if is_ascii_chars(text) {
        let bytes = encode_utf8(text);
        is_ascii_chars_encode_utf8(text);
        assert(!has_utf16_mark(bytes));
        assert(!has_utf8_mark(bytes));
        plain_text_is_kept(text, bytes);
    } else {
        let units = utf16_of(text);
        let bytes = utf16_be_of(text);
        assert(bytes.skip(2) =~= be_bytes(units));
        units_round_trip(units);
        utf16_round_trip(text);
    }
}

/// Creates a text string. A text of ASCII characters only is written as
/// it is; any other text in UTF-16 with the high byte first.
pub fn text_string(text: &str) -> (object: Object)
    ensures
        object.deep_view() == text_string_of(text@),
{
    if text.is_ascii() {
        Object::String(bytes_copy(text.as_bytes()), StringFormat::Literal)
    } else {
        Object::String(encode_utf16_be(text), StringFormat::Hexadecimal)
    }
}

/// Decodes a text string. The byte order mark at the start of the string
/// chooses the encoding.
pub fn decode_text_string(object: &Object) -> (text: Result<String, Error>)
    ensures
        match text {
            Ok(text) => text_of(object.deep_view()) == Ok::<Seq<char>, Error>(text@),
            Err(e) => text_of(object.deep_view()) == Err::<Seq<char>, Error>(e),
        },
{
    let bytes = match object.as_str() {
        Ok(bytes) => bytes,
        Err(e) => {
            return Err(e);
        },
    };
    if bytes.len() >= 2 && bytes[0] == 0xFE && bytes[1] == 0xFF {
        let rest = slice_subrange(bytes, 2, bytes.len());
        let units = units_of_bytes(rest);
        match decode_utf16(&units) {
            Some(text) => Ok(text),
            None => Err(Error::StringDecode),
        }
    } else if bytes.len() >= 3 && bytes[0] == 0xEF && bytes[1] == 0xBB && bytes[2] == 0xBF {
        match string_from_utf8(bytes_copy(bytes)) {
            Some(text) => Ok(text),
            None => Err(Error::StringDecode),
        }
    } else {
        Ok(bytes_to_string(bytes))
    }
}

} // verus!
