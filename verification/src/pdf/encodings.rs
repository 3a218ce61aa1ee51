//! The encodings of text strings: UTF-16 with the high byte first, and
//! PDFDocEncoding.
use crate::chars::{char_from_u32, push_char};
use vstd::prelude::*;

verus! {

/// The UTF-16 code units of one character: the character itself where it
/// fits into one unit, else a high and a low surrogate.
pub open spec fn units_of_char(c: char) -> Seq<u16> {
    let v = c as u32;
    if v < 0x10000 {
        seq![v as u16]
    } else {
        seq![
            (0xD800 + (v - 0x10000) / 0x400) as u16,
            (0xDC00 + (v - 0x10000) % 0x400) as u16,
        ]
    }
}

/// The UTF-16 code units of a text.
pub open spec fn utf16_of(text: Seq<char>) -> Seq<u16>
    decreases text.len(),
{
    if text.len() == 0 {
        Seq::empty()
    } else {
        units_of_char(text.first()) + utf16_of(text.drop_first())
    }
}

/// The code units as bytes, the high byte of each unit first.
pub open spec fn be_bytes(units: Seq<u16>) -> Seq<u8> {
    Seq::new(
        2 * units.len(),
        |i: int|
            if i % 2 == 0 {
                (units[i / 2] / 256) as u8
            } else {
                (units[i / 2] % 256) as u8
            },
    )
}

/// The byte order mark and the text in UTF-16, the high byte of each unit
/// first.
pub open spec fn utf16_be_of(text: Seq<char>) -> Seq<u8> {
    seq![0xFEu8, 0xFFu8] + be_bytes(utf16_of(text))
}

/// The code units that the bytes hold, two bytes to a unit with the high
/// byte first. A single byte that is left at the end is the high byte of
/// a last unit.
pub open spec fn units_from(bytes: Seq<u8>) -> Seq<u16> {
    Seq::new(
        ((bytes.len() + 1) / 2) as nat,
        |i: int|
            if 2 * i + 1 < bytes.len() {
                (bytes[2 * i] * 256 + bytes[2 * i + 1]) as u16
            } else {
                (bytes[2 * i] * 256) as u16
            },
    )
}

/// Whether a code unit is a surrogate.
pub open spec fn is_surrogate(unit: u16) -> bool {
    0xD800 <= unit <= 0xDFFF
}

/// The text that the code units encode in UTF-16, or nothing where a
/// surrogate stands without its partner.
pub open spec fn text_of_utf16(units: Seq<u16>) -> Option<Seq<char>>
    decreases units.len(),
{
    if units.len() == 0 {
        Some(Seq::empty())
    } else if !is_surrogate(units[0]) {
        match text_of_utf16(units.skip(1)) {
            Some(rest) => Some(seq![units[0] as char] + rest),
            None => None,
        }
    } else if units[0] <= 0xDBFF && units.len() >= 2 && 0xDC00 <= units[1] <= 0xDFFF {
        match text_of_utf16(units.skip(2)) {
            Some(rest) => Some(
                seq![(0x10000 + (units[0] - 0xD800) * 0x400 + (units[1] - 0xDC00)) as char] + rest,
            ),
            None => None,
        }
    } else {
        None
    }
}

/// The character that a byte stands for in PDFDocEncoding, or nothing
/// where the encoding leaves the byte undefined.
pub open spec fn pdf_doc_char(byte: u8) -> Option<char> {
    if byte == 0x09 || byte == 0x0A || byte == 0x0D {
        Some(byte as char)
    } else if byte < 0x18 {
        None
    } else if byte < 0x20 {
        Some(pdf_doc_accent(byte))
    } else if byte < 0x7F {
        Some(byte as char)
    } else if byte == 0x7F || byte == 0x9F || byte == 0xAD {
        None
    } else if byte < 0xA1 {
        Some(pdf_doc_symbol(byte))
    } else {
        Some(byte as char)
    }
}

/// The accents that PDFDocEncoding puts at the bytes from 0x18 to 0x1F.
pub open spec fn pdf_doc_accent(byte: u8) -> char {
    if byte == 0x18 {
        '\u{02D8}'
    } else if byte == 0x19 {
        '\u{02C7}'
    } else if byte == 0x1A {
        '\u{02C6}'
    } else if byte == 0x1B {
        '\u{02D9}'
    } else if byte == 0x1C {
        '\u{02DD}'
    } else if byte == 0x1D {
        '\u{02DB}'
    } else if byte == 0x1E {
        '\u{02DA}'
    } else {
        '\u{02DC}'
    }
}

/// The symbols and letters that PDFDocEncoding puts at the bytes from
/// 0x80 to 0xA0.
pub open spec fn pdf_doc_symbol(byte: u8) -> char {
    if byte == 0x80 {
        '\u{2022}'
    } else if byte == 0x81 {
        '\u{2020}'
    } else if byte == 0x82 {
        '\u{2021}'
    } else if byte == 0x83 {
        '\u{2026}'
    } else if byte == 0x84 {
        '\u{2014}'
    } else if byte == 0x85 {
        '\u{2013}'
    } else if byte == 0x86 {
        '\u{0192}'
    } else if byte == 0x87 {
        '\u{2044}'
    } else if byte == 0x88 {
        '\u{2039}'
    } else if byte == 0x89 {
        '\u{203A}'
    } else if byte == 0x8A {
        '\u{2212}'
    } else if byte == 0x8B {
        '\u{2030}'
    } else if byte == 0x8C {
        '\u{201E}'
    } else if byte == 0x8D {
        '\u{201C}'
    } else if byte == 0x8E {
        '\u{201D}'
    } else if byte == 0x8F {
        '\u{2018}'
    } else if byte == 0x90 {
        '\u{2019}'
    } else if byte == 0x91 {
        '\u{201A}'
    } else if byte == 0x92 {
        '\u{2122}'
    } else if byte == 0x93 {
        '\u{FB01}'
    } else if byte == 0x94 {
        '\u{FB02}'
    } else if byte == 0x95 {
        '\u{0141}'
    } else if byte == 0x96 {
        '\u{0152}'
    } else if byte == 0x97 {
        '\u{0160}'
    } else if byte == 0x98 {
        '\u{0178}'
    } else if byte == 0x99 {
        '\u{017D}'
    } else if byte == 0x9A {
        '\u{0131}'
    } else if byte == 0x9B {
        '\u{0142}'
    } else if byte == 0x9C {
        '\u{0153}'
    } else if byte == 0x9D {
        '\u{0161}'
    } else if byte == 0x9E {
        '\u{017E}'
    } else {
        '\u{20AC}'
    }
}

/// The text that bytes stand for in PDFDocEncoding: the characters of the
/// bytes that the encoding defines, in order.
pub open spec fn pdf_doc_text(bytes: Seq<u8>) -> Seq<char>
    decreases bytes.len(),
{
    if bytes.len() == 0 {
        Seq::empty()
    } else {
        match pdf_doc_char(bytes.last()) {
            Some(c) => pdf_doc_text(bytes.drop_last()).push(c),
            None => pdf_doc_text(bytes.drop_last()),
        }
    }
}

/// The code units of a text that ends in `c` are those of the text before
/// and then those of `c`.
pub proof fn utf16_of_push(text: Seq<char>, c: char)
    ensures
        utf16_of(text.push(c)) == utf16_of(text) + units_of_char(c),
    decreases text.len(),
{
    let whole = text.push(c);
    if text.len() == 0 {
        assert(utf16_of(whole) == units_of_char(c) + utf16_of(whole.drop_first()));
    } else {
        assert(whole.drop_first() == text.drop_first().push(c));
        utf16_of_push(text.drop_first(), c);
    }
}

/// The bytes of code units that end in `unit` are those of the units
/// before and then the two of `unit`.
pub proof fn be_bytes_push(units: Seq<u16>, unit: u16)
    ensures
        be_bytes(units.push(unit)) == be_bytes(units).push((unit / 256) as u8).push(
            (unit % 256) as u8,
        ),
{
    assert(be_bytes(units.push(unit)) =~= be_bytes(units).push((unit / 256) as u8).push(
        (unit % 256) as u8,
    ));
}

/// Code units that are written as bytes are read back from the bytes.
pub proof fn units_round_trip(units: Seq<u16>)
    ensures
        units_from(be_bytes(units)) == units,
{
    assert(units_from(be_bytes(units)) =~= units);
}

/// A text that is written in UTF-16 is read back from its code units.
pub proof fn utf16_round_trip(text: Seq<char>)
    ensures
        text_of_utf16(utf16_of(text)) == Some(text),
    decreases text.len(),
{
    if text.len() != 0 {
        let c = text.first();
        let rest = text.drop_first();
        let units = utf16_of(text);
        utf16_round_trip(rest);
        let v = c as u32;
        vstd::utf8::char_is_scalar(c);
        vstd::utf8::char_u32_cast(c, v);
        if v < 0x10000 {
            assert(units.skip(1) =~= utf16_of(rest));
        } else {
            assert(units.skip(2) =~= utf16_of(rest));
        }
    }
}

/// Writes a text in UTF-16, the high byte of each unit first, after a
/// byte order mark.
pub fn encode_utf16_be(text: &str) -> (bytes: Vec<u8>)
    ensures
        bytes@ == utf16_be_of(text@),
{
    let mut bytes: Vec<u8> = Vec::new();
    bytes.push(0xFE);
    bytes.push(0xFF);
    for c in it: text.chars()
        invariant
            it.seq() == text@,
            bytes@ == utf16_be_of(it.seq().take(it.index() as int)),
    {
        let ghost seen = it.seq().take(it.index() as int);
        let ghost units = utf16_of(seen);
        proof {
            assert(it.seq().take(it.index() + 1) == seen.push(c));
            utf16_of_push(seen, c);
        }
        let v: u32 = c as u32;
        if v < 0x10000 {
            let unit: u16 = v as u16;
            proof {
                be_bytes_push(units, unit);
            }
            bytes.push((unit / 256) as u8);
            bytes.push((unit % 256) as u8);
        } else {
            let high: u16 = (0xD800 + (v - 0x10000) / 0x400) as u16;
            let low: u16 = (0xDC00 + (v - 0x10000) % 0x400) as u16;
            proof {
                be_bytes_push(units, high);
                be_bytes_push(units.push(high), low);
            }
            bytes.push((high / 256) as u8);
            bytes.push((high % 256) as u8);
            bytes.push((low / 256) as u8);
            bytes.push((low % 256) as u8);
        }
    }
    assert(text@.take(text@.len() as int) == text@);
    bytes
}

/// The code units that the bytes hold.
pub fn units_of_bytes(bytes: &[u8]) -> (units: Vec<u16>)
    ensures
        units@ == units_from(bytes@),
{
    let mut units: Vec<u16> = Vec::new();
    let mut i: usize = 0;
    while i < bytes.len()
        invariant
            i % 2 == 0,
            i <= bytes@.len() + 1,
            units@.len() == i / 2,
            forall|k: int| 0 <= k < units@.len() ==> units@[k] == units_from(bytes@)[k],
        decreases bytes@.len() + 1 - i,
    {
        let high: u16 = bytes[i] as u16;
        let unit: u16 = if i + 1 < bytes.len() {
            high * 256 + bytes[i + 1] as u16
        } else {
            high * 256
        };
        units.push(unit);
        if i + 1 < bytes.len() {
            i += 2;
        } else {
            i += 1;
            return units;
        }
    }
    units
}

/// Reads a text from UTF-16 code units. Returns nothing where a
/// surrogate stands without its partner.
pub fn decode_utf16(units: &Vec<u16>) -> (text: Option<String>)
    ensures
        match text {
            Some(text) => text_of_utf16(units@) == Some(text@),
            None => text_of_utf16(units@) is None,
        },
{
    let mut text = String::new();
    let mut i: usize = 0;
    assert(units@.skip(0) == units@);
    while i < units.len()
        invariant
            i <= units@.len(),
            text_of_utf16(units@) == (match text_of_utf16(units@.skip(i as int)) {
                Some(rest) => Some(text@ + rest),
                None => None,
            }),
        decreases units@.len() - i,
    {
        let ghost here = units@.skip(i as int);
        let unit = units[i];
        if unit < 0xD800 || unit > 0xDFFF {
            let c = match char_from_u32(unit as u32) {
                Some(c) => c,
                None => {
                    return None;
                },
            };
            assert(here.skip(1) == units@.skip(i + 1));
            push_char(&mut text, c);
            i += 1;
        } else if unit <= 0xDBFF && i + 1 < units.len() && 0xDC00 <= units[i + 1] && units[i + 1]
            <= 0xDFFF {
            let low = units[i + 1];
            let v: u32 = 0x10000 + (unit as u32 - 0xD800) * 0x400 + (low as u32 - 0xDC00);
            let c = match char_from_u32(v) {
                Some(c) => c,
                None => {
                    return None;
                },
            };
            assert(here.skip(2) == units@.skip(i + 2));
            push_char(&mut text, c);
            i += 2;
        } else {
            return None;
        }
    }
    Some(text)
}

/// The character that a byte stands for in PDFDocEncoding.
pub fn decode_pdf_doc_byte(byte: u8) -> (c: Option<char>)
    ensures
        c == pdf_doc_char(byte),
{
    if byte == 0x09 || byte == 0x0A || byte == 0x0D {
        Some(byte as char)
    } else if byte < 0x18 {
        None
    } else if byte < 0x20 {
        Some(
            if byte == 0x18 {
                '\u{02D8}'
            } else if byte == 0x19 {
                '\u{02C7}'
            } else if byte == 0x1A {
                '\u{02C6}'
            } else if byte == 0x1B {
                '\u{02D9}'
            } else if byte == 0x1C {
                '\u{02DD}'
            } else if byte == 0x1D {
                '\u{02DB}'
            } else if byte == 0x1E {
                '\u{02DA}'
            } else {
                '\u{02DC}'
            },
        )
    } else if byte < 0x7F {
        Some(byte as char)
    } else if byte == 0x7F || byte == 0x9F || byte == 0xAD {
        None
    } else if byte == 0xA0 {
        Some('\u{20AC}')
    } else if byte < 0xA0 {
        let symbols: [char; 31] = [
            '\u{2022}',
            '\u{2020}',
            '\u{2021}',
            '\u{2026}',
            '\u{2014}',
            '\u{2013}',
            '\u{0192}',
            '\u{2044}',
            '\u{2039}',
            '\u{203A}',
            '\u{2212}',
            '\u{2030}',
            '\u{201E}',
            '\u{201C}',
            '\u{201D}',
            '\u{2018}',
            '\u{2019}',
            '\u{201A}',
            '\u{2122}',
            '\u{FB01}',
            '\u{FB02}',
            '\u{0141}',
            '\u{0152}',
            '\u{0160}',
            '\u{0178}',
            '\u{017D}',
            '\u{0131}',
            '\u{0142}',
            '\u{0153}',
            '\u{0161}',
            '\u{017E}',
        ];
        Some(symbols[(byte - 0x80) as usize])
    } else {
        Some(byte as char)
    }
}

/// Reads a text from bytes in PDFDocEncoding. Bytes that the encoding
/// leaves undefined are passed over.
pub fn bytes_to_string(bytes: &[u8]) -> (text: String)
    ensures
        text@ == pdf_doc_text(bytes@),
{
    let mut text = String::new();
    let mut i: usize = 0;
    while i < bytes.len()
        invariant
            i <= bytes@.len(),
            text@ == pdf_doc_text(bytes@.take(i as int)),
        decreases bytes@.len() - i,
    {
        assert(bytes@.take(i + 1).drop_last() == bytes@.take(i as int));
        if let Some(c) = decode_pdf_doc_byte(bytes[i]) {
            push_char(&mut text, c);
        }
        i += 1;
    }
    assert(bytes@.take(bytes@.len() as int) == bytes@);
    text
}

} // verus!
