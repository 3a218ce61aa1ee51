//! Cross-reference streams: the cross-reference table of a file, written
//! entry after entry in binary as the content of a stream.
//!
//! The dictionary of the stream says how the content is read: `W` gives
//! the widths in bytes of the three fields of an entry, `Index` the
//! sections of object numbers that the entries stand for, each a first
//! number and a count, and `Size` the number of objects in the file.
use crate::pdf::object::{
    key, lookup, without_entry, Dictionary, Error, Object, Stream, StreamValue, Value, XrefError,
};
use crate::pdf::xref::{Xref, XrefEntry, XrefType};
use vstd::prelude::*;

verus! {

/// The number that bytes hold, the byte of the highest value first.
pub open spec fn be_value(bytes: Seq<u8>) -> nat
    decreases bytes.len(),
{
    if bytes.len() == 0 {
        0
    } else {
        be_value(bytes.drop_last()) * 256 + bytes.last() as nat
    }
}

/// The integer of `width` bytes at `at`, cut to its lowest 32 bits; or
/// nothing where the data end before it does.
pub open spec fn integer_at(data: Seq<u8>, at: nat, width: nat) -> Option<u32> {
    if at + width <= data.len() {
        Some((be_value(data.subrange(at as int, (at + width) as int)) % 0x1_0000_0000) as u32)
    } else {
        None
    }
}

/// The integers that an array holds; an array with anything else in it,
/// or an object that is no array, holds none.
pub open spec fn integers_of(object: Value) -> Result<Seq<i64>, Error> {
    match object {
        Value::Array(items) => if forall|i: int| 0 <= i < items.len() ==> #[trigger] items[i] is Integer {
            Ok(Seq::new(items.len(), |i: int| items[i]->Integer_0))
        } else {
            Err(Error::Type)
        },
        _ => Err(Error::Type),
    }
}

/// The widths in bytes of the three fields of an entry.
pub struct Widths {
    pub kind: nat,
    pub second: nat,
    pub third: nat,
}

/// What is read of one entry.
pub struct Read {
    /// Where the object is found; nothing for a free object and for an
    /// entry of unknown kind.
    pub entry: Option<XrefEntry>,
    /// Where the next entry starts.
    pub next: nat,
}

/// The entry at `at`, or nothing where the data end before it does.
///
/// The first field says what the entry is; without a first field the
/// entry is taken to give an offset. A first field of zero stands for a
/// free object: the other fields are read and dropped. A first field of
/// one gives an offset and a generation, the generation being zero
/// without a third field. A first field of two gives an object stream
/// and an index. An entry with any other first field ends after it.
pub open spec fn entry_at(data: Seq<u8>, at: nat, widths: Widths) -> Option<Read> {
    let kind = if widths.kind > 0 {
        integer_at(data, at, widths.kind)
    } else {
        Some(1u32)
    };
    let second = at + widths.kind;
    let third = second + widths.second;
    let end = third + widths.third;
    match kind {
        None => None,
        Some(kind) => if kind == 0 || kind == 1 || kind == 2 {
            match (integer_at(data, second, widths.second), integer_at(data, third, widths.third)) {
                (Some(a), Some(b)) => Some(
                    Read {
                        entry: if kind == 0 {
                            None
                        } else if kind == 1 {
                            Some(XrefEntry::Normal { offset: a, generation: (b % 0x1_0000) as u16 })
                        } else {
                            Some(XrefEntry::Compressed { container: a, index: (b % 0x1_0000) as u16 })
                        },
                        next: end,
                    },
                ),
                _ => None,
            }
        } else {
            Some(Read { entry: None, next: second })
        },
    }
}

/// The object number `n`, cut to its lowest 32 bits.
pub open spec fn id_of(n: int) -> u32 {
    (n % 0x1_0000_0000) as u32
}

/// A table and the place up to which the data are read.
pub struct Progress {
    pub table: Map<u32, XrefEntry>,
    pub at: nat,
}

/// The table after `count` entries are read from `at` on, for the objects
/// from number `first` on; or nothing where the data end before the
/// entries do.
pub open spec fn section_from(
    data: Seq<u8>,
    widths: Widths,
    first: int,
    count: nat,
    so_far: Progress,
) -> Option<Progress>
    decreases count,
{
    if count == 0 {
        Some(so_far)
    } else {
        match entry_at(data, so_far.at, widths) {
            None => None,
            Some(read) => section_from(
                data,
                widths,
                first + 1,
                (count - 1) as nat,
                Progress {
                    table: match read.entry {
                        Some(entry) => so_far.table.insert(id_of(first), entry),
                        None => so_far.table,
                    },
                    at: read.next,
                },
            ),
        }
    }
}

/// The table after the sections from the `k`-th on are read. The numbers
/// of `index` are taken in pairs, a first object number and a count; a
/// number that is left over at the end is passed over, and a count below
/// zero is a count of zero.
pub open spec fn sections_from(
    data: Seq<u8>,
    widths: Widths,
    index: Seq<i64>,
    k: nat,
    so_far: Progress,
) -> Option<Progress>
    decreases index.len() - 2 * k,
{
    let k = k as int;
    if 2 * k + 1 >= index.len() {
        Some(so_far)
    } else {
        let first = index[2 * k];
        let count = index[2 * k + 1];
        match section_from(
            data,
            widths,
            first as int,
            if count > 0 {
                count as nat
            } else {
                0nat
            },
            so_far,
        ) {
            None => None,
            Some(next) => sections_from(data, widths, index, (k + 1) as nat, next),
        }
    }
}

/// What a cross-reference stream holds.
pub struct Decoded {
    /// The number of objects that the file declares, cut to 32 bits.
    pub size: u32,
    /// The entry of each object that has one.
    pub table: Map<u32, XrefEntry>,
    /// The dictionary of the stream without `Length`, `W` and `Index`.
    pub dict: Seq<(Seq<u8>, Value)>,
}

/// The integer under `name` in a dictionary.
pub open spec fn integer_under(dict: Seq<(Seq<u8>, Value)>, name: &str) -> Option<i64> {
    match lookup(dict, key(name)) {
        Some(Value::Integer(n)) => Some(n),
        _ => None,
    }
}

/// The integers of the array under `name` in a dictionary.
pub open spec fn integers_under(dict: Seq<(Seq<u8>, Value)>, name: &str) -> Option<Seq<i64>> {
    match lookup(dict, key(name)) {
        Some(object) => match integers_of(object) {
            Ok(integers) => Some(integers),
            Err(_) => None,
        },
        None => None,
    }
}

/// What a cross-reference stream holds, or why it cannot be read.
///
/// A stream that names a filter has to be decoded first. `Size` has to
/// be an integer and `W` an array of at least three integers, none of
/// the first three below zero. Without an array of integers under
/// `Index` there is one section, of `Size` objects from number 0 on.
pub open spec fn decoded(stream: StreamValue) -> Result<Decoded, Error> {
    if lookup(stream.dict, key("Filter")) is Some {
        Err(Error::Filter)
    } else {
        match (integer_under(stream.dict, "Size"), integers_under(stream.dict, "W")) {
            (Some(size), Some(w)) => if w.len() < 3 || w[0] < 0 || w[1] < 0 || w[2] < 0 {
                Err(Error::Xref(XrefError::Parse))
            } else {
                let index = match integers_under(stream.dict, "Index") {
                    Some(index) => index,
                    None => seq![0i64, size],
                };
                let widths = Widths { kind: w[0] as nat, second: w[1] as nat, third: w[2] as nat };
                match sections_from(
                    stream.content,
                    widths,
                    index,
                    0,
                    Progress { table: Map::empty(), at: 0 },
                ) {
                    Some(read) => Ok(
                        Decoded {
                            size: id_of(size as int),
                            table: read.table,
                            dict: without_entry(
                                without_entry(without_entry(stream.dict, key("Length")), key("W")),
                                key("Index"),
                            ),
                        },
                    ),
                    None => Err(Error::UnexpectedEof),
                }
            },
            _ => Err(Error::Xref(XrefError::Parse)),
        }
    }
}

proof fn be_value_step(bytes: Seq<u8>, byte: u8)
    ensures
        be_value(bytes.push(byte)) == be_value(bytes) * 256 + byte,
        (be_value(bytes.push(byte)) % 0x1_0000_0000) == ((be_value(bytes) % 0x1_0000_0000)
            % 0x100_0000) * 256 + byte,
{
    assert(bytes.push(byte).drop_last() == bytes);
    let v = be_value(bytes);
    let q = v / 0x100_0000;
    let r = v % 0x100_0000;
    assert((v % 0x1_0000_0000) % 0x100_0000 == r) by (nonlinear_arith)
        requires
            r == v % 0x100_0000,
    ;
    assert(v * 256 + byte == q * 0x1_0000_0000 + (r * 256 + byte)) by (nonlinear_arith)
        requires
            v == q * 0x100_0000 + r,
    ;
    assert((q * 0x1_0000_0000 + (r * 256 + byte)) % 0x1_0000_0000 == r * 256 + byte)
        by (nonlinear_arith)
        requires
            0 <= r * 256 + byte < 0x1_0000_0000,
            q >= 0,
    ;
}

/// Reads an integer of `width` bytes at `at`, the byte of the highest
/// value first, and moves `at` behind it. Of an integer of more than
/// four bytes the lowest 32 bits are returned. Where the data end before
/// the integer does, `at` is moved to their end.
pub fn read_big_endian_integer(data: &[u8], at: &mut usize, width: u64) -> (value: Result<
    u32,
    Error,
>)
    ensures
        match value {
            Ok(value) => {
                &&& integer_at(data@, *old(at) as nat, width as nat) == Some(value)
                &&& *final(at) == *old(at) + width
            },
            Err(e) => {
                &&& e == Error::UnexpectedEof
                &&& integer_at(data@, *old(at) as nat, width as nat) is None
                &&& *final(at) == data@.len()
            },
        },
{
    let len = data.len();
    if *at > len || width > (len - *at) as u64 {
        *at = len;
        return Err(Error::UnexpectedEof);
    }
    let from = *at;
    let n = width as usize;
    let mut value: u32 = 0;
    let mut i: usize = 0;
    while i < n
        invariant
            i <= n,
            from + n <= data@.len() == len,
            value == be_value(data@.subrange(from as int, from + i)) % 0x1_0000_0000,
        decreases n - i,
    {
        let byte = data[from + i];
        proof {
            be_value_step(data@.subrange(from as int, from + i), byte);
            assert(data@.subrange(from as int, from + i).push(byte) =~= data@.subrange(
                from as int,
                from + i + 1,
            ));
        }
        value = (value % 0x100_0000) * 256 + byte as u32;
        i += 1;
    }
    *at = from + n;
    Ok(value)
}

/// Reads the integers of an array.
pub fn parse_integer_array(array: &Object) -> (integers: Result<Vec<i64>, Error>)
    ensures
        match integers {
            Ok(integers) => integers_of(array.deep_view()) == Ok::<Seq<i64>, Error>(integers@),
            Err(e) => integers_of(array.deep_view()) == Err::<Seq<i64>, Error>(e),
        },
{
    let items = match array.as_array() {
        Ok(items) => items,
        Err(e) => {
            return Err(e);
        },
    };
    let mut out: Vec<i64> = Vec::new();
    let mut i: usize = 0;
    while i < items.len()
        invariant
            i <= items@.len(),
            array.deep_view() == Value::Array(items.deep_view()),
            out@.len() == i,
            forall|k: int|
                0 <= k < i ==> (#[trigger] items.deep_view()[k]) == Value::Integer(out@[k]),
        decreases items@.len() - i,
    {
        match items[i].as_i64() {
            Ok(n) => {
                out.push(n);
            },
            Err(e) => {
                assert(!(items.deep_view()[i as int] is Integer));
                return Err(e);
            },
        }
        i += 1;
    }
    assert(out@ =~= Seq::new(items@.len(), |i: int| items.deep_view()[i]->Integer_0));
    Ok(out)
}

proof fn section_step(data: Seq<u8>, widths: Widths, first: int, count: nat, so_far: Progress)
    requires
        count > 0,
    ensures
        section_from(data, widths, first, count, so_far) == (match entry_at(
            data,
            so_far.at,
            widths,
        ) {
            None => None,
            Some(read) => section_from(
                data,
                widths,
                first + 1,
                (count - 1) as nat,
                Progress {
                    table: match read.entry {
                        Some(entry) => so_far.table.insert(id_of(first), entry),
                        None => so_far.table,
                    },
                    at: read.next,
                },
            ),
        }),
{
}

proof fn sections_step(data: Seq<u8>, widths: Widths, index: Seq<i64>, k: nat, so_far: Progress)
    requires
        2 * k + 1 < index.len(),
    ensures
        sections_from(data, widths, index, k, so_far) == (match section_from(
            data,
            widths,
            index[2 * (k as int)] as int,
            if index[2 * (k as int) + 1] > 0 {
                index[2 * (k as int) + 1] as nat
            } else {
                0nat
            },
            so_far,
        ) {
            None => None,
            Some(next) => sections_from(data, widths, index, k + 1, next),
        }),
{
}

proof fn id_step(n: int)
    ensures
        id_of(n + 1) == (if id_of(n) == 0xFFFF_FFFF {
            0
        } else {
            id_of(n) + 1
        }),
{
    let q = n / 0x1_0000_0000;
    let r = n % 0x1_0000_0000;
    if r == 0xFFFF_FFFF {
        assert((n + 1) % 0x1_0000_0000 == 0) by (nonlinear_arith)
            requires
                n + 1 == (q + 1) * 0x1_0000_0000,
        ;
    } else {
        assert((n + 1) % 0x1_0000_0000 == r + 1) by (nonlinear_arith)
            requires
                n + 1 == q * 0x1_0000_0000 + (r + 1),
                0 <= r + 1 < 0x1_0000_0000,
        ;
    }
}

/// The lowest 32 bits of a number.
fn low_bits(n: i64) -> (id: u32)
    ensures
        id == id_of(n as int),
{
    if n >= 0 {
        ((n as u64) % 0x1_0000_0000) as u32
    } else {
        let below = (-(n + 1)) as u64;
        (0xFFFF_FFFF - below % 0x1_0000_0000) as u32
    }
}

/// Reads one entry at `at` and moves `at` behind it.
fn read_entry(data: &[u8], at: &mut usize, w: (u64, u64, u64)) -> (entry: Result<
    Option<XrefEntry>,
    Error,
>)
    requires
        *old(at) <= data@.len(),
    ensures
        *final(at) <= data@.len(),
        match entry {
            Ok(entry) => entry_at(
                data@,
                *old(at) as nat,
                Widths { kind: w.0 as nat, second: w.1 as nat, third: w.2 as nat },
            ) == Some(Read { entry, next: *final(at) as nat }),
            Err(e) => e == Error::UnexpectedEof && entry_at(
                data@,
                *old(at) as nat,
                Widths { kind: w.0 as nat, second: w.1 as nat, third: w.2 as nat },
            ) is None,
        },
{
    let kind = if w.0 > 0 {
        match read_big_endian_integer(data, at, w.0) {
            Ok(kind) => kind,
            Err(e) => {
                return Err(e);
            },
        }
    } else {
        1
    };
    if kind > 2 {
        return Ok(None);
    }
    let a = match read_big_endian_integer(data, at, w.1) {
        Ok(a) => a,
        Err(e) => {
            return Err(e);
        },
    };
    let b = match read_big_endian_integer(data, at, w.2) {
        Ok(b) => b,
        Err(e) => {
            return Err(e);
        },
    };
    let low = (b % 0x1_0000) as u16;
    if kind == 0 {
        Ok(None)
    } else if kind == 1 {
        Ok(Some(XrefEntry::Normal { offset: a, generation: low }))
    } else {
        Ok(Some(XrefEntry::Compressed { container: a, index: low }))
    }
}

/// Reads the entries of one section into the table.
fn read_section(
    data: &[u8],
    at: &mut usize,
    w: (u64, u64, u64),
    first: i64,
    count: i64,
    xref: &mut Xref,
) -> (done: Result<(), Error>)
    requires
        *old(at) <= data@.len(),
    ensures
        *final(at) <= data@.len(),
        final(xref).size == old(xref).size,
        final(xref).cross_reference_type == old(xref).cross_reference_type,
        match done {
            Ok(_) => section_from(
                data@,
                Widths { kind: w.0 as nat, second: w.1 as nat, third: w.2 as nat },
                first as int,
                if count > 0 {
                    count as nat
                } else {
                    0nat
                },
                Progress { table: old(xref).entries@, at: *old(at) as nat },
            ) == Some(Progress { table: final(xref).entries@, at: *final(at) as nat }),
            Err(e) => e == Error::UnexpectedEof && section_from(
                data@,
                Widths { kind: w.0 as nat, second: w.1 as nat, third: w.2 as nat },
                first as int,
                if count > 0 {
                    count as nat
                } else {
                    0nat
                },
                Progress { table: old(xref).entries@, at: *old(at) as nat },
            ) is None,
        },
{
    let ghost widths = Widths { kind: w.0 as nat, second: w.1 as nat, third: w.2 as nat };
    let ghost start = Progress { table: xref.entries@, at: *at as nat };
    let total: u64 = if count > 0 {
        count as u64
    } else {
        0
    };
    let mut id = low_bits(first);
    let mut j: u64 = 0;
    while j < total
        invariant
            j <= total,
            total == (if count > 0 {
                count as nat
            } else {
                0nat
            }),
            widths == (Widths { kind: w.0 as nat, second: w.1 as nat, third: w.2 as nat }),
            start == (Progress { table: old(xref).entries@, at: *old(at) as nat }),
            *at <= data@.len(),
            xref.size == old(xref).size,
            xref.cross_reference_type == old(xref).cross_reference_type,
            id == id_of(first + j),
            section_from(data@, widths, first as int, total as nat, start) == section_from(
                data@,
                widths,
                first + j,
                (total - j) as nat,
                Progress { table: xref.entries@, at: *at as nat },
            ),
        decreases total - j,
    {
        proof {
            section_step(
                data@,
                widths,
                first + j,
                (total - j) as nat,
                Progress { table: xref.entries@, at: *at as nat },
            );
            id_step(first + j);
        }
        match read_entry(data, at, w) {
            Ok(Some(entry)) => {
                xref.insert(id, entry);
            },
            Ok(None) => {},
            Err(e) => {
                return Err(e);
            },
        }
        id = if id == 0xFFFF_FFFF {
            0
        } else {
            id + 1
        };
        j += 1;
    }
    Ok(())
}

/// Decodes a cross-reference stream: reads the table that its content
/// holds, and returns it with the dictionary of the stream, from which
/// the entries that describe the content are taken out.
///
/// The content has to be decoded already: a stream that still names a
/// filter is refused.
pub fn decode_xref_stream(stream: Stream) -> (read: Result<(Xref, Dictionary), Error>)
    ensures
        match read {
            Ok((xref, dict)) => decoded(stream.deep_view()) == Ok::<Decoded, Error>(
                Decoded { size: xref.size, table: xref.entries@, dict: dict.deep_view() },
            ) && xref.cross_reference_type == XrefType::CrossReferenceStream,
            Err(e) => decoded(stream.deep_view()) == Err::<Decoded, Error>(e),
        },
{
    let Stream { dict, content, allows_compression: _, start_position: _ } = stream;
    let mut dict = dict;
    if dict.has("Filter".as_bytes()) {
        return Err(Error::Filter);
    }
    let size = match dict.get("Size".as_bytes()) {
        Ok(object) => match object.as_i64() {
            Ok(size) => size,
            Err(_) => {
                return Err(Error::Xref(XrefError::Parse));
            },
        },
        Err(_) => {
            return Err(Error::Xref(XrefError::Parse));
        },
    };
    let field_widths = match dict.get("W".as_bytes()) {
        Ok(object) => match parse_integer_array(object) {
            Ok(w) => w,
            Err(_) => {
                return Err(Error::Xref(XrefError::Parse));
            },
        },
        Err(_) => {
            return Err(Error::Xref(XrefError::Parse));
        },
    };
    if field_widths.len() < 3 || field_widths[0] < 0 || field_widths[1] < 0 || field_widths[2]
        < 0 {
        return Err(Error::Xref(XrefError::Parse));
    }
    let section_indice = match dict.get("Index".as_bytes()) {
        Ok(object) => match parse_integer_array(object) {
            Ok(index) => index,
            Err(_) => vec![0, size],
        },
        Err(_) => vec![0, size],
    };
    let w = (field_widths[0] as u64, field_widths[1] as u64, field_widths[2] as u64);
    let ghost widths = Widths { kind: w.0 as nat, second: w.1 as nat, third: w.2 as nat };
    let mut xref = Xref::new(low_bits(size), XrefType::CrossReferenceStream);
    let mut at: usize = 0;
    let mut k: usize = 0;
    let ghost start = Progress { table: Map::<u32, XrefEntry>::empty(), at: 0 };
    let ghost kept = without_entry(
        without_entry(without_entry(dict.deep_view(), key("Length")), key("W")),
        key("Index"),
    );
    assert(decoded(stream.deep_view()) == (match sections_from(
        content@,
        widths,
        section_indice@,
        0,
        start,
    ) {
        Some(read) => Ok::<Decoded, Error>(
            Decoded { size: id_of(size as int), table: read.table, dict: kept },
        ),
        None => Err::<Decoded, Error>(Error::UnexpectedEof),
    }));
    while k < section_indice.len() / 2
        invariant
            at <= content@.len(),
            decoded(stream.deep_view()) == (match sections_from(
                content@,
                widths,
                section_indice@,
                0,
                start,
            ) {
                Some(read) => Ok::<Decoded, Error>(
                    Decoded { size: id_of(size as int), table: read.table, dict: kept },
                ),
                None => Err::<Decoded, Error>(Error::UnexpectedEof),
            }),
            kept == without_entry(
                without_entry(without_entry(dict.deep_view(), key("Length")), key("W")),
                key("Index"),
            ),
            widths == (Widths { kind: w.0 as nat, second: w.1 as nat, third: w.2 as nat }),
            start == (Progress { table: Map::<u32, XrefEntry>::empty(), at: 0 }),
            xref.size == id_of(size as int),
            xref.cross_reference_type == XrefType::CrossReferenceStream,
            sections_from(content@, widths, section_indice@, 0, start) == sections_from(
                content@,
                widths,
                section_indice@,
                k as nat,
                Progress { table: xref.entries@, at: at as nat },
            ),
        decreases section_indice@.len() / 2 - k,
    {
        let first = section_indice[2 * k];
        let count = section_indice[2 * k + 1];
        proof {
            sections_step(
                content@,
                widths,
                section_indice@,
                k as nat,
                Progress { table: xref.entries@, at: at as nat },
            );
        }
        match read_section(content.as_slice(), &mut at, w, first, count, &mut xref) {
            Ok(_) => {},
            Err(e) => {
                return Err(e);
            },
        }
        k += 1;
    }
    dict.remove("Length".as_bytes());
    dict.remove("W".as_bytes());
    dict.remove("Index".as_bytes());
    Ok((xref, dict))
}

} // verus!
