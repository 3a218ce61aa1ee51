//! The objects of a PDF document.
use crate::bytes::{bytes_copy, bytes_eq};
use vstd::prelude::*;

verus! {

/// The number and the generation of an indirect object.
pub type ObjectId = (u32, u16);

/// How a string is written in the file.
#[derive(Clone, Copy, Debug, PartialEq, Eq, Structural)]
pub enum StringFormat {
    Literal,
    Hexadecimal,
}

/// What goes wrong when a cross-reference table is read.
#[derive(Clone, Copy, Debug, PartialEq, Eq, Structural)]
pub enum XrefError {
    /// The table is not written as it has to be.
    Parse,
}

/// What goes wrong when an object is read.
#[derive(Clone, Copy, Debug, PartialEq, Eq, Structural)]
pub enum Error {
    /// The object is of another kind than the one asked for.
    Type,
    /// The dictionary has no entry under the key.
    DictKey,
    /// The bytes of a text string are not a text in its encoding.
    StringDecode,
    /// The bytes end before all of a value is read.
    UnexpectedEof,
    /// The content of the stream is still encoded by a filter.
    Filter,
    /// The cross-reference table cannot be read.
    Xref(XrefError),
}

/// The bytes of a key that is written as a name.
pub open spec fn key(name: &str) -> Seq<u8> {
    vstd::utf8::encode_utf8(name@)
}

/// A PDF object.
#[derive(Debug, PartialEq)]
pub enum Object {
    Null,
    Boolean(bool),
    Integer(i64),
    Name(Vec<u8>),
    String(Vec<u8>, StringFormat),
    Array(Vec<Object>),
    Dictionary(Dictionary),
    Stream(Stream),
    Reference(ObjectId),
}

/// A dictionary: entries in the order in which their keys were first set.
/// An entry is found under the first key that is equal to the one asked
/// for.
#[derive(Debug, PartialEq)]
pub struct Dictionary {
    entries: Vec<(Vec<u8>, Object)>,
}

/// A stream: a dictionary and the bytes that it describes.
#[derive(Debug, PartialEq)]
pub struct Stream {
    pub dict: Dictionary,
    pub content: Vec<u8>,
    pub allows_compression: bool,
    pub start_position: Option<usize>,
}

/// A PDF object in the contracts.
pub enum Value {
    Null,
    Boolean(bool),
    Integer(i64),
    Name(Seq<u8>),
    String(Seq<u8>, StringFormat),
    Array(Seq<Value>),
    Dictionary(Seq<(Seq<u8>, Value)>),
    Stream(StreamValue),
    Reference(ObjectId),
}

/// A stream in the contracts.
pub struct StreamValue {
    pub dict: Seq<(Seq<u8>, Value)>,
    pub content: Seq<u8>,
    pub allows_compression: bool,
    pub start_position: Option<usize>,
}

/// The items of an array in the contracts.
pub open spec fn items_value(items: Seq<Object>) -> Seq<Value>
    decreases items,
{
    Seq::new(
        items.len(),
        |i: int|
            if 0 <= i < items.len() {
                items[i].deep_view()
            } else {
                Value::Null
            },
    )
}

/// The entries of a dictionary in the contracts.
pub open spec fn entries_value(entries: Seq<(Vec<u8>, Object)>) -> Seq<(Seq<u8>, Value)>
    decreases entries,
{
    Seq::new(
        entries.len(),
        |i: int|
            if 0 <= i < entries.len() {
                (entries[i].0@, entries[i].1.deep_view())
            } else {
                (Seq::empty(), Value::Null)
            },
    )
}

impl DeepView for Object {
    type V = Value;

    open spec fn deep_view(&self) -> Value
        decreases self,
    {
        match self {
            Object::Null => Value::Null,
            Object::Boolean(b) => Value::Boolean(*b),
            Object::Integer(i) => Value::Integer(*i),
            Object::Name(name) => Value::Name(name@),
            Object::String(bytes, format) => Value::String(bytes@, *format),
            Object::Array(items) => Value::Array(items_value(items@)),
            Object::Dictionary(dict) => Value::Dictionary(dict.deep_view()),
            Object::Stream(stream) => Value::Stream(stream.deep_view()),
            Object::Reference(id) => Value::Reference(*id),
        }
    }
}

impl DeepView for Dictionary {
    type V = Seq<(Seq<u8>, Value)>;

    closed spec fn deep_view(&self) -> Seq<(Seq<u8>, Value)>
        decreases self,
    {
        entries_value(self.entries@)
    }
}

impl DeepView for Stream {
    type V = StreamValue;

    open spec fn deep_view(&self) -> StreamValue
        decreases self,
    {
        StreamValue {
            dict: self.dict.deep_view(),
            content: self.content@,
            allows_compression: self.allows_compression,
            start_position: self.start_position,
        }
    }
}

/// The place of the first entry under `key`, or the number of entries
/// where there is none.
pub open spec fn position(entries: Seq<(Seq<u8>, Value)>, key: Seq<u8>) -> int
    decreases entries.len(),
{
    if entries.len() == 0 || entries[0].0 == key {
        0
    } else {
        1 + position(entries.drop_first(), key)
    }
}

/// The value under `key`, if there is one.
pub open spec fn lookup(entries: Seq<(Seq<u8>, Value)>, key: Seq<u8>) -> Option<Value> {
    let at = position(entries, key);
    if 0 <= at < entries.len() {
        Some(entries[at].1)
    } else {
        None
    }
}

/// The entries with `value` under `key`: in the place of the entry that
/// was there, or at the end.
pub open spec fn with_entry(entries: Seq<(Seq<u8>, Value)>, key: Seq<u8>, value: Value) -> Seq<
    (Seq<u8>, Value),
> {
    let at = position(entries, key);
    if 0 <= at < entries.len() {
        entries.update(at, (key, value))
    } else {
        entries.push((key, value))
    }
}

/// The entries without the one under `key`.
pub open spec fn without_entry(entries: Seq<(Seq<u8>, Value)>, key: Seq<u8>) -> Seq<
    (Seq<u8>, Value),
> {
    let at = position(entries, key);
    if 0 <= at < entries.len() {
        entries.remove(at)
    } else {
        entries
    }
}

proof fn position_is(entries: Seq<(Seq<u8>, Value)>, key: Seq<u8>, at: int)
    requires
        0 <= at <= entries.len(),
        forall|k: int| 0 <= k < at ==> entries[k].0 != key,
        at < entries.len() ==> entries[at].0 == key,
    ensures
        position(entries, key) == at,
    decreases at,
{
    if at > 0 {
        let rest = entries.drop_first();
        position_is(rest, key, at - 1);
    }
}

impl Object {
    /// The view of an array holds the views of its items.
    proof fn array_items(items: Vec<Object>)
        ensures
            Object::Array(items).deep_view() == Value::Array(items.deep_view()),
    {
        reveal_with_fuel(items_value, 2);
        assert(items_value(items@) =~= items.deep_view());
    }

    /// A copy of the object, with all that it holds.
    pub fn copy(&self) -> (copy: Object)
        ensures
            copy.deep_view() == self.deep_view(),
        decreases self,
    {
        match self {
            Object::Null => Object::Null,
            Object::Boolean(b) => Object::Boolean(*b),
            Object::Integer(i) => Object::Integer(*i),
            Object::Name(name) => Object::Name(bytes_copy(name.as_slice())),
            Object::String(bytes, format) => Object::String(bytes_copy(bytes.as_slice()), *format),
            Object::Array(items) => {
                let mut copies: Vec<Object> = Vec::new();
                let mut i: usize = 0;
                while i < items.len()
                    invariant
                        i <= items@.len(),
                        *self == Object::Array(*items),
                        copies@.len() == i,
                        forall|k: int|
                            0 <= k < i ==> (#[trigger] copies@[k]).deep_view()
                                == items@[k].deep_view(),
                    decreases items@.len() - i,
                {
                    proof {
                        assert(decreases_to!(self => self->Array_0));
                    }
                    copies.push(items[i].copy());
                    i += 1;
                }
                proof {
                    Object::array_items(copies);
                    Object::array_items(*items);
                    assert(copies.deep_view() =~= items.deep_view());
                }
                Object::Array(copies)
            },
            Object::Dictionary(dict) => Object::Dictionary(dict.copy()),
            Object::Stream(stream) => Object::Stream(stream.copy()),
            Object::Reference(id) => Object::Reference(*id),
        }
    }

    /// The bytes of a string.
    pub fn as_str(&self) -> (bytes: Result<&[u8], Error>)
        ensures
            match bytes {
                Ok(bytes) => self.deep_view() matches Value::String(b, _) && bytes@ == b,
                Err(e) => e == Error::Type && !(self.deep_view() is String),
            },
    {
        match self {
            Object::String(bytes, _) => Ok(bytes.as_slice()),
            _ => Err(Error::Type),
        }
    }

    /// The bytes of a name.
    pub fn as_name(&self) -> (bytes: Result<&[u8], Error>)
        ensures
            match bytes {
                Ok(bytes) => self.deep_view() matches Value::Name(b) && bytes@ == b,
                Err(e) => e == Error::Type && !(self.deep_view() is Name),
            },
    {
        match self {
            Object::Name(bytes) => Ok(bytes.as_slice()),
            _ => Err(Error::Type),
        }
    }

    /// The number that an integer holds.
    pub fn as_i64(&self) -> (number: Result<i64, Error>)
        ensures
            match number {
                Ok(n) => self.deep_view() == Value::Integer(n),
                Err(e) => e == Error::Type && !(self.deep_view() is Integer),
            },
    {
        match self {
            Object::Integer(n) => Ok(*n),
            _ => Err(Error::Type),
        }
    }

    /// The items of an array.
    pub fn as_array(&self) -> (items: Result<&Vec<Object>, Error>)
        ensures
            match items {
                Ok(items) => self.deep_view() matches Value::Array(values) && items.deep_view()
                    == values,
                Err(e) => e == Error::Type && !(self.deep_view() is Array),
            },
    {
        match self {
            Object::Array(items) => {
                proof {
                    Object::array_items(*items);
                }
                Ok(items)
            },
            _ => Err(Error::Type),
        }
    }
}

impl Dictionary {
    /// The view of a dictionary holds, for each entry, the key and the
    /// view of the object.
    proof fn entries_are(&self)
        ensures
            self.deep_view().len() == self.entries@.len(),
            forall|i: int|
                0 <= i < self.entries@.len() ==> #[trigger] self.deep_view()[i] == (
                    self.entries@[i].0@,
                    self.entries@[i].1.deep_view(),
                ),
    {
        assert(self.deep_view() == entries_value(self.entries@));
    }

    /// A dictionary without entries.
    pub fn new() -> (dict: Dictionary)
        ensures
            dict.deep_view() == Seq::<(Seq<u8>, Value)>::empty(),
    {
        let dict = Dictionary { entries: Vec::new() };
        dict
    }

    /// The number of entries.
    pub fn len(&self) -> (n: usize)
        ensures
            n == self.deep_view().len(),
    {
        proof {
            self.entries_are();
        }
        self.entries.len()
    }

    /// Whether the dictionary has no entry.
    pub fn is_empty(&self) -> (empty: bool)
        ensures
            empty == (self.deep_view().len() == 0),
    {
        proof {
            self.entries_are();
        }
        self.entries.len() == 0
    }

    /// The place of the entry under `key`, or the number of entries.
    fn find(&self, key: &[u8]) -> (at: usize)
        ensures
            at == position(self.deep_view(), key@),
            at <= self.entries@.len(),
    {
        let mut at: usize = 0;
        while at < self.entries.len() && !bytes_eq(self.entries[at].0.as_slice(), key)
            invariant
                at <= self.entries@.len(),
                forall|k: int| 0 <= k < at ==> self.entries@[k].0@ != key@,
            decreases self.entries@.len() - at,
        {
            at += 1;
        }
        proof {
            self.entries_are();
            position_is(self.deep_view(), key@, at as int);
        }
        at
    }

    /// The object under `key`.
    pub fn get(&self, key: &[u8]) -> (object: Result<&Object, Error>)
        ensures
            match object {
                Ok(object) => lookup(self.deep_view(), key@) == Some(object.deep_view()),
                Err(e) => e == Error::DictKey && lookup(self.deep_view(), key@) is None,
            },
    {
        let at = self.find(key);
        proof {
            self.entries_are();
        }
        if at < self.entries.len() {
            Ok(&self.entries[at].1)
        } else {
            Err(Error::DictKey)
        }
    }

    /// Whether there is an entry under `key`.
    pub fn has(&self, key: &[u8]) -> (has: bool)
        ensures
            has == lookup(self.deep_view(), key@) is Some,
    {
        proof {
            self.entries_are();
        }
        self.find(key) < self.entries.len()
    }

    /// Puts `value` under `key`: in the place of the entry that was there,
    /// or at the end.
    pub fn set(&mut self, key: &[u8], value: Object)
        ensures
            final(self).deep_view() == with_entry(
                old(self).deep_view(),
                key@,
                value.deep_view(),
            ),
    {
        let at = self.find(key);
        let entry = (bytes_copy(key), value);
        if at < self.entries.len() {
            self.entries.set(at, entry);
        } else {
            self.entries.push(entry);
        }
        proof {
            self.entries_are();
            old(self).entries_are();
        }
    }

    /// Takes the entry under `key` out and returns its object.
    pub fn remove(&mut self, key: &[u8]) -> (object: Option<Object>)
        ensures
            final(self).deep_view() == without_entry(old(self).deep_view(), key@),
            match object {
                Some(object) => lookup(old(self).deep_view(), key@) == Some(object.deep_view()),
                None => lookup(old(self).deep_view(), key@) is None,
            },
    {
        let at = self.find(key);
        proof {
            old(self).entries_are();
        }
        if at < self.entries.len() {
            let entry = self.entries.remove(at);
            proof {
                self.entries_are();
            }
            Some(entry.1)
        } else {
            None
        }
    }

    /// A copy of the dictionary, with all that it holds.
    pub fn copy(&self) -> (copy: Dictionary)
        ensures
            copy.deep_view() == self.deep_view(),
        decreases self,
    {
        let mut entries: Vec<(Vec<u8>, Object)> = Vec::new();
        let mut i: usize = 0;
        while i < self.entries.len()
            invariant
                i <= self.entries@.len(),
                entries@.len() == i,
                forall|k: int|
                    0 <= k < i ==> (#[trigger] entries@[k]).0@ == self.entries@[k].0@
                        && entries@[k].1.deep_view() == self.entries@[k].1.deep_view(),
            decreases self.entries@.len() - i,
        {
            let key = bytes_copy(self.entries[i].0.as_slice());
            let value = self.entries[i].1.copy();
            entries.push((key, value));
            i += 1;
        }
        let copy = Dictionary { entries };
        proof {
            copy.entries_are();
            self.entries_are();
        }
        copy
    }
}

impl Stream {
    /// A stream of `content` that `dict` describes.
    pub fn new(dict: Dictionary, content: Vec<u8>) -> (stream: Stream)
        ensures
            stream.deep_view() == (StreamValue {
                dict: dict.deep_view(),
                content: content@,
                allows_compression: true,
                start_position: None,
            }),
    {
        Stream { dict, content, allows_compression: true, start_position: None }
    }

    /// A copy of the stream, with all that it holds.
    pub fn copy(&self) -> (copy: Stream)
        ensures
            copy.deep_view() == self.deep_view(),
        decreases self,
    {
        Stream {
            dict: self.dict.copy(),
            content: bytes_copy(self.content.as_slice()),
            allows_compression: self.allows_compression,
            start_position: self.start_position,
        }
    }
}

impl Clone for Object {
    fn clone(&self) -> (copy: Object)
        ensures
            copy.deep_view() == self.deep_view(),
    {
        self.copy()
    }
}

impl Clone for Dictionary {
    fn clone(&self) -> (copy: Dictionary)
        ensures
            copy.deep_view() == self.deep_view(),
    {
        self.copy()
    }
}

impl Clone for Stream {
    fn clone(&self) -> (copy: Stream)
        ensures
            copy.deep_view() == self.deep_view(),
    {
        self.copy()
    }
}

} // verus!
