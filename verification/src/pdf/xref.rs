//! Cross-reference tables: where in a file each object is found.
use std::collections::BTreeMap;
use vstd::prelude::*;

verus! {

broadcast use vstd::laws_cmp::group_laws_cmp;

/// How a file holds its cross-reference table.
#[derive(Clone, Copy, Debug, PartialEq, Eq, Structural)]
pub enum XrefType {
    /// In a stream, entry after entry in binary.
    CrossReferenceStream,
    /// In a table of text lines.
    CrossReferenceTable,
}

/// Where one object is found.
#[derive(Clone, Copy, Debug, PartialEq, Eq, Structural)]
pub enum XrefEntry {
    Free,
    UnusableFree,
    /// At `offset` bytes from the start of the file.
    Normal { offset: u32, generation: u16 },
    /// In the object stream `container`, as its `index`-th object.
    Compressed { container: u32, index: u16 },
}

/// A cross-reference table.
pub struct Xref {
    /// How the file holds the table.
    pub cross_reference_type: XrefType,
    /// The entry of each object, by its number.
    pub entries: BTreeMap<u32, XrefEntry>,
    /// The number of objects that the file declares.
    pub size: u32,
}

impl Xref {
    /// A table without entries.
    pub fn new(size: u32, xref_type: XrefType) -> (xref: Xref)
        ensures
            xref.size == size,
            xref.cross_reference_type == xref_type,
            xref.entries@ == Map::<u32, XrefEntry>::empty(),
    {
        Xref { cross_reference_type: xref_type, entries: BTreeMap::new(), size }
    }

    /// Records where the object `id` is found. An earlier entry of the
    /// same object is replaced.
    pub fn insert(&mut self, id: u32, entry: XrefEntry)
        ensures
            final(self).entries@ == old(self).entries@.insert(id, entry),
            final(self).size == old(self).size,
            final(self).cross_reference_type == old(self).cross_reference_type,
    {
        self.entries.insert(id, entry);
    }

    /// The entry of the object `id`, if there is one.
    pub fn get(&self, id: u32) -> (entry: Option<&XrefEntry>)
        ensures
            match entry {
                Some(entry) => self.entries@.contains_key(id) && *entry == self.entries@[id],
                None => !self.entries@.contains_key(id),
            },
    {
        self.entries.get(&id)
    }
}

} // verus!
