//! Counting tables keyed by text.
//!
//! The tables of this crate are `hashbrown` hash maps from `String` to
//! `usize`, hashed with `foldhash`. Verus does not look inside them: a
//! table is known to the proofs only through [`entries`], and every
//! operation on a table is a small function whose contract is taken on
//! trust from the documentation of `hashbrown`.
use vstd::prelude::*;

verus! {

/// The largest capacity a table is ever created with.
///
/// `hashbrown` panics when the memory for the requested capacity does not
/// fit in `isize`; with at most 2^20 entries of a few machine words each
/// that cannot happen on a 32-bit or a 64-bit target.
pub const MAX_CAPACITY: usize = 0x10_0000;

/// A hash map from text to a count.
///
/// Trusted: the field is a `hashbrown::HashMap`, which Verus cannot
/// declare as a type of its own, so the whole struct is opaque to it.
#[verifier::external_body]
pub struct Table {
    map: hashbrown::HashMap<String, usize, foldhash::fast::RandomState>,
}

/// The key-value pairs that a table holds, each key taken by its
/// characters.
///
/// `String` compares and hashes by its characters, so at most one value is
/// stored for each sequence of characters.
pub uninterp spec fn entries(table: Table) -> Map<Seq<char>, usize>;

impl View for Table {
    type V = Map<Seq<char>, usize>;

    open spec fn view(&self) -> Map<Seq<char>, usize> {
        entries(*self)
    }
}

impl Table {
    /// The value counted for `key`: what is stored, or zero.
    pub open spec fn count(&self, key: Seq<char>) -> nat {
        if self@.dom().contains(key) {
            self@[key] as nat
        } else {
            0
        }
    }

    /// Trusted: `hashbrown::HashMap::with_capacity_and_hasher`, with a
    /// `foldhash::fast::RandomState` made by `Default`. The new map holds no
    /// element. Capacities for which `hashbrown` would panic are excluded.
    #[verifier::external_body]
    pub(crate) fn with_capacity(capacity: usize) -> (table: Table)
        requires
            capacity <= MAX_CAPACITY,
        ensures
            (entries(table) == Map::<Seq<char>, usize>::empty()),
    {
        Table {
            map: hashbrown::HashMap::with_capacity_and_hasher(
                capacity,
                foldhash::fast::RandomState::default(),
            ),
        }
    }

    /// Trusted: `hashbrown::HashMap::get`. It returns the value stored for
    /// the key, and nothing when the key is not in the map.
    #[verifier::external_body]
    pub(crate) fn get(&self, key: &str) -> (value: Option<usize>)
        ensures
            value == (if entries(*self).dom().contains(key@) {
                Some(entries(*self)[key@])
            } else {
                None
            }),
    {
        self.map.get(key).copied()
    }

    /// Trusted: `hashbrown::HashMap::insert`. Afterwards the key maps to
    /// `value`; every other key is as before. The value that was replaced,
    /// if any, is dropped here.
    #[verifier::external_body]
    pub(crate) fn insert(&mut self, key: String, value: usize)
        ensures
            entries(*final(self)) == entries(*old(self)).insert(key@, value),
    {
        self.map.insert(key, value);
    }

    /// Trusted: `hashbrown::HashMap::keys`, each key cloned into the
    /// result. The keys come in an arbitrary order; each key of the map
    /// comes exactly once.
    #[verifier::external_body]
    pub(crate) fn keys(&self) -> (keys: Vec<String>)
        ensures
            forall|i: int, j: int| 0 <= i < j < keys@.len() ==> keys@[i]@ != keys@[j]@,
            forall|i: int|
                0 <= i < keys@.len() ==> entries(*self).dom().contains(#[trigger] keys@[i]@),
            forall|key: Seq<char>|
                entries(*self).dom().contains(key) ==> exists|i: int|
                    0 <= i < keys@.len() && #[trigger] keys@[i]@ == key,
    {
        self.map.keys().cloned().collect()
    }
}

} // verus!
