//! The index itself: the documents, the document frequency table, and the
//! operations that keep the two consistent.
use crate::corpus::{added_keeps_inv, apply, holders, holders_bounds, retract, Corpus, Indexed};
use crate::doc::Doc;
use crate::progress::{calculate_milestones, due_signals, milestones_of, signals_at, Signal};
use crate::table::{Table, MAX_CAPACITY};
use crate::word::terms_of;
use vstd::prelude::*;

verus! {

/// A document together with the path under which it is indexed.
struct Entry {
    path: String,
    doc: Doc,
}

/// The corpus index.
///
/// Its view is a [`Corpus`]. The documents are kept in the order in which
/// their paths were first added; a table leads from each path to the
/// place of its document.
pub struct Model {
    count: usize,
    expected: usize,
    milestones: Vec<(usize, Signal)>,
    df: Table,
    slots: Table,
    docs: Vec<Entry>,
}

/// Whether `keys` names `term`.
spec fn names(keys: Seq<String>, term: Seq<char>) -> bool {
    exists|i: int| 0 <= i < keys.len() && #[trigger] keys[i]@ == term
}

/// Takes one off the count of every key.
fn retract_keys(df: &mut Table, keys: &Vec<String>)
    requires
        forall|i: int, j: int| 0 <= i < j < keys@.len() ==> keys@[i]@ != keys@[j]@,
        forall|i: int| 0 <= i < keys@.len() ==> old(df).count(#[trigger] keys@[i]@) > 0,
    ensures
        forall|term: Seq<char>| #[trigger]
            final(df).count(term) == old(df).count(term) - (if names(keys@, term) {
                1nat
            } else {
                0nat
            }),
{
    let mut i: usize = 0;
    while i < keys.len()
        invariant
            i <= keys@.len(),
            forall|i: int, j: int| 0 <= i < j < keys@.len() ==> keys@[i]@ != keys@[j]@,
            forall|k: int| i <= k < keys@.len() ==> df.count(#[trigger] keys@[k]@) > 0,
            forall|term: Seq<char>| #[trigger]
                df.count(term) == old(df).count(term) - (if names(keys@.take(i as int), term) {
                    1nat
                } else {
                    0nat
                }),
        decreases keys@.len() - i,
    {
        let key = &keys[i];
        let n = match df.get(key.as_str()) {
            Some(n) => n,
            None => 0,
        };
        let ghost earlier = *df;
        df.insert(key.clone(), n - 1);
        proof {
            let seen = keys@.take(i as int);
            let next = keys@.take(i + 1);
            assert forall|term: Seq<char>| #[trigger]
                df.count(term) == old(df).count(term) - (if names(next, term) {
                    1nat
                } else {
                    0nat
                }) by {
                assert(earlier.count(term) == old(df).count(term) - (if names(seen, term) {
                    1nat
                } else {
                    0nat
                }));
                if term == key@ {
                    assert(next[i as int]@ == term);
                }
            }
        }
        i += 1;
    }
    assert(keys@.take(keys@.len() as int) == keys@);
}

/// Adds one to the count of every key.
fn apply_keys(df: &mut Table, keys: &Vec<String>)
    requires
        forall|i: int, j: int| 0 <= i < j < keys@.len() ==> keys@[i]@ != keys@[j]@,
        forall|i: int| 0 <= i < keys@.len() ==> old(df).count(#[trigger] keys@[i]@) < usize::MAX,
    ensures
        forall|term: Seq<char>| #[trigger]
            final(df).count(term) == old(df).count(term) + (if names(keys@, term) {
                1nat
            } else {
                0nat
            }),
{
    let mut i: usize = 0;
    while i < keys.len()
        invariant
            i <= keys@.len(),
            forall|i: int, j: int| 0 <= i < j < keys@.len() ==> keys@[i]@ != keys@[j]@,
            forall|k: int| i <= k < keys@.len() ==> df.count(#[trigger] keys@[k]@) < usize::MAX,
            forall|term: Seq<char>| #[trigger]
                df.count(term) == old(df).count(term) + (if names(keys@.take(i as int), term) {
                    1nat
                } else {
                    0nat
                }),
        decreases keys@.len() - i,
    {
        let key = &keys[i];
        let n = match df.get(key.as_str()) {
            Some(n) => n,
            None => 0,
        };
        let ghost earlier = *df;
        df.insert(key.clone(), n + 1);
        proof {
            let seen = keys@.take(i as int);
            let next = keys@.take(i + 1);
            assert forall|term: Seq<char>| #[trigger]
                df.count(term) == old(df).count(term) + (if names(next, term) {
                    1nat
                } else {
                    0nat
                }) by {
                assert(earlier.count(term) == old(df).count(term) + (if names(seen, term) {
                    1nat
                } else {
                    0nat
                }));
                if term == key@ {
                    assert(next[i as int]@ == term);
                }
            }
        }
        i += 1;
    }
    assert(keys@.take(keys@.len() as int) == keys@);
}

impl View for Model {
    type V = Corpus;

    closed spec fn view(&self) -> Corpus {
        Corpus {
            docs: Seq::new(
                self.docs@.len(),
                |i: int| Indexed { path: self.docs@[i].path@, terms: self.docs@[i].doc@ },
            ),
            df: Map::total(|term: Seq<char>| self.df.count(term)),
            processed: self.count as nat,
            expected: self.expected as nat,
        }
    }
}

impl Model {
    /// The table of places leads from each indexed path to its document,
    /// and from no other path anywhere; the milestones are those of the
    /// announced number of documents.
    pub closed spec fn wired(&self) -> bool {
        &&& forall|path: Seq<char>| #[trigger]
            self.slots@.dom().contains(path) ==> {
                &&& self.slots@[path] < self.docs@.len()
                &&& self.docs@[self.slots@[path] as int].path@ == path
            }
        &&& forall|i: int|
            0 <= i < self.docs@.len() ==> self.slots@.dom().contains(
                #[trigger] self.docs@[i].path@,
            )
        &&& self.milestones@ == milestones_of(self.expected as nat)
    }

    /// What holds of a model between any two operations: its corpus is
    /// consistent, and its own tables fit the corpus.
    pub open spec fn inv(&self) -> bool {
        &&& self@.inv()
        &&& self.wired()
    }

    /// An empty index for a build of `docs_count` documents.
    pub fn new(docs_count: usize) -> (model: Model)
        ensures
            model.inv(),
            model@ == Corpus::empty(docs_count as nat),
    {
        let room = if docs_count < MAX_CAPACITY {
            docs_count
        } else {
            MAX_CAPACITY
        };
        let terms_room = if room < MAX_CAPACITY / 128 {
            room * 128
        } else {
            MAX_CAPACITY
        };
        let model = Model {
            count: 0,
            expected: docs_count,
            milestones: calculate_milestones(docs_count),
            df: Table::with_capacity(terms_room),
            slots: Table::with_capacity(room),
            docs: Vec::new(),
        };
        model
    }

    /// The place of the document indexed under `path`, if there is one.
    fn slot_of(&self, path: &str) -> (slot: Option<usize>)
        requires
            self@.paths_distinct(),
            self.wired(),
        ensures
            match slot {
                Some(i) => self@.has(path@) && i == self@.slot(path@),
                None => !self@.has(path@),
            },
    {
        let slot = self.slots.get(path);
        proof {
            if let Some(i) = slot {
                assert(self.slots@.dom().contains(path@));
                assert(self@.docs[i as int].path == path@);
            }
        }
        slot
    }

    /// Takes the document indexed under `path`, if there is one, out of
    /// the document frequencies. The document itself stays in its place
    /// until the new one is stored there. Returns the place.
    fn rm_document(&mut self, path: &str) -> (slot: Option<usize>)
        requires
            old(self).inv(),
        ensures
            final(self).wired(),
            final(self)@.docs == old(self)@.docs,
            final(self)@.processed == old(self)@.processed,
            final(self)@.expected == old(self)@.expected,
            match slot {
                Some(i) => {
                    &&& old(self)@.has(path@)
                    &&& i == old(self)@.slot(path@)
                    &&& final(self)@.df == retract(old(self)@.df, old(self)@.docs[i as int].terms)
                },
                None => !old(self)@.has(path@) && final(self)@.df == old(self)@.df,
            },
    {
        let slot = self.slot_of(path);
        if let Some(i) = slot {
            let keys = self.docs[i].doc.distinct_terms();
            let ghost terms = self.docs@[i as int].doc@;
            proof {
                assert forall|k: int| 0 <= k < keys@.len() implies self.df.count(
                    #[trigger] keys@[k]@,
                ) > 0 by {
                    let term = keys@[k]@;
                    holders_bounds(self@.docs, term);
                    assert(self@.df[term] == holders(self@.docs, term));
                }
            }
            let ghost earlier = self.df;
            retract_keys(&mut self.df, &keys);
            proof {
                assert forall|term: Seq<char>| #[trigger]
                    self@.df[term] == retract(old(self)@.df, terms)[term] by {
                    assert(self.df.count(term) == earlier.count(term) - (if names(keys@, term) {
                        1nat
                    } else {
                        0nat
                    }));
                    if terms.contains(term) {
                        holders_bounds(old(self)@.docs, term);
                    }
                }
            }
        }
        slot
    }

    /// Counts the document in and stores it under `path`: in the place
    /// `slot` where the path was indexed before, else at the end.
    fn store(&mut self, path: &str, slot: Option<usize>, doc: Doc, Ghost(before): Ghost<Corpus>) -> (signals: Vec<Signal>)
        requires
            before.inv(),
            before.processed < usize::MAX,
            old(self).wired(),
            old(self)@.docs == before.docs,
            old(self)@.processed == before.processed,
            old(self)@.expected == before.expected,
            match slot {
                Some(i) => {
                    &&& before.has(path@)
                    &&& i == before.slot(path@)
                    &&& old(self)@.df == retract(before.df, before.docs[i as int].terms)
                },
                None => !before.has(path@) && old(self)@.df == before.df,
            },
        ensures
            final(self).inv(),
            final(self)@ == before.added(path@, doc@),
            signals@ == signals_at(before.expected, before.processed + 1),
    {
        let keys = doc.distinct_terms();
        let ghost terms = doc@;
        proof {
            assert forall|k: int| 0 <= k < keys@.len() implies self.df.count(
                #[trigger] keys@[k]@,
            ) < usize::MAX by {
                let term = keys@[k]@;
                holders_bounds(before.docs, term);
                assert(self@.df[term] <= before.df[term]);
            }
        }
        let ghost earlier = self.df;
        let ghost retracted = self@.df;
        apply_keys(&mut self.df, &keys);
        proof {
            assert forall|term: Seq<char>| #[trigger]
                self@.df[term] == apply(retracted, terms)[term] by {
                assert(self.df.count(term) == earlier.count(term) + (if names(keys@, term) {
                    1nat
                } else {
                    0nat
                }));
            }
            assert(self@.df =~= apply(retracted, terms));
        }
        let entry = Entry { path: path.to_owned(), doc };
        match slot {
            Some(i) => {
                self.docs.set(i, entry);
                assert(self@.docs =~= before.docs.update(i as int, Indexed { path: path@, terms }));
                assert(self.wired());
            },
            None => {
                let place = self.docs.len();
                self.slots.insert(path.to_owned(), place);
                self.docs.push(entry);
                assert(self@.docs =~= before.docs.push(Indexed { path: path@, terms }));
                assert(self.wired()) by {
                    assert forall|p: Seq<char>| #[trigger]
                        self.slots@.dom().contains(p) implies self.slots@[p] < self.docs@.len()
                        && self.docs@[self.slots@[p] as int].path@ == p by {
                        if p != path@ {
                            assert(old(self).slots@.dom().contains(p));
                        }
                    }
                }
            },
        }
        self.count += 1;
        proof {
            added_keeps_inv(before, path@, terms);
        }
        due_signals(&self.milestones, self.count)
    }

    /// Adds an already built document under `path`, or replaces with it
    /// the one indexed there. Returns the progress signals that are due
    /// now, in rising order.
    pub fn commit(&mut self, path: &str, doc: Doc) -> (signals: Vec<Signal>)
        requires
            old(self).inv(),
            old(self)@.processed < usize::MAX,
        ensures
            final(self).inv(),
            final(self)@ == old(self)@.added(path@, doc@),
            signals@ == signals_at(old(self)@.expected, old(self)@.processed + 1),
    {
        let slot = self.rm_document(path);
        self.store(path, slot, doc, Ghost(old(self)@))
    }

    /// Indexes `content` under `path`: a first document for a new path, a
    /// replacement for one that is indexed already. Returns the progress
    /// signals that are due now, in rising order.
    pub fn add_document(&mut self, path: &str, content: &str) -> (signals: Vec<Signal>)
        requires
            old(self).inv(),
            old(self)@.processed < usize::MAX,
        ensures
            final(self).inv(),
            final(self)@ == old(self)@.added(path@, terms_of(content@)),
            signals@ == signals_at(old(self)@.expected, old(self)@.processed + 1),
    {
        let slot = self.rm_document(path);
        let doc = Doc::new(content);
        self.store(path, slot, doc, Ghost(old(self)@))
    }

    /// The document frequency of `term`: the number of indexed documents
    /// in which it occurs.
    pub fn document_frequency(&self, term: &str) -> (n: usize)
        ensures
            n == self@.df[term@],
    {
        match self.df.get(term) {
            Some(n) => n,
            None => 0,
        }
    }

    /// The path of the document at `place`.
    pub fn path_at(&self, place: usize) -> (path: &String)
        requires
            place < self@.size(),
        ensures
            path@ == self@.docs[place as int].path,
    {
        &self.docs[place].path
    }

    /// The document at `place`.
    pub fn doc_at(&self, place: usize) -> (doc: &Doc)
        requires
            place < self@.size(),
        ensures
            doc@ == self@.docs[place as int].terms,
    {
        &self.docs[place].doc
    }

    /// The document indexed under `path`, if there is one.
    pub fn get(&self, path: &str) -> (doc: Option<&Doc>)
        requires
            self.inv(),
        ensures
            match doc {
                Some(doc) => self@.has(path@) && doc@ == self@.docs[self@.slot(path@)].terms,
                None => !self@.has(path@),
            },
    {
        match self.slot_of(path) {
            Some(place) => Some(&self.docs[place].doc),
            None => None,
        }
    }

    /// How many documents have been added or replaced so far.
    pub fn processed(&self) -> (n: usize)
        ensures
            n == self@.processed,
    {
        self.count
    }

    /// How many documents the build was announced to have.
    pub fn expected(&self) -> (n: usize)
        ensures
            n == self@.expected,
    {
        self.expected
    }

    /// The number of documents in the index.
    pub fn size(&self) -> (n: usize)
        ensures
            n == self@.size(),
    {
        self.docs.len()
    }
}

} // verus!
