//! The corpus as the contracts see it: the indexed documents, the document
//! frequency of every term, and what adding or replacing a document does
//! to both.
use crate::word::terms_of;
use vstd::prelude::*;

verus! {

/// One indexed document: its path and its terms in the order of the text.
pub struct Indexed {
    pub path: Seq<char>,
    pub terms: Seq<Seq<char>>,
}

/// The number of documents among `docs` in which `term` occurs.
pub open spec fn holders(docs: Seq<Indexed>, term: Seq<char>) -> nat
    decreases docs.len(),
{
    if docs.len() == 0 {
        0
    } else {
        holders(docs.drop_last(), term) + if docs.last().terms.contains(term) {
            1nat
        } else {
            0nat
        }
    }
}

/// The document frequencies once the terms of a document are taken out:
/// one less for each term that occurs in it, and never below zero.
pub open spec fn retract(df: Map<Seq<char>, nat>, terms: Seq<Seq<char>>) -> Map<Seq<char>, nat> {
    Map::total(
        |term: Seq<char>|
            if terms.contains(term) && df[term] > 0 {
                (df[term] - 1) as nat
            } else {
                df[term]
            },
    )
}

/// The document frequencies once the terms of a document are counted in:
/// one more for each term that occurs in it.
pub open spec fn apply(df: Map<Seq<char>, nat>, terms: Seq<Seq<char>>) -> Map<Seq<char>, nat> {
    Map::total(
        |term: Seq<char>|
            if terms.contains(term) {
                df[term] + 1
            } else {
                df[term]
            },
    )
}

/// The state of the index.
///
/// `df` is total: a term that no document holds has the frequency zero.
#[verifier::ext_equal]
pub struct Corpus {
    /// The documents, in the order in which their paths were first added.
    pub docs: Seq<Indexed>,
    /// The document frequency of every term.
    pub df: Map<Seq<char>, nat>,
    /// How many documents have been added or replaced so far.
    pub processed: nat,
    /// How many documents the build was announced to have.
    pub expected: nat,
}

impl Corpus {
    /// The corpus before anything is added.
    pub open spec fn empty(expected: nat) -> Corpus {
        Corpus {
            docs: Seq::empty(),
            df: Map::total(|term: Seq<char>| 0nat),
            processed: 0,
            expected,
        }
    }

    /// The number of indexed documents.
    pub open spec fn size(self) -> nat {
        self.docs.len()
    }

    /// Whether a document is indexed under `path`.
    pub open spec fn has(self, path: Seq<char>) -> bool {
        exists|i: int| 0 <= i < self.docs.len() && #[trigger] self.docs[i].path == path
    }

    /// The place of the document indexed under `path`.
    pub open spec fn slot(self, path: Seq<char>) -> int {
        choose|i: int| 0 <= i < self.docs.len() && #[trigger] self.docs[i].path == path
    }

    /// The documents as a mapping from path to terms.
    pub open spec fn documents(self) -> Map<Seq<char>, Seq<Seq<char>>> {
        Map::new(|path: Seq<char>| self.has(path), |path: Seq<char>| self.docs[self.slot(path)].terms)
    }

    /// The paths of the documents in which `term` occurs.
    pub open spec fn paths_holding(self, term: Seq<char>) -> Set<Seq<char>> {
        Set::new(|path: Seq<char>| self.has(path) && self.documents()[path].contains(term))
    }

    /// No path is indexed twice.
    pub open spec fn paths_distinct(self) -> bool {
        forall|i: int, j: int|
            0 <= i < j < self.docs.len() ==> #[trigger] self.docs[i].path
                != #[trigger] self.docs[j].path
    }

    /// The document frequency of every term is the number of documents in
    /// which the term occurs.
    pub open spec fn counts_agree(self) -> bool {
        forall|term: Seq<char>| #[trigger] self.df[term] == holders(self.docs, term)
    }

    /// What holds of the index between any two operations.
    pub open spec fn inv(self) -> bool {
        &&& self.paths_distinct()
        &&& self.counts_agree()
        &&& self.df.dom() == Set::<Seq<char>>::full()
        &&& self.docs.len() <= self.processed
    }

    /// The corpus after each of `items`, a path and a text, was indexed in
    /// turn.
    pub open spec fn built(self, items: Seq<(Seq<char>, Seq<char>)>) -> Corpus
        decreases items.len(),
    {
        if items.len() == 0 {
            self
        } else {
            self.built(items.drop_last()).added(items.last().0, terms_of(items.last().1))
        }
    }

    /// The corpus after the document `terms` was added under `path`, or
    /// has replaced the one that was indexed there.
    ///
    /// Where the path is indexed already, the old document is first taken
    /// out of the document frequencies; then the new one is counted in and
    /// stored in the place of the old one. A new path goes to the end.
    pub open spec fn added(self, path: Seq<char>, terms: Seq<Seq<char>>) -> Corpus {
        let doc = Indexed { path, terms };
        if self.has(path) {
            let slot = self.slot(path);
            Corpus {
                docs: self.docs.update(slot, doc),
                df: apply(retract(self.df, self.docs[slot].terms), terms),
                processed: self.processed + 1,
                expected: self.expected,
            }
        } else {
            Corpus {
                docs: self.docs.push(doc),
                df: apply(self.df, terms),
                processed: self.processed + 1,
                expected: self.expected,
            }
        }
    }
}

/// Replacing one document changes the number of holders of a term by what
/// the old document took part in and what the new one does.
pub proof fn holders_of_update(docs: Seq<Indexed>, slot: int, doc: Indexed, term: Seq<char>)
    requires
        0 <= slot < docs.len(),
    ensures
        holders(docs.update(slot, doc), term) + (if docs[slot].terms.contains(term) {
            1nat
        } else {
            0nat
        }) == holders(docs, term) + (if doc.terms.contains(term) {
            1nat
        } else {
            0nat
        }),
    decreases docs.len(),
{
    let after = docs.update(slot, doc);
    if slot == docs.len() - 1 {
        assert(after.drop_last() == docs.drop_last());
    } else {
        assert(after.drop_last() == docs.drop_last().update(slot, doc));
        holders_of_update(docs.drop_last(), slot, doc, term);
    }
}

/// A term that occurs in one of the documents has at least one holder,
/// and no term has more holders than there are documents.
pub proof fn holders_bounds(docs: Seq<Indexed>, term: Seq<char>)
    ensures
        holders(docs, term) <= docs.len(),
        forall|i: int|
            0 <= i < docs.len() && (#[trigger] docs[i]).terms.contains(term) ==> holders(
                docs,
                term,
            ) > 0,
    decreases docs.len(),
{
    if docs.len() != 0 {
        let before = docs.drop_last();
        holders_bounds(before, term);
        assert forall|i: int|
            0 <= i < docs.len() && (#[trigger] docs[i]).terms.contains(term) implies holders(
            docs,
            term,
        ) > 0 by {
            if i < before.len() {
                assert(before[i].terms.contains(term));
            }
        }
    }
}

/// Adding or replacing a document keeps the index consistent: afterwards
/// the document frequency of every term is again the number of documents
/// in which it occurs, and no path is indexed twice.
pub proof fn added_keeps_inv(corpus: Corpus, path: Seq<char>, terms: Seq<Seq<char>>)
    requires
        corpus.inv(),
    ensures
        corpus.added(path, terms).inv(),
{
    let after = corpus.added(path, terms);
    let doc = Indexed { path, terms };
    if corpus.has(path) {
        let slot = corpus.slot(path);
        assert forall|term: Seq<char>| #[trigger]
            after.df[term] == holders(after.docs, term) by {
            holders_of_update(corpus.docs, slot, doc, term);
            holders_bounds(corpus.docs, term);
        }
    } else {
        assert(after.docs.drop_last() == corpus.docs);
    }
}

/// The paths under which a document among `docs` holds `term`.
pub open spec fn holding(docs: Seq<Indexed>, term: Seq<char>) -> Set<Seq<char>> {
    Set::new(
        |path: Seq<char>|
            exists|i: int|
                0 <= i < docs.len() && (#[trigger] docs[i]).path == path && docs[i].terms.contains(
                    term,
                ),
    )
}

proof fn holding_counts(docs: Seq<Indexed>, term: Seq<char>)
    requires
        forall|i: int, j: int|
            0 <= i < j < docs.len() ==> (#[trigger] docs[i]).path != (#[trigger] docs[j]).path,
    ensures
        holding(docs, term).finite(),
        holding(docs, term).len() == holders(docs, term),
    decreases docs.len(),
{
    if docs.len() == 0 {
        assert(holding(docs, term) =~= Set::<Seq<char>>::empty());
    } else {
        let before = docs.drop_last();
        let last = docs.last();
        holding_counts(before, term);
        assert(!holding(before, term).contains(last.path));
        if last.terms.contains(term) {
            assert(holding(docs, term) =~= holding(before, term).insert(last.path)) by {
                assert forall|path: Seq<char>|
                    holding(docs, term).contains(path) <==> holding(before, term).insert(
                        last.path,
                    ).contains(path) by {
                    if holding(docs, term).contains(path) {
                        let i = choose|i: int|
                            0 <= i < docs.len() && (#[trigger] docs[i]).path == path
                                && docs[i].terms.contains(term);
                        if i < before.len() {
                            assert(before[i] == docs[i]);
                        }
                    }
                }
            }
        } else {
            assert(holding(docs, term) =~= holding(before, term)) by {
                assert forall|path: Seq<char>|
                    holding(docs, term).contains(path) <==> holding(before, term).contains(
                        path,
                    ) by {
                    if holding(docs, term).contains(path) {
                        let i = choose|i: int|
                            0 <= i < docs.len() && (#[trigger] docs[i]).path == path
                                && docs[i].terms.contains(term);
                        if i < before.len() {
                            assert(before[i] == docs[i]);
                        }
                    }
                }
            }
        }
    }
}

/// In a corpus without a path indexed twice, the number of holders of a
/// term is the number of paths whose document holds the term. So in a
/// consistent corpus the document frequency of a term is the size of the
/// set of documents in which the term occurs.
pub proof fn holders_is_cardinality(corpus: Corpus, term: Seq<char>)
    requires
        corpus.paths_distinct(),
    ensures
        corpus.paths_holding(term).finite(),
        corpus.paths_holding(term).len() == holders(corpus.docs, term),
        corpus.counts_agree() ==> corpus.df[term] == corpus.paths_holding(term).len(),
{
    holding_counts(corpus.docs, term);
    assert(corpus.paths_holding(term) =~= holding(corpus.docs, term)) by {
        assert forall|path: Seq<char>|
            corpus.paths_holding(term).contains(path) <==> holding(corpus.docs, term).contains(
                path,
            ) by {
            if holding(corpus.docs, term).contains(path) {
                let i = choose|i: int|
                    0 <= i < corpus.docs.len() && (#[trigger] corpus.docs[i]).path == path
                        && corpus.docs[i].terms.contains(term);
                slot_is_place(corpus, path, i);
            }
        }
    }
}

/// The empty corpus is consistent.
pub proof fn empty_is_consistent(expected: nat)
    ensures
        Corpus::empty(expected).inv(),
{
}

/// However many documents are added or replaced, and in whatever order:
/// after each of them the index is consistent.
pub proof fn built_keeps_inv(corpus: Corpus, items: Seq<(Seq<char>, Seq<char>)>)
    requires
        corpus.inv(),
    ensures
        corpus.built(items).inv(),
        corpus.built(items).processed == corpus.processed + items.len(),
        corpus.built(items).expected == corpus.expected,
    decreases items.len(),
{
    if items.len() != 0 {
        built_keeps_inv(corpus, items.drop_last());
        added_keeps_inv(
            corpus.built(items.drop_last()),
            items.last().0,
            terms_of(items.last().1),
        );
    }
}

/// Indexing a path a second time leaves the number of documents as it
/// was, and leaves the corpus as if only the second text had ever been
/// indexed under that path: nothing is left of the first.
pub proof fn reindexing_replaces(
    corpus: Corpus,
    path: Seq<char>,
    first: Seq<Seq<char>>,
    second: Seq<Seq<char>>,
)
    requires
        corpus.inv(),
    ensures
        corpus.added(path, first).added(path, second).size() == corpus.added(path, first).size(),
        corpus.added(path, first).added(path, second).docs == corpus.added(path, second).docs,
        corpus.added(path, first).added(path, second).df == corpus.added(path, second).df,
        corpus.added(path, first).added(path, second).documents() == corpus.added(
            path,
            first,
        ).documents().insert(path, second),
{
    let once = corpus.added(path, first);
    let twice = once.added(path, second);
    added_keeps_inv(corpus, path, first);
    added_keeps_inv(once, path, second);
    added_keeps_inv(corpus, path, second);
    let place = if corpus.has(path) {
        corpus.slot(path)
    } else {
        corpus.docs.len() as int
    };
    assert(once.docs[place].path == path);
    slot_is_place(twice, path, place);
    assert forall|p: Seq<char>| twice.has(p) <==> once.has(p) by {
        if once.has(p) {
            let i = once.slot(p);
            assert(twice.docs[i].path == p);
        }
    }
    assert forall|p: Seq<char>| twice.has(p) implies #[trigger] twice.documents()[p]
        == once.documents().insert(path, second)[p] by {
        let i = twice.slot(p);
        slot_is_place(twice, p, i);
        if p != path {
            slot_is_place(once, p, i);
        }
    }
}

/// In a corpus without a path indexed twice, the place of a path is the
/// one place where it stands.
pub proof fn slot_is_place(corpus: Corpus, path: Seq<char>, place: int)
    requires
        corpus.paths_distinct(),
        0 <= place < corpus.docs.len(),
        corpus.docs[place].path == path,
    ensures
        corpus.has(path),
        corpus.slot(path) == place,
{
}

} // verus!
