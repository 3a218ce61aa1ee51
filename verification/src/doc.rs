//! Documents: the terms of one text and how often each occurs.
use crate::table::Table;
use crate::word::{terms, terms_of};
use vstd::prelude::*;

verus! {

/// How often `term` occurs among `terms`.
pub open spec fn occurrences(terms: Seq<Seq<char>>, term: Seq<char>) -> nat
    decreases terms.len(),
{
    if terms.len() == 0 {
        0
    } else {
        occurrences(terms.drop_last(), term) + if terms.last() == term {
            1nat
        } else {
            0nat
        }
    }
}

/// No term occurs more often than there are terms.
pub proof fn occurrences_at_most_len(terms: Seq<Seq<char>>, term: Seq<char>)
    ensures
        occurrences(terms, term) <= terms.len(),
    decreases terms.len(),
{
    if terms.len() != 0 {
        occurrences_at_most_len(terms.drop_last(), term);
    }
}

/// A term occurs among `terms` exactly when it stands at some place in
/// them.
pub proof fn occurrences_positive(terms: Seq<Seq<char>>, term: Seq<char>)
    ensures
        occurrences(terms, term) > 0 <==> terms.contains(term),
    decreases terms.len(),
{
    if terms.len() != 0 {
        let before = terms.drop_last();
        occurrences_positive(before, term);
        if terms.contains(term) {
            let i = choose|i: int| 0 <= i < terms.len() && terms[i] == term;
            if i < before.len() {
                assert(before[i] == term);
            }
        }
    }
}

/// One indexed text: its term frequency table and the number of its terms.
///
/// A document is built once and never changed. Its view is the sequence
/// of its terms in the order of the text; the table holds, for each term
/// that occurs, how often it does.
pub struct Doc {
    tf: Table,
    count: usize,
    terms: Ghost<Seq<Seq<char>>>,
}

impl View for Doc {
    type V = Seq<Seq<char>>;

    closed spec fn view(&self) -> Seq<Seq<char>> {
        self.terms@
    }
}

impl Doc {
    #[verifier::type_invariant]
    spec fn inv(&self) -> bool {
        &&& self.count == self.terms@.len()
        &&& forall|term: Seq<char>| #[trigger]
            self.tf.count(term) == occurrences(self.terms@, term)
        &&& forall|term: Seq<char>| #[trigger]
            self.tf@.dom().contains(term) ==> self.tf@[term] > 0
    }

    /// Builds the document of a text: splits it, normalizes each token and
    /// counts the terms that are left.
    pub fn new(content: &str) -> (doc: Doc)
        ensures
            doc@ == terms_of(content@),
    {
        Doc::from_terms(terms(content))
    }

    /// Builds the document that holds the given terms.
    pub fn from_terms(words: Vec<String>) -> (doc: Doc)
        ensures
            doc@ == words.deep_view(),
    {
        let mut tf = Table::with_capacity(128);
        let mut i: usize = 0;
        while i < words.len()
            invariant
                i <= words.len(),
                forall|term: Seq<char>| #[trigger]
                    tf.count(term) == occurrences(words.deep_view().take(i as int), term),
                forall|term: Seq<char>| #[trigger] tf@.dom().contains(term) ==> tf@[term] > 0,
            decreases words.len() - i,
        {
            let word = &words[i];
            let ghost seen = words.deep_view().take(i as int);
            let ghost next = words.deep_view().take(i + 1);
            let n = match tf.get(word.as_str()) {
                Some(n) => n,
                None => 0,
            };
            proof {
                occurrences_at_most_len(seen, word@);
                assert(n == tf.count(word@));
                assert(next.drop_last() == seen);
            }
            let ghost earlier = tf;
            tf.insert(word.clone(), n + 1);
            i += 1;
            assert forall|term: Seq<char>| #[trigger]
                tf.count(term) == occurrences(next, term) by {
                assert(earlier.count(term) == occurrences(seen, term));
            }
        }
        assert(words.deep_view().take(words.len() as int) == words.deep_view());
        Doc { tf, count: words.len(), terms: Ghost(words.deep_view()) }
    }

    /// The number of terms in the document, each counted as often as it
    /// occurs.
    pub fn total_terms(&self) -> (total: usize)
        ensures
            total == self@.len(),
    {
        proof {
            use_type_invariant(self);
        }
        self.count
    }

    /// How often `term` occurs in the document.
    pub fn frequency(&self, term: &str) -> (n: usize)
        ensures
            n == occurrences(self@, term@),
    {
        proof {
            use_type_invariant(self);
        }
        match self.tf.get(term) {
            Some(n) => {
                assert(n == self.tf.count(term@));
                n
            },
            None => {
                assert(0 == self.tf.count(term@));
                0
            },
        }
    }

    /// The terms of the document, each once, in no particular order.
    pub fn distinct_terms(&self) -> (keys: Vec<String>)
        ensures
            forall|i: int, j: int| 0 <= i < j < keys@.len() ==> keys@[i]@ != keys@[j]@,
            forall|i: int| 0 <= i < keys@.len() ==> self@.contains(#[trigger] keys@[i]@),
            forall|term: Seq<char>|
                self@.contains(term) ==> exists|i: int|
                    0 <= i < keys@.len() && #[trigger] keys@[i]@ == term,
    {
        proof {
            use_type_invariant(self);
        }
        let keys = self.tf.keys();
        proof {
            assert forall|i: int| 0 <= i < keys@.len() implies self@.contains(
                #[trigger] keys@[i]@,
            ) by {
                let term = keys@[i]@;
                assert(self.tf.count(term) == occurrences(self@, term));
                occurrences_positive(self@, term);
            }
            assert forall|term: Seq<char>| self@.contains(term) implies exists|i: int|
                0 <= i < keys@.len() && #[trigger] keys@[i]@ == term by {
                occurrences_positive(self@, term);
                assert(self.tf.count(term) == occurrences(self@, term));
            }
        }
        keys
    }
}

} // verus!
