//! Ranking: what each term of a query adds to the score of each document.
//!
//! The score of a document for a query is the sum, over the terms of the
//! query, of the term frequency times the logarithm to base ten of the
//! inverse document frequency. Both are quotients of counts. This module
//! computes the counts, exactly, and decides which documents have a score
//! at all; forming the quotients, taking the logarithm and sorting by the
//! sum is left to the caller, who does it in floating point.
use crate::corpus::{holders_bounds, Corpus};
use crate::doc::{occurrences, occurrences_positive, Doc};
use crate::model::Model;
use crate::word::{terms, terms_of};
use vstd::prelude::*;

verus! {

/// A quotient of two counts, in the contracts.
pub struct Quotient {
    pub num: nat,
    pub den: nat,
}

/// A quotient of two counts.
#[derive(Clone, Copy, Debug, PartialEq, Eq, Structural)]
pub struct Ratio {
    pub num: usize,
    pub den: usize,
}

impl View for Ratio {
    type V = Quotient;

    open spec fn view(&self) -> Quotient {
        Quotient { num: self.num as nat, den: self.den as nat }
    }
}

impl DeepView for Ratio {
    type V = Quotient;

    open spec fn deep_view(&self) -> Quotient {
        self@
    }
}

/// What one term adds to the score of one document, in the contracts: the
/// term frequency `tf` times the logarithm of `idf`.
pub struct Factor {
    pub tf: Quotient,
    pub idf: Quotient,
}

impl Factor {
    /// Whether the product has no value.
    ///
    /// The quotient `idf` has no value where both of its counts are zero.
    /// Its logarithm is unbounded where one of them is: above where no
    /// document holds the term, below where the corpus is empty. An
    /// unbounded logarithm times a term frequency of zero has no value
    /// either.
    pub open spec fn is_undefined(self) -> bool {
        ||| self.idf.num == 0 && self.idf.den == 0
        ||| (self.idf.num == 0 || self.idf.den == 0) && self.tf.num == 0
    }
}

/// What one term adds to the score of one document.
#[derive(Clone, Copy, Debug, PartialEq, Eq, Structural)]
pub struct Weight {
    pub tf: Ratio,
    pub idf: Ratio,
}

impl View for Weight {
    type V = Factor;

    open spec fn view(&self) -> Factor {
        Factor { tf: self.tf@, idf: self.idf@ }
    }
}

impl DeepView for Weight {
    type V = Factor;

    open spec fn deep_view(&self) -> Factor {
        self@
    }
}

impl Weight {
    /// Whether the product has no value.
    pub fn is_undefined(&self) -> (r: bool)
        ensures
            r == self@.is_undefined(),
    {
        (self.idf.num == 0 && self.idf.den == 0) || ((self.idf.num == 0 || self.idf.den == 0)
            && self.tf.num == 0)
    }
}

/// A document that has a score, in the contracts: its path, and one
/// factor for each term of the query, in the order of the query.
pub struct Scored {
    pub path: Seq<char>,
    pub factors: Seq<Factor>,
}

/// A document that has a score: its path, and one weight for each term of
/// the query, in the order of the query.
#[derive(Clone, Debug, PartialEq, Eq)]
pub struct Match {
    pub path: String,
    pub weights: Vec<Weight>,
}

impl View for Match {
    type V = Scored;

    open spec fn view(&self) -> Scored {
        Scored { path: self.path@, factors: self.weights.deep_view() }
    }
}

impl DeepView for Match {
    type V = Scored;

    open spec fn deep_view(&self) -> Scored {
        self@
    }
}

/// The term frequency of `term` in a document: how often the term occurs,
/// over the number of terms. Zero in a document without any term.
pub open spec fn tf_of(doc: Seq<Seq<char>>, term: Seq<char>) -> Quotient {
    if doc.len() == 0 {
        Quotient { num: 0, den: 1 }
    } else {
        Quotient { num: occurrences(doc, term), den: doc.len() }
    }
}

/// The inverse document frequency of `term`: the number of documents over
/// the number of those that hold the term. The second may be zero.
pub open spec fn idf_of(corpus: Corpus, term: Seq<char>) -> Quotient {
    Quotient { num: corpus.size(), den: corpus.df[term] }
}

/// The factors of a document for the terms of a query.
pub open spec fn factors_of(corpus: Corpus, doc: Seq<Seq<char>>, query: Seq<Seq<char>>) -> Seq<
    Factor,
> {
    Seq::new(
        query.len(),
        |i: int| Factor { tf: tf_of(doc, query[i]), idf: idf_of(corpus, query[i]) },
    )
}

/// Whether a document has a score for a query: whether each of its
/// factors has a value.
pub open spec fn has_score(factors: Seq<Factor>) -> bool {
    forall|i: int| 0 <= i < factors.len() ==> !(#[trigger] factors[i]).is_undefined()
}

/// The documents among the first `n` that have a score for the query, in
/// their order in the corpus, each with its factors.
pub open spec fn ranked_among(corpus: Corpus, query: Seq<Seq<char>>, n: nat) -> Seq<Scored>
    decreases n,
{
    if n == 0 {
        Seq::empty()
    } else {
        let before = ranked_among(corpus, query, (n - 1) as nat);
        let doc = corpus.docs[n - 1];
        let factors = factors_of(corpus, doc.terms, query);
        if has_score(factors) {
            before.push(Scored { path: doc.path, factors })
        } else {
            before
        }
    }
}

/// The documents that have a score for the query, in their order in the
/// corpus, each with its factors.
pub open spec fn ranked(corpus: Corpus, query: Seq<Seq<char>>) -> Seq<Scored> {
    ranked_among(corpus, query, corpus.docs.len())
}

/// In a document without terms every term has the frequency zero, and
/// the quotient is still a proper one.
pub proof fn empty_document_has_frequency_zero(doc: Seq<Seq<char>>, term: Seq<char>)
    requires
        doc.len() == 0,
    ensures
        tf_of(doc, term).num == 0,
        tf_of(doc, term).den > 0,
{
}

/// An empty corpus has no match for any query.
pub proof fn empty_corpus_has_no_match(corpus: Corpus, query: Seq<Seq<char>>)
    requires
        corpus.docs.len() == 0,
    ensures
        ranked(corpus, query) == Seq::<Scored>::empty(),
{
}

/// A query with a term that no document holds has no match: for that
/// term every document has a factor without a value.
pub proof fn unknown_term_has_no_match(corpus: Corpus, query: Seq<Seq<char>>, i: int)
    requires
        corpus.inv(),
        0 <= i < query.len(),
        corpus.df[query[i]] == 0,
    ensures
        ranked(corpus, query) == Seq::<Scored>::empty(),
{
    unknown_term_among(corpus, query, i, corpus.docs.len());
}

proof fn unknown_term_among(corpus: Corpus, query: Seq<Seq<char>>, i: int, n: nat)
    requires
        corpus.inv(),
        0 <= i < query.len(),
        corpus.df[query[i]] == 0,
        n <= corpus.docs.len(),
    ensures
        ranked_among(corpus, query, n) == Seq::<Scored>::empty(),
    decreases n,
{
    if n > 0 {
        unknown_term_among(corpus, query, i, (n - 1) as nat);
        let doc = corpus.docs[n - 1];
        let factors = factors_of(corpus, doc.terms, query);
        holders_bounds(corpus.docs, query[i]);
        occurrences_positive(doc.terms, query[i]);
        assert(factors[i].is_undefined());
    }
}

/// Where every term of the query occurs in some document, every document
/// has a score: the matches are all the documents, in their order.
pub proof fn known_terms_match_all(corpus: Corpus, query: Seq<Seq<char>>)
    requires
        corpus.inv(),
        forall|i: int| 0 <= i < query.len() ==> corpus.df[#[trigger] query[i]] > 0,
    ensures
        ranked(corpus, query).len() == corpus.docs.len(),
        forall|k: int|
            0 <= k < corpus.docs.len() ==> (#[trigger] ranked(corpus, query)[k]).path
                == corpus.docs[k].path,
{
    known_terms_among(corpus, query, corpus.docs.len());
}

proof fn known_terms_among(corpus: Corpus, query: Seq<Seq<char>>, n: nat)
    requires
        corpus.inv(),
        forall|i: int| 0 <= i < query.len() ==> corpus.df[#[trigger] query[i]] > 0,
        n <= corpus.docs.len(),
    ensures
        ranked_among(corpus, query, n).len() == n,
        forall|k: int|
            0 <= k < n ==> (#[trigger] ranked_among(corpus, query, n)[k]).path
                == corpus.docs[k].path,
    decreases n,
{
    if n > 0 {
        known_terms_among(corpus, query, (n - 1) as nat);
    }
}

impl Model {
    /// The term frequency of `term` in `doc`, as a quotient with a
    /// divisor that is not zero.
    pub fn tf(term: &str, doc: &Doc) -> (r: Ratio)
        ensures
            r@ == tf_of(doc@, term@),
    {
        let total = doc.total_terms();
        if total == 0 {
            Ratio { num: 0, den: 1 }
        } else {
            Ratio { num: doc.frequency(term), den: total }
        }
    }

    /// The inverse document frequency of `term`, as a quotient.
    pub fn idf(&self, term: &str) -> (r: Ratio)
        ensures
            r@ == idf_of(self@, term@),
    {
        Ratio { num: self.size(), den: self.document_frequency(term) }
    }

    /// The weights of one document for the terms of a query.
    fn weigh(doc: &Doc, query: &Vec<String>, idfs: &Vec<Ratio>, Ghost(corpus): Ghost<Corpus>) -> (weights: Vec<Weight>)
        requires
            idfs@.len() == query@.len(),
            forall|i: int|
                0 <= i < query@.len() ==> (#[trigger] idfs@[i])@ == idf_of(corpus, query@[i]@),
        ensures
            weights.deep_view() == factors_of(corpus, doc@, query.deep_view()),
    {
        let mut weights: Vec<Weight> = Vec::new();
        let mut i: usize = 0;
        while i < query.len()
            invariant
                i <= query@.len() == idfs@.len(),
                forall|i: int|
                    0 <= i < query@.len() ==> (#[trigger] idfs@[i])@ == idf_of(
                        corpus,
                        query@[i]@,
                    ),
                weights@.len() == i,
                forall|k: int|
                    0 <= k < i ==> (#[trigger] weights@[k])@ == factors_of(
                        corpus,
                        doc@,
                        query.deep_view(),
                    )[k],
            decreases query@.len() - i,
        {
            let weight = Weight { tf: Self::tf(query[i].as_str(), doc), idf: idfs[i] };
            weights.push(weight);
            i += 1;
        }
        weights
    }

    /// Searches the index. Returns the documents that have a score for
    /// the query, in their order in the index, each with the weights from
    /// which its score is computed.
    ///
    /// The query goes through the same steps as an indexed text. A
    /// document with a weight that has no value has no score, and is left
    /// out.
    pub fn search(&self, query: &str) -> (matches: Vec<Match>)
        ensures
            matches.deep_view() == ranked(self@, terms_of(query@)),
    {
        let tokens = terms(query);
        self.search_terms(&tokens)
    }

    /// Searches the index for terms: as [`Model::search`] does for the
    /// terms of its query.
    pub fn search_terms(&self, tokens: &Vec<String>) -> (matches: Vec<Match>)
        ensures
            matches.deep_view() == ranked(self@, tokens.deep_view()),
    {
        let mut idfs: Vec<Ratio> = Vec::new();
        let mut j: usize = 0;
        while j < tokens.len()
            invariant
                j <= tokens@.len(),
                idfs@.len() == j,
                forall|i: int|
                    0 <= i < j ==> (#[trigger] idfs@[i])@ == idf_of(self@, tokens@[i]@),
            decreases tokens@.len() - j,
        {
            idfs.push(self.idf(tokens[j].as_str()));
            j += 1;
        }
        let mut matches: Vec<Match> = Vec::new();
        let mut n: usize = 0;
        while n < self.size()
            invariant
                n <= self@.size(),
                idfs@.len() == tokens@.len(),
                forall|i: int|
                    0 <= i < tokens@.len() ==> (#[trigger] idfs@[i])@ == idf_of(
                        self@,
                        tokens@[i]@,
                    ),
                matches.deep_view() == ranked_among(self@, tokens.deep_view(), n as nat),
            decreases self@.size() - n,
        {
            let doc = self.doc_at(n);
            let weights = Self::weigh(doc, tokens, &idfs, Ghost(self@));
            let mut scored = true;
            let mut k: usize = 0;
            while k < weights.len()
                invariant
                    k <= weights@.len(),
                    scored == forall|i: int|
                        0 <= i < k ==> !(#[trigger] weights.deep_view()[i]).is_undefined(),
                decreases weights@.len() - k,
            {
                assert(weights.deep_view()[k as int] == weights@[k as int]@);
                if weights[k].is_undefined() {
                    scored = false;
                }
                k += 1;
            }
            if scored {
                let found = Match { path: self.path_at(n).clone(), weights };
                matches.push(found);
            }
            n += 1;
        }
        matches
    }
}

} // verus!
