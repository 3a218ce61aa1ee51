//! Building an index from many texts: in which mode to build, and the
//! build in input order.
use crate::model::Model;
use crate::progress::{signals_between, Signal, FINISHED};
use vstd::prelude::*;
use vstd::utf8::encode_utf8;

verus! {

/// The size in bytes from which a text counts as big.
pub const GIG: u64 = 1024 * 1024 * 1024;

/// How an index is built.
#[derive(Clone, Copy, Debug, PartialEq, Eq, Structural)]
pub enum BuildMode {
    /// One text after the other, in input order.
    Sequential,
    /// Many texts at once, each committed under a lock.
    Parallel,
}

/// Whether a text of at least [`GIG`] bytes stands in the first half of
/// `contents`.
pub open spec fn has_big_text(contents: Seq<(Seq<char>, Seq<char>)>) -> bool {
    exists|i: int|
        0 <= i < contents.len() / 2 && encode_utf8((#[trigger] contents[i]).1).len() >= GIG
}

/// Chooses the mode of a build: parallel where one of the texts in the
/// first half of the input, by position, has at least [`GIG`] bytes, and
/// sequential otherwise.
pub fn build_mode(contents: &Vec<(String, String)>) -> (mode: BuildMode)
    ensures
        mode == (if has_big_text(contents.deep_view()) {
            BuildMode::Parallel
        } else {
            BuildMode::Sequential
        }),
{
    let half = contents.len() / 2;
    let mut i: usize = 0;
    while i < half
        invariant
            i <= half == contents@.len() / 2,
            forall|k: int|
                0 <= k < i ==> encode_utf8((#[trigger] contents.deep_view()[k]).1).len() < GIG,
        decreases half - i,
    {
        let bytes = contents[i].1.as_str().as_bytes().len();
        assert(bytes == encode_utf8(contents.deep_view()[i as int].1).len());
        if bytes as u64 >= GIG {
            return BuildMode::Parallel;
        }
        i += 1;
    }
    BuildMode::Sequential
}

impl Model {
    /// Indexes every pair of a path and a text, in the order given, and
    /// then signals the end. Returns the progress signals in the order
    /// in which they came due, the closing one last.
    pub fn add_contents(&mut self, contents: &Vec<(String, String)>) -> (signals: Vec<Signal>)
        requires
            old(self).inv(),
            old(self)@.processed + contents@.len() <= usize::MAX,
        ensures
            final(self).inv(),
            final(self)@ == old(self)@.built(contents.deep_view()),
            signals@ == signals_between(
                old(self)@.expected,
                old(self)@.processed,
                old(self)@.processed + contents@.len(),
            ).push(FINISHED),
    {
        let mut signals: Vec<Signal> = Vec::new();
        let mut i: usize = 0;
        while i < contents.len()
            invariant
                i <= contents@.len(),
                self.inv(),
                old(self)@.processed + contents@.len() <= usize::MAX,
                self@ == old(self)@.built(contents.deep_view().take(i as int)),
                self@.processed == old(self)@.processed + i,
                self@.expected == old(self)@.expected,
                signals@ == signals_between(
                    old(self)@.expected,
                    old(self)@.processed,
                    (old(self)@.processed + i) as nat,
                ),
            decreases contents@.len() - i,
        {
            let ghost items = contents.deep_view().take(i + 1);
            assert(items.drop_last() == contents.deep_view().take(i as int));
            let mut due = self.add_document(contents[i].0.as_str(), contents[i].1.as_str());
            signals.append(&mut due);
            i += 1;
        }
        assert(contents.deep_view().take(contents@.len() as int) == contents.deep_view());
        signals.push(FINISHED);
        signals
    }
}

} // verus!
