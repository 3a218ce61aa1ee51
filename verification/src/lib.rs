//! A full-text index with TF-IDF ranking.
//!
//! Texts are cut into words and the words are normalized into terms
//! ([`word`]). A document is the table of the terms of one text ([`doc`]).
//! The index holds the documents by their paths and, for every term, the
//! number of documents in which it occurs ([`model`]); what adding and
//! replacing a document does to it is laid down over a model of the
//! corpus ([`corpus`]), and that the two stay consistent is proved there.
//! A query is answered with the counts from which the score of each
//! document is computed ([`rank`]); a ranking is put in order by the rank
//! keys of the scores ([`order`]).
//!
//! Around this stand the build of an index from many texts ([`builder`])
//! with its progress signals ([`progress`]), the rules by which files are
//! chosen for the index ([`source`]), the decisions of the query service
//! ([`server`]), and the objects and text strings of PDF files ([`pdf`]).
//!
//! The hash tables are those of `hashbrown` ([`table`]), the stemmer is
//! that of `rust_stemmers`, the sort is that of `rayon` and XML is read
//! by `xml`; what is taken on trust of them, and of a few functions of
//! the standard library ([`chars`]), is said where they are called.
pub mod builder;
pub mod bytes;
pub mod chars;
pub mod corpus;
pub mod doc;
pub mod model;
pub mod order;
pub mod pdf;
pub mod progress;
pub mod rank;
pub mod server;
pub mod source;
pub mod table;
pub mod word;
