//! Incremental updates: a document that was read from a file, and what is
//! to be appended to the file.
use crate::bytes::bytes_copy;
use crate::pdf::document::{Document, DocumentValue};
use vstd::prelude::*;

verus! {

/// A document that was read, together with a new document that holds
/// what is added to it.
#[derive(Debug)]
pub struct IncrementalDocument {
    /// The bytes that the document was read from.
    bytes_documents: Vec<u8>,
    /// The document as it was read. It is kept as it is: what is changed
    /// goes into `new_document`.
    prev_documents: Document,
    /// The document that is appended to the file.
    pub new_document: Document,
}

impl IncrementalDocument {
    /// The bytes that the document was read from.
    pub closed spec fn bytes(&self) -> Seq<u8> {
        self.bytes_documents@
    }

    /// The document as it was read.
    pub closed spec fn prev(&self) -> Document {
        self.prev_documents
    }

    /// The document that is appended to the file.
    pub closed spec fn appended(&self) -> Document {
        self.new_document
    }

    /// Nothing read and nothing to append.
    pub fn new() -> (document: IncrementalDocument)
        ensures
            document.bytes() == Seq::<u8>::empty(),
            document.prev().deep_view() == DocumentValue::empty(),
            document.appended().deep_view() == DocumentValue::empty(),
    {
        IncrementalDocument {
            bytes_documents: Vec::new(),
            prev_documents: Document::new(),
            new_document: Document::new(),
        }
    }

    /// A document for updates of `prev_documents`, which was read from
    /// `prev_bytes`. The bytes and the document are taken to belong
    /// together; nothing here reads the bytes.
    pub fn create_from(prev_bytes: Vec<u8>, prev_documents: Document) -> (document:
        IncrementalDocument)
        ensures
            document.bytes() == prev_bytes@,
            document.prev() == prev_documents,
            document.appended().deep_view() == prev_documents.deep_view().continued(),
    {
        let new_document = Document::new_from_prev(&prev_documents);
        IncrementalDocument { bytes_documents: prev_bytes, prev_documents, new_document }
    }

    /// The document as it was read, with all updates that the file held.
    pub fn get_prev_documents(&self) -> (prev: &Document)
        ensures
            *prev == self.prev(),
    {
        &self.prev_documents
    }

    /// The bytes that the document was read from.
    pub fn get_prev_documents_bytes(&self) -> (bytes: &[u8])
        ensures
            bytes@ == self.bytes(),
    {
        self.bytes_documents.as_slice()
    }
}

impl Clone for IncrementalDocument {
    fn clone(&self) -> (copy: IncrementalDocument)
        ensures
            copy.bytes() == self.bytes(),
            copy.prev().deep_view() == self.prev().deep_view(),
            copy.appended().deep_view() == self.appended().deep_view(),
    {
        IncrementalDocument {
            bytes_documents: bytes_copy(self.bytes_documents.as_slice()),
            prev_documents: self.prev_documents.clone(),
            new_document: self.new_document.clone(),
        }
    }
}

impl Default for IncrementalDocument {
    fn default() -> (document: IncrementalDocument)
        ensures
            document.bytes() == Seq::<u8>::empty(),
            document.prev().deep_view() == DocumentValue::empty(),
            document.appended().deep_view() == DocumentValue::empty(),
    {
        IncrementalDocument::new()
    }
}

} // verus!
