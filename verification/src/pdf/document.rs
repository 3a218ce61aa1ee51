//! Documents: the objects of a PDF file and its trailer.
use crate::pdf::object::{key, with_entry, Dictionary, Object, ObjectId, Value};
use vstd::prelude::*;

verus! {

/// The version that a new document declares.
pub open spec fn default_version() -> Seq<char> {
    seq!['1', '.', '4']
}

/// A PDF document.
#[derive(Debug)]
pub struct Document {
    /// The version of PDF that the document declares.
    pub version: String,
    /// The trailer of the document.
    pub trailer: Dictionary,
    /// The indirect objects of the document, each with its number and
    /// generation.
    pub objects: Vec<(ObjectId, Object)>,
    /// The largest object number in use.
    pub max_id: u32,
    /// Where in the file the cross-reference table starts.
    pub xref_start: usize,
}

/// A document in the contracts.
pub struct DocumentValue {
    pub version: Seq<char>,
    pub trailer: Seq<(Seq<u8>, Value)>,
    pub objects: Seq<(ObjectId, Value)>,
    pub max_id: u32,
    pub xref_start: usize,
}

impl DocumentValue {
    /// The document without objects.
    pub open spec fn empty() -> DocumentValue {
        DocumentValue {
            version: default_version(),
            trailer: Seq::empty(),
            objects: Seq::empty(),
            max_id: 0,
            xref_start: 0,
        }
    }

    /// The empty document that continues this one: its trailer is that of
    /// this document and names, under `Prev`, the place of this
    /// document's cross-reference table as the one before; its object
    /// numbers go on where those of this document end.
    pub open spec fn continued(self) -> DocumentValue {
        DocumentValue {
            version: default_version(),
            trailer: with_entry(self.trailer, key("Prev"), Value::Integer(self.xref_start as i64)),
            objects: Seq::empty(),
            max_id: self.max_id,
            xref_start: 0,
        }
    }
}

impl DeepView for Document {
    type V = DocumentValue;

    open spec fn deep_view(&self) -> DocumentValue {
        DocumentValue {
            version: self.version@,
            trailer: self.trailer.deep_view(),
            objects: Seq::new(
                self.objects@.len(),
                |i: int| (self.objects@[i].0, self.objects@[i].1.deep_view()),
            ),
            max_id: self.max_id,
            xref_start: self.xref_start,
        }
    }
}

impl Document {
    /// A document without objects.
    pub fn new() -> (document: Document)
        ensures
            document.deep_view() == DocumentValue::empty(),
    {
        proof {
            reveal_strlit("1.4");
        }
        let document = Document {
            version: "1.4".to_owned(),
            trailer: Dictionary::new(),
            objects: Vec::new(),
            max_id: 0,
            xref_start: 0,
        };
        assert(document.deep_view().version =~= default_version());
        assert(document.deep_view().objects =~= Seq::<(ObjectId, Value)>::empty());
        document
    }

    /// An empty document that continues `prev`: what is added to it can
    /// be appended to the file of `prev`.
    pub fn new_from_prev(prev: &Document) -> (document: Document)
        ensures
            document.deep_view() == prev.deep_view().continued(),
    {
        proof {
            reveal_strlit("1.4");
        }
        let mut trailer = prev.trailer.copy();
        trailer.set(
            "Prev".as_bytes(),
            Object::Integer(#[verifier::truncate] (prev.xref_start as i64)),
        );
        let document = Document {
            version: "1.4".to_owned(),
            trailer,
            objects: Vec::new(),
            max_id: prev.max_id,
            xref_start: 0,
        };
        assert(document.deep_view().version =~= default_version());
        assert(document.deep_view().objects =~= Seq::<(ObjectId, Value)>::empty());
        document
    }
}

impl Clone for Document {
    fn clone(&self) -> (copy: Document)
        ensures
            copy.deep_view() == self.deep_view(),
    {
        let mut objects: Vec<(ObjectId, Object)> = Vec::new();
        let mut i: usize = 0;
        while i < self.objects.len()
            invariant
                i <= self.objects@.len(),
                objects@.len() == i,
                forall|k: int|
                    0 <= k < i ==> (#[trigger] objects@[k]).0 == self.objects@[k].0
                        && objects@[k].1.deep_view() == self.objects@[k].1.deep_view(),
            decreases self.objects@.len() - i,
        {
            objects.push((self.objects[i].0, self.objects[i].1.copy()));
            i += 1;
        }
        let copy = Document {
            version: self.version.clone(),
            trailer: self.trailer.copy(),
            objects,
            max_id: self.max_id,
            xref_start: self.xref_start,
        };
        assert(copy.deep_view().objects =~= self.deep_view().objects);
        copy
    }
}

} // verus!
