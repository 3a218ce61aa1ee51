//! External objects: images that a page draws.
use crate::pdf::object::{Dictionary, ObjectId};
use vstd::prelude::*;

verus! {

/// An image of a document, as its stream describes it.
#[derive(Debug)]
pub struct PdfImage<'a> {
    pub id: ObjectId,
    pub width: i64,
    pub height: i64,
    pub color_space: Option<String>,
    pub filters: Option<Vec<String>>,
    pub bits_per_component: Option<i64>,
    /// The data of the image.
    pub content: &'a [u8],
    /// The dictionary of the stream that the image comes from.
    pub origin_dict: &'a Dictionary,
}

impl<'a> Clone for PdfImage<'a> {
    fn clone(&self) -> (copy: PdfImage<'a>)
        ensures
            copy.id == self.id,
            copy.width == self.width,
            copy.height == self.height,
            copy.bits_per_component == self.bits_per_component,
            copy.content@ == self.content@,
            copy.origin_dict == self.origin_dict,
    {
        PdfImage {
            id: self.id,
            width: self.width,
            height: self.height,
            color_space: self.color_space.clone(),
            filters: self.filters.clone(),
            bits_per_component: self.bits_per_component,
            content: self.content,
            origin_dict: self.origin_dict,
        }
    }
}

} // verus!
