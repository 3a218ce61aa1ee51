//! Content streams: the operations that draw a page.
use crate::pdf::object::Object;
use vstd::prelude::*;

verus! {

/// One operation of a content stream: an operator and the operands that
/// stand before it.
#[derive(Clone, Debug)]
pub struct Operation {
    pub operator: String,
    pub operands: Vec<Object>,
}

impl Operation {
    /// An operation of the given operator on the given operands.
    pub fn new(operator: &str, operands: Vec<Object>) -> (operation: Operation)
        ensures
            operation.operator@ == operator@,
            operation.operands == operands,
    {
        Operation { operator: operator.to_owned(), operands }
    }
}

/// The operations of a content stream, in order.
#[derive(Clone, Debug)]
pub struct Content {
    pub operations: Vec<Operation>,
}

} // verus!
