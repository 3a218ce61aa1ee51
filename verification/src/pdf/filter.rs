//! Which objects of a file are kept when it is loaded for its text.
//!
//! Objects that only describe layout, images and fonts take no part in
//! the text, and a dictionary is of no use once the entries that say
//! nothing of the text are taken out and none is left.
use crate::bytes::bytes_eq;
use crate::pdf::object::{key, lookup, without_entry, Dictionary, Object, ObjectId, Value};
use vstd::prelude::*;

verus! {

/// The name under `Type` in the dictionary of a dictionary or a stream.
pub open spec fn type_name_of(object: Value) -> Option<Seq<u8>> {
    let dict = match object {
        Value::Dictionary(dict) => Some(dict),
        Value::Stream(stream) => Some(stream.dict),
        _ => None,
    };
    match dict {
        Some(dict) => match lookup(dict, key("Type")) {
            Some(Value::Name(name)) => Some(name),
            _ => None,
        },
        None => None,
    }
}

/// The types of the objects that are left out.
pub open spec fn is_ignored_type(name: Seq<u8>) -> bool {
    ||| name == key("Length")
    ||| name == key("BBox")
    ||| name == key("FormType")
    ||| name == key("Matrix")
    ||| name == key("Type")
    ||| name == key("XObject")
    ||| name == key("Subtype")
    ||| name == key("Filter")
    ||| name == key("ColorSpace")
    ||| name == key("Width")
    ||| name == key("Height")
    ||| name == key("BitsPerComponent")
    ||| name == key("Length1")
    ||| name == key("Length2")
    ||| name == key("Length3")
    ||| name == key("PTEX.FileName")
    ||| name == key("PTEX.PageNumber")
    ||| name == key("PTEX.InfoDict")
    ||| name == key("FontDescriptor")
    ||| name == key("ExtGState")
    ||| name == key("MediaBox")
    ||| name == key("Annot")
}

/// Whether an object is left out for its type.
pub open spec fn is_ignored(object: Value) -> bool {
    match type_name_of(object) {
        Some(name) => is_ignored_type(name),
        None => false,
    }
}

/// The entries of a dictionary that may say something of the text: all
/// but those of who made the file and how its pages look.
pub open spec fn pruned(dict: Seq<(Seq<u8>, Value)>) -> Seq<(Seq<u8>, Value)> {
    let dict = without_entry(dict, key("Producer"));
    let dict = without_entry(dict, key("ModDate"));
    let dict = without_entry(dict, key("Creator"));
    let dict = without_entry(dict, key("ProcSet"));
    let dict = without_entry(dict, key("Procset"));
    let dict = without_entry(dict, key("XObject"));
    let dict = without_entry(dict, key("MediaBox"));
    without_entry(dict, key("Annots"))
}

/// The object as it is after filtering: a dictionary that is not left
/// out for its type is pruned; any other object stays as it is.
pub open spec fn filtered(object: Value) -> Value {
    match object {
        Value::Dictionary(dict) => if is_ignored(object) {
            object
        } else {
            Value::Dictionary(pruned(dict))
        },
        _ => object,
    }
}

/// Whether an object is kept: it is not left out for its type, and it is
/// no dictionary that is empty once it is pruned.
pub open spec fn is_kept(object: Value) -> bool {
    &&& !is_ignored(object)
    &&& match object {
        Value::Dictionary(dict) => pruned(dict).len() > 0,
        _ => true,
    }
}

/// Whether `name` is the type of objects that are left out.
fn ignored_type(name: &[u8]) -> (is: bool)
    ensures
        is == is_ignored_type(name@),
{
    bytes_eq(name, "Length".as_bytes()) || bytes_eq(name, "BBox".as_bytes()) || bytes_eq(
        name,
        "FormType".as_bytes(),
    ) || bytes_eq(name, "Matrix".as_bytes()) || bytes_eq(name, "Type".as_bytes()) || bytes_eq(
        name,
        "XObject".as_bytes(),
    ) || bytes_eq(name, "Subtype".as_bytes()) || bytes_eq(name, "Filter".as_bytes()) || bytes_eq(
        name,
        "ColorSpace".as_bytes(),
    ) || bytes_eq(name, "Width".as_bytes()) || bytes_eq(name, "Height".as_bytes()) || bytes_eq(
        name,
        "BitsPerComponent".as_bytes(),
    ) || bytes_eq(name, "Length1".as_bytes()) || bytes_eq(name, "Length2".as_bytes()) || bytes_eq(
        name,
        "Length3".as_bytes(),
    ) || bytes_eq(name, "PTEX.FileName".as_bytes()) || bytes_eq(
        name,
        "PTEX.PageNumber".as_bytes(),
    ) || bytes_eq(name, "PTEX.InfoDict".as_bytes()) || bytes_eq(
        name,
        "FontDescriptor".as_bytes(),
    ) || bytes_eq(name, "ExtGState".as_bytes()) || bytes_eq(name, "MediaBox".as_bytes())
        || bytes_eq(name, "Annot".as_bytes())
}

/// Whether a dictionary names a type of objects that are left out.
fn names_ignored_type(dict: &Dictionary) -> (is: bool)
    ensures
        is == (match lookup(dict.deep_view(), key("Type")) {
            Some(Value::Name(name)) => is_ignored_type(name),
            _ => false,
        }),
{
    match dict.get("Type".as_bytes()) {
        Ok(object) => match object.as_name() {
            Ok(name) => ignored_type(name),
            Err(_) => false,
        },
        Err(_) => false,
    }
}

/// Takes out of a dictionary the entries that say nothing of the text.
fn prune(dict: &mut Dictionary)
    ensures
        final(dict).deep_view() == pruned(old(dict).deep_view()),
{
    dict.remove("Producer".as_bytes());
    dict.remove("ModDate".as_bytes());
    dict.remove("Creator".as_bytes());
    dict.remove("ProcSet".as_bytes());
    dict.remove("Procset".as_bytes());
    dict.remove("XObject".as_bytes());
    dict.remove("MediaBox".as_bytes());
    dict.remove("Annots".as_bytes());
}

/// Decides whether an object of a file is kept, and prunes it if it is a
/// dictionary. Returns the object with its identifier where it is kept,
/// and nothing where it is left out.
pub fn filter_func(object_id: ObjectId, object: &mut Object) -> (kept: Option<(ObjectId, Object)>)
    ensures
        final(object).deep_view() == filtered(old(object).deep_view()),
        match kept {
            Some((id, copy)) => {
                &&& is_kept(old(object).deep_view())
                &&& id == object_id
                &&& copy.deep_view() == filtered(old(object).deep_view())
            },
            None => !is_kept(old(object).deep_view()),
        },
{
    let ignored = match object {
        Object::Dictionary(dict) => names_ignored_type(dict),
        Object::Stream(stream) => names_ignored_type(&stream.dict),
        _ => false,
    };
    if ignored {
        return None;
    }
    match object {
        Object::Dictionary(dict) => {
            prune(dict);
            if dict.is_empty() {
                return None;
            }
        },
        _ => {},
    }
    Some((object_id, object.copy()))
}

} // verus!
