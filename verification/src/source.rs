//! Content sources: which files are read for the index, as what, and
//! what their text is.
//!
//! A file is admitted by what is known of it before it is opened: whether
//! it may be executed, how long it is, and the extension of its name. Of
//! a file in plain text the text is what its bytes say in UTF-8; of a
//! file in XML it is the character data between its tags.
use crate::builder::GIG;
use crate::bytes::str_eq;
use crate::chars::string_from_utf8;
use vstd::prelude::*;
use vstd::string::StringExecFns;
use vstd::utf8::{decode_utf8, valid_utf8};

verus! {

/// The format in which a file holds its text.
#[derive(Clone, Copy, Debug, PartialEq, Eq, Structural)]
pub enum Format {
    Pdf,
    Html,
    Xml,
    Text,
}

/// Why a file is left out of the index.
#[derive(Clone, Copy, Debug, PartialEq, Eq, Structural)]
pub enum Skip {
    /// The file may be executed: it is taken to be a program.
    Executable,
    /// The file has [`GIG`] bytes or more.
    TooBig,
    /// The extension names no format that is read.
    UnknownExtension,
}

/// The extensions of the files that are read as plain text.
pub open spec fn is_text_extension(extension: Seq<char>) -> bool {
    ||| extension == "txt"@
    ||| extension == "css"@
    ||| extension == "js"@
    ||| extension == "json"@
    ||| extension == "rs"@
    ||| extension == "py"@
    ||| extension == "rb"@
    ||| extension == "java"@
    ||| extension == "c"@
    ||| extension == "cpp"@
    ||| extension == "go"@
    ||| extension == "sh"@
    ||| extension == "md"@
    ||| extension == "yaml"@
    ||| extension == "ini"@
    ||| extension == "sql"@
    ||| extension == "csv"@
    ||| extension == "log"@
    ||| extension == "makefile"@
    ||| extension == "bat"@
    ||| extension == "php"@
    ||| extension == "pl"@
    ||| extension == "asm"@
    ||| extension == "dockerfile"@
    ||| extension == "erb"@
    ||| extension == "proto"@
    ||| extension == "tf"@
    ||| extension == "tfvars"@
    ||| extension == "toml"@
    ||| extension == "v"@
    ||| extension == "rspec"@
    ||| extension == "ml"@
    ||| extension == "dart"@
    ||| extension == "lua"@
    ||| extension == "coffee"@
    ||| extension == "scss"@
    ||| extension == "less"@
    ||| extension == "svg"@
    ||| extension == "acl"@
    ||| extension == "patch"@
    ||| extension == "diff"@
    ||| extension == "zsh"@
    ||| extension == "r"@
    ||| extension == "groovy"@
    ||| extension == "h"@
    ||| extension == "hpp"@
    ||| extension == "c++"@
    ||| extension == "nasm"@
    ||| extension == "wxml"@
    ||| extension == "wxs"@
    ||| extension == "cfg"@
    ||| extension == "zig"@
    ||| extension == "env"@
    ||| extension == "d"@
    ||| extension == "f90"@
    ||| extension == "f"@
    ||| extension == "jl"@
    ||| extension == "cabal"@
    ||| extension == "hs"@
    ||| extension == "nim"@
    ||| extension == "sol"@
    ||| extension == "swift"@
    ||| extension == "mxml"@
    ||| extension == "clj"@
    ||| extension == "cljs"@
    ||| extension == "lisp"@
    ||| extension == "el"@
    ||| extension == "sml"@
    ||| extension == "styl"@
    ||| extension == "nut"@
    ||| extension == "wsgi"@
    ||| extension == "raku"@
    ||| extension == "q"@
    ||| extension == "sage"@
    ||| extension == "pike"@
    ||| extension == "xqy"@
    ||| extension == "slim"@
    ||| extension == "hx"@
    ||| extension == "pmd"@
    ||| extension == "gsql"@
    ||| extension == "cs"@
    ||| extension == "ts"@
    ||| extension == "gitignore"@
    ||| extension == "in"@
}

/// The format that an extension names, if any. Extensions are compared
/// as they are written: a capital letter makes another extension.
pub open spec fn format_of(extension: Seq<char>) -> Option<Format> {
    if extension == "pdf"@ {
        Some(Format::Pdf)
    } else if extension == "html"@ {
        Some(Format::Html)
    } else if extension == "xml"@ || extension == "xhtml"@ {
        Some(Format::Xml)
    } else if is_text_extension(extension) {
        Some(Format::Text)
    } else {
        None
    }
}

/// Whether a file is read, and as what: the first of the three reasons
/// to leave it out that holds, or the format of its extension.
pub open spec fn admitted(executable: bool, len: u64, extension: Seq<char>) -> Result<
    Format,
    Skip,
> {
    if executable {
        Err(Skip::Executable)
    } else if len >= GIG {
        Err(Skip::TooBig)
    } else {
        match format_of(extension) {
            Some(format) => Ok(format),
            None => Err(Skip::UnknownExtension),
        }
    }
}

/// Whether a file of this extension is read as plain text.
fn text_extension(extension: &str) -> (is: bool)
    ensures
        is == is_text_extension(extension@),
{
    str_eq(extension, "txt")
        || str_eq(extension, "css")
        || str_eq(extension, "js")
        || str_eq(extension, "json")
        || str_eq(extension, "rs")
        || str_eq(extension, "py")
        || str_eq(extension, "rb")
        || str_eq(extension, "java")
        || str_eq(extension, "c")
        || str_eq(extension, "cpp")
        || str_eq(extension, "go")
        || str_eq(extension, "sh")
        || str_eq(extension, "md")
        || str_eq(extension, "yaml")
        || str_eq(extension, "ini")
        || str_eq(extension, "sql")
        || str_eq(extension, "csv")
        || str_eq(extension, "log")
        || str_eq(extension, "makefile")
        || str_eq(extension, "bat")
        || str_eq(extension, "php")
        || str_eq(extension, "pl")
        || str_eq(extension, "asm")
        || str_eq(extension, "dockerfile")
        || str_eq(extension, "erb")
        || str_eq(extension, "proto")
        || str_eq(extension, "tf")
        || str_eq(extension, "tfvars")
        || str_eq(extension, "toml")
        || str_eq(extension, "v")
        || str_eq(extension, "rspec")
        || str_eq(extension, "ml")
        || str_eq(extension, "dart")
        || str_eq(extension, "lua")
        || str_eq(extension, "coffee")
        || str_eq(extension, "scss")
        || str_eq(extension, "less")
        || str_eq(extension, "svg")
        || str_eq(extension, "acl")
        || str_eq(extension, "patch")
        || str_eq(extension, "diff")
        || str_eq(extension, "zsh")
        || str_eq(extension, "r")
        || str_eq(extension, "groovy")
        || str_eq(extension, "h")
        || str_eq(extension, "hpp")
        || str_eq(extension, "c++")
        || str_eq(extension, "nasm")
        || str_eq(extension, "wxml")
        || str_eq(extension, "wxs")
        || str_eq(extension, "cfg")
        || str_eq(extension, "zig")
        || str_eq(extension, "env")
        || str_eq(extension, "d")
        || str_eq(extension, "f90")
        || str_eq(extension, "f")
        || str_eq(extension, "jl")
        || str_eq(extension, "cabal")
        || str_eq(extension, "hs")
        || str_eq(extension, "nim")
        || str_eq(extension, "sol")
        || str_eq(extension, "swift")
        || str_eq(extension, "mxml")
        || str_eq(extension, "clj")
        || str_eq(extension, "cljs")
        || str_eq(extension, "lisp")
        || str_eq(extension, "el")
        || str_eq(extension, "sml")
        || str_eq(extension, "styl")
        || str_eq(extension, "nut")
        || str_eq(extension, "wsgi")
        || str_eq(extension, "raku")
        || str_eq(extension, "q")
        || str_eq(extension, "sage")
        || str_eq(extension, "pike")
        || str_eq(extension, "xqy")
        || str_eq(extension, "slim")
        || str_eq(extension, "hx")
        || str_eq(extension, "pmd")
        || str_eq(extension, "gsql")
        || str_eq(extension, "cs")
        || str_eq(extension, "ts")
        || str_eq(extension, "gitignore")
        || str_eq(extension, "in")
}

/// The bits of a file mode that allow someone to execute the file.
pub const EXECUTE_BITS: u32 = 0o111;

/// Whether a file of this mode may be executed by anyone: by its owner,
/// by its group or by the others.
pub fn is_executable(mode: u32) -> (executable: bool)
    ensures
        executable == (mode & EXECUTE_BITS != 0),
{
    mode & EXECUTE_BITS != 0
}

/// The format that the extension of a file names, if any.
pub fn recognize(extension: &str) -> (format: Option<Format>)
    ensures
        format == format_of(extension@),
{
    if str_eq(extension, "pdf") {
        Some(Format::Pdf)
    } else if str_eq(extension, "html") {
        Some(Format::Html)
    } else if str_eq(extension, "xml") || str_eq(extension, "xhtml") {
        Some(Format::Xml)
    } else if text_extension(extension) {
        Some(Format::Text)
    } else {
        None
    }
}

/// Decides whether a file is read, and as what, from what its metadata
/// and its name say.
pub fn classify(executable: bool, len: u64, extension: &str) -> (verdict: Result<Format, Skip>)
    ensures
        verdict == admitted(executable, len, extension@),
{
    if executable {
        Err(Skip::Executable)
    } else if len >= GIG {
        Err(Skip::TooBig)
    } else {
        match recognize(extension) {
            Some(format) => Ok(format),
            None => Err(Skip::UnknownExtension),
        }
    }
}

/// What reading XML from the bytes finds, event by event up to the end
/// of the document or the first error: for an event of character data
/// its text, and nothing for any other event.
pub uninterp spec fn xml_characters_of(bytes: Seq<u8>) -> Seq<Option<Seq<char>>>;

/// The pieces that are there, one after the other.
pub open spec fn joined(pieces: Seq<Option<Seq<char>>>) -> Seq<char>
    decreases pieces.len(),
{
    if pieces.len() == 0 {
        Seq::empty()
    } else {
        joined(pieces.drop_last()) + match pieces.last() {
            Some(piece) => piece,
            None => Seq::empty(),
        }
    }
}

/// Trusted: `xml::reader::EventReader` over the bytes, as an iterator run
/// to its end. Each event is handed on as the text of its character data,
/// or as nothing where it is of another kind or an error. What the reader
/// finds depends on the bytes alone; nothing more is claimed of it.
#[verifier::external_body]
fn xml_characters(bytes: &[u8]) -> (events: Vec<Option<String>>)
    ensures
        events.deep_view() == xml_characters_of(bytes@),
{
    xml::reader::EventReader::new(bytes).into_iter().map(
        |event|
            match event {
                Ok(xml::reader::XmlEvent::Characters(text)) => Some(text),
                _ => None,
            },
    ).collect()
}

/// Joins the pieces that are there into one text.
pub fn join(pieces: &Vec<Option<String>>) -> (text: String)
    ensures
        text@ == joined(pieces.deep_view()),
{
    let mut text = String::new();
    let mut i: usize = 0;
    while i < pieces.len()
        invariant
            i <= pieces@.len(),
            text@ == joined(pieces.deep_view().take(i as int)),
        decreases pieces@.len() - i,
    {
        assert(pieces.deep_view().take(i + 1).drop_last() == pieces.deep_view().take(i as int));
        if let Some(piece) = &pieces[i] {
            text.append(piece.as_str());
        }
        i += 1;
    }
    assert(pieces.deep_view().take(pieces@.len() as int) == pieces.deep_view());
    text
}

/// The text of a file in XML: its character data, in the order of the
/// file, up to the end of the document or the first error in it.
pub fn xml_text(bytes: &[u8]) -> (text: String)
    ensures
        text@ == joined(xml_characters_of(bytes@)),
{
    let events = xml_characters(bytes);
    join(&events)
}

/// The text of a file in plain text, or nothing where its bytes are not
/// UTF-8.
pub fn plain_text(bytes: Vec<u8>) -> (text: Option<String>)
    ensures
        match text {
            Some(text) => valid_utf8(bytes@) && text@ == decode_utf8(bytes@),
            None => !valid_utf8(bytes@),
        },
{
    string_from_utf8(bytes)
}

} // verus!
