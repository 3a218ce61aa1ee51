//! PDF files: their objects, the text strings that they hold, their
//! cross-reference streams, and which of their objects matter for the
//! text.
pub mod content;
pub mod document;
pub mod encodings;
pub mod filter;
pub mod incremental_document;
pub mod object;
pub mod text_string;
pub mod xobject;
pub mod xref;
pub mod xref_stream;
