//! Flattens a directory tree into one text document.
//!
//! The directory walk and all file access happen outside this library. What
//! the library decides is which walked entries become part of the document,
//! whether a file's leading bytes look binary, and which bytes each included
//! file contributes: a separator header naming its path, then either its raw
//! bytes or its text re-emitted line by line.
pub mod document;
pub mod entry;
pub mod laws;
pub mod render;
pub mod sniff;
