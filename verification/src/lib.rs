//! Turns a tree of source files into one paginated word-processing
//! document: a title, a table of contents, and for every file with an
//! accepted extension a page that is headed by the file's path and holds the
//! file's lines in a monospace font.
//!
//! The library reads no file and writes none. `convert` checks a
//! configuration against what its caller finds at the input and output
//! paths, `scan` walks the directory tree by asking its caller for one
//! listing or one text at a time, and `document` builds what the document
//! holds. `filter` says which files get a page, `text` and `path` hold what
//! is taken from the standard library, `docx` what is taken from `docx_rs`.
//! `tree` states what a scan makes of a whole directory tree.

pub mod convert;
pub mod document;
pub mod docx;
pub mod error;
pub mod filter;
pub mod path;
pub mod scan;
pub mod text;
pub mod tree;
