//! What can stop a conversion.

use docx_rs::DocxError;
use std::path::StripPrefixError;
use vstd::prelude::*;
use vstd::string::StringExecFns;

verus! {

/// `std::io::Error`, carried and never looked into.
#[verifier::external_type_specification]
#[verifier::external_body]
pub struct ExIoError(std::io::Error);

/// `docx_rs::DocxError`, carried and never looked into.
#[verifier::external_type_specification]
#[verifier::external_body]
pub struct ExDocxError(DocxError);

/// Every way in which a conversion fails. The first three are found before
/// anything is read; the others carry the error that an outside call gave.
#[derive(Debug)]
pub enum Error {
    /// Nothing exists at the input path.
    InvalidInputDirectory,
    /// The input path exists and is no directory.
    FileInputDirectory,
    /// The output path exists and may not be overwritten.
    InvalidOutputDirectory,
    /// A file does not lie below the directory that is scanned.
    StripPrefix(StripPrefixError),
    /// A path could not be probed, a directory not listed or a file not read
    /// as text.
    IO(std::io::Error),
    /// The document could not be built or packed.
    Docx(DocxError),
}

impl Error {
    /// The message of an error that this library words itself: `None` for
    /// one that carries an outside error, which words itself.
    pub fn message(&self) -> (text: Option<String>)
        ensures
            match *self {
                Error::InvalidInputDirectory => text.deep_view() == Some(
                    "Input directory does not exist."@,
                ),
                Error::FileInputDirectory => text.deep_view() == Some(
                    "Input directory is not a directory."@,
                ),
                Error::InvalidOutputDirectory => text.deep_view() == Some(
                    "Output file already exists."@,
                ),
                _ => text.is_none(),
            },
    {
        match self {
            Error::InvalidInputDirectory => Some(
                String::from_str("Input directory does not exist."),
            ),
            Error::FileInputDirectory => Some(
                String::from_str("Input directory is not a directory."),
            ),
            Error::InvalidOutputDirectory => Some(String::from_str("Output file already exists.")),
            _ => None,
        }
    }
}

} // verus!
