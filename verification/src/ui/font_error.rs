//! The error a font load ends in.

use vstd::prelude::*;

use crate::text::owned;

verus! {

/// Declares `std::io::Error` so that a font error can carry the error a
/// read failed with.
#[verifier::external_type_specification]
#[verifier::external_body]
pub struct ExIoError(std::io::Error);

/// A font could not be loaded.
#[derive(Debug)]
pub enum FontError {
    /// The file could not be read.
    Io { path: String, source: std::io::Error },
    /// The renderer did not recognise the data as a font.
    Unreadable {
        /// The file it came from, when it came from one.
        path: Option<String>,
    },
}

/// The file an error names, if it names one.
pub open spec fn error_path(e: FontError) -> Option<Seq<char>> {
    match e {
        FontError::Io { path, .. } => Some(path@),
        FontError::Unreadable { path: Some(path) } => Some(path@),
        FontError::Unreadable { path: None } => None,
    }
}

impl FontError {
    /// The error with the file it came from filled in, where it did not
    /// name one yet; an error that names a file keeps it.
    pub fn at(self, path: &str) -> (e: FontError)
        ensures
            error_path(e) == Some(match error_path(self) {
                Some(named) => named,
                None => path@,
            }),
            (e is Io) == (self is Io),
    {
        match self {
            FontError::Unreadable { path: None } => FontError::Unreadable { path: Some(owned(path)) },
            other => other,
        }
    }
}

} // verus!
