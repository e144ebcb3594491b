//! The errors of manifest and address handling.

use vstd::prelude::*;

verus! {

/// `std::io::Error`, carried through as an opaque value.
#[verifier::external_type_specification]
#[verifier::external_body]
pub struct ExIoError(std::io::Error);

/// Represents all possible errors of manifest and address handling.
#[derive(Debug)]
pub enum ManifestError {
    /// A required manifest field is blank; holds the field's name.
    MissingField(&'static str),
    /// JSON that could not be read, or an address of the wrong shape.
    JsonError(serde_json::Error),
    /// A manifest file that could not be read.
    IOError(std::io::Error),
}

} // verus!
