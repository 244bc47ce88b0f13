//! The error kinds that the service layer and the upload pipeline report.
//! Every failure surfaces to the HTTP layer as a flat error envelope; these
//! kinds only select the static message and are never shown in detail.

use vstd::prelude::*;

verus! {

/// The required field of a category document that was missing or of the
/// wrong shape during decoding.
#[derive(Clone, Copy, Debug, PartialEq, Eq, Structural)]
pub enum DecodeField {
    Id,
    Name,
    Description,
}

/// Failure kinds of the service layer and the upload pipeline.
#[derive(Clone, Copy, Debug, PartialEq, Eq, Structural)]
pub enum ApiError {
    /// The document store reported a connection or query failure.
    Store,
    /// A typed record could not be encoded as a document.
    Encode,
    /// A document lacked a required field or held one of the wrong shape.
    Decode(DecodeField),
    /// A point lookup matched no document.
    NotFound,
    /// A multipart part carried no filename, or one without an extension.
    MalformedPart,
    /// The destination file could not be created or written.
    Io,
    /// A client-supplied identifier string is not well-formed.
    InvalidIdentifier,
}

} // verus!
