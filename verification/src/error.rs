//! The closed taxonomy of upload failures and their HTTP status mapping.

use vstd::prelude::*;

verus! {

/// The mathematical shape of an [`UploadError`]: the diagnostic string is a
/// character sequence.
#[verifier::ext_equal]
pub enum ErrorModel {
    MissingField,
    MalformedRequest,
    UnsupportedMediaType(Seq<char>),
    PayloadTooLarge,
    StreamError,
    StorageError,
}

/// Every way an upload can fail. All variants are recoverable at the request
/// boundary; none aborts the process.
pub enum UploadError {
    /// No part of the multipart body carried the configured field name.
    MissingField,
    /// The multipart framing was broken, or a located part had no declared
    /// content type.
    MalformedRequest,
    /// The declared content type is outside the supported set; the offending
    /// string is kept for diagnostics.
    UnsupportedMediaType(String),
    /// The running byte total of the payload exceeded the configured ceiling.
    PayloadTooLarge,
    /// The chunk source failed mid-stream (network error or client abort).
    StreamError,
    /// Creating or writing the stored file failed.
    StorageError,
}

impl View for UploadError {
    type V = ErrorModel;

    open spec fn view(&self) -> ErrorModel {
        match self {
            UploadError::MissingField => ErrorModel::MissingField,
            UploadError::MalformedRequest => ErrorModel::MalformedRequest,
            UploadError::UnsupportedMediaType(t) => ErrorModel::UnsupportedMediaType(t@),
            UploadError::PayloadTooLarge => ErrorModel::PayloadTooLarge,
            UploadError::StreamError => ErrorModel::StreamError,
            UploadError::StorageError => ErrorModel::StorageError,
        }
    }
}

impl UploadError {
    /// The HTTP status each failure maps to.
    pub open spec fn spec_status_code(self) -> u16 {
        match self {
            UploadError::MissingField => 400,
            UploadError::MalformedRequest => 400,
            UploadError::UnsupportedMediaType(_) => 400,
            UploadError::PayloadTooLarge => 413,
            UploadError::StreamError => 400,
            UploadError::StorageError => 500,
        }
    }

    /// Returns the HTTP status code this failure is rendered with.
    pub fn status_code(&self) -> (r: u16)
        ensures
            r == self.spec_status_code(),
    {
        match self {
            UploadError::MissingField => 400,
            UploadError::MalformedRequest => 400,
            UploadError::UnsupportedMediaType(_) => 400,
            UploadError::PayloadTooLarge => 413,
            UploadError::StreamError => 400,
            UploadError::StorageError => 500,
        }
    }
}

} // verus!
