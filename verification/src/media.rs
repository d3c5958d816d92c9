//! The closed set of supported media types, decided solely from the declared
//! content-type header.

use vstd::prelude::*;
use crate::error::UploadError;
use crate::text::str_eq;

verus! {

/// A supported media type. The set is closed and exhaustively matched, so
/// adding a variant is a compile-time-checked change.
#[derive(Clone, Copy, PartialEq, Eq, Structural, Debug)]
pub enum MediaType {
    ImageJpeg,
    ImagePng,
}

/// The media type a declared content-type string maps to, if any.
pub open spec fn spec_media_type_of(s: Seq<char>) -> Option<MediaType> {
    if s == "image/jpeg"@ {
        Some(MediaType::ImageJpeg)
    } else if s == "image/png"@ {
        Some(MediaType::ImagePng)
    } else {
        None
    }
}

impl MediaType {
    /// The canonical file extension of this media type.
    pub open spec fn spec_extension(self) -> Seq<char> {
        match self {
            MediaType::ImageJpeg => "jpg"@,
            MediaType::ImagePng => "png"@,
        }
    }

    /// The canonical content-type string of this media type.
    pub open spec fn spec_canonical(self) -> Seq<char> {
        match self {
            MediaType::ImageJpeg => "image/jpeg"@,
            MediaType::ImagePng => "image/png"@,
        }
    }

    /// Maps a declared content-type string to a media type, or rejects it as
    /// unsupported, carrying the offending string for diagnostics.
    pub fn from_str(s: &str) -> (r: Result<MediaType, UploadError>)
        ensures
            match r {
                Ok(m) => spec_media_type_of(s@) == Some(m),
                Err(e) => spec_media_type_of(s@) is None && (e matches
                    UploadError::UnsupportedMediaType(t) && t@ == s@),
            },
    {
        if str_eq(s, "image/jpeg") {
            Ok(MediaType::ImageJpeg)
        } else if str_eq(s, "image/png") {
            Ok(MediaType::ImagePng)
        } else {
            Err(UploadError::UnsupportedMediaType(s.to_owned()))
        }
    }

    /// Returns the canonical extension: `jpg` for JPEG, `png` for PNG.
    pub fn extension(&self) -> (r: &'static str)
        ensures
            r@ == self.spec_extension(),
    {
        match self {
            MediaType::ImageJpeg => "jpg",
            MediaType::ImagePng => "png",
        }
    }

    /// Returns the canonical content-type string, `image/jpeg` or `image/png`.
    pub fn canonical_name(&self) -> (r: &'static str)
        ensures
            r@ == self.spec_canonical(),
    {
        match self {
            MediaType::ImageJpeg => "image/jpeg",
            MediaType::ImagePng => "image/png",
        }
    }
}

} // verus!
