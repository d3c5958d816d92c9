//! The record produced by a completed upload: its media type, the URL it is
//! served under, and when it was created.

use vstd::prelude::*;
use vstd::string::StringExecFns;
use crate::media::MediaType;

verus! {

/// What a successfully stored upload looks like on disk: its generated name
/// and its size in bytes.
pub struct StoredFile {
    /// The generated storage name, `<uuid>.<extension>`.
    pub name: String,
    /// The bytes written, never above the configured ceiling at completion.
    pub size: u64,
}

/// A completed upload, created only after its file is fully stored and never
/// mutated afterwards.
pub struct Meme {
    /// The media type the upload was declared and accepted as.
    pub media_type: MediaType,
    /// The URL the stored file is served under: the configured public prefix
    /// followed by the storage name.
    pub url: String,
    /// Creation time, in milliseconds since the Unix epoch, as the clock
    /// reported it.
    pub created_at: i64,
}

/// The mathematical shape of a [`StoredFile`].
#[verifier::ext_equal]
pub struct StoredFileModel {
    pub name: Seq<char>,
    pub size: u64,
}

/// The mathematical shape of a [`Meme`].
#[verifier::ext_equal]
pub struct MemeModel {
    pub media_type: MediaType,
    pub url: Seq<char>,
    pub created_at: i64,
}

impl View for StoredFile {
    type V = StoredFileModel;

    open spec fn view(&self) -> StoredFileModel {
        StoredFileModel { name: self.name@, size: self.size }
    }
}

impl View for Meme {
    type V = MemeModel;

    open spec fn view(&self) -> MemeModel {
        MemeModel { media_type: self.media_type, url: self.url@, created_at: self.created_at }
    }
}

/// What url::Url::parse makes of a string: the serialization of the parsed
/// URL. Parsing depends on the input alone.
pub uninterp spec fn url_serialization(s: Seq<char>) -> Seq<char>;

/// Relies on url::Url::parse and the From<Url> conversion to String, which
/// yields the parsed URL's serialization. Returns None exactly where the
/// parser rejects the string.
#[verifier::external_body]
fn parse_url(s: &str) -> (r: Option<String>)
    ensures
        r matches Some(u) ==> u@ == url_serialization(s@),
{
    match url::Url::parse(s) {
        Ok(u) => Some(String::from(u)),
        Err(_) => None,
    }
}

/// Relies on chrono::Utc::now and DateTime::timestamp_millis. The result
/// depends on the clock, so nothing is stated of its value.
#[verifier::external_body]
fn now_unix_millis() -> (r: i64)
{
    chrono::Utc::now().timestamp_millis()
}

impl Meme {
    /// Builds the record for a completed upload: the URL is the public prefix
    /// followed by the storage name, and the timestamp is whatever the clock
    /// reports at this moment.
    pub fn build(media_type: MediaType, url_prefix: &str, stored_name: &str) -> (m: Meme)
        ensures
            m.media_type == media_type,
            m.url@ == url_prefix@ + stored_name@,
    {
        let url = String::from_str(url_prefix).concat(stored_name);
        Meme { media_type, url, created_at: now_unix_millis() }
    }

    /// Runs the meme's URL through the URL parser; the result is the parser's
    /// serialization of it, or None where the parser rejects it.
    pub fn parsed_url(&self) -> (r: Option<String>)
        ensures
            r matches Some(u) ==> u@ == url_serialization(self.url@),
    {
        parse_url(self.url.as_str())
    }
}

} // verus!
